use resolve_bitvectors::ast::{
    Ast, Bit, Expression, FunctionDefinition, Integer, Literal, Operation, Parameter, Size,
    Statement, Type, Value,
};
use resolve_bitvectors::pass::{builtin_of, PassError, ResolveBitvectors};
use resolve_bitvectors::rules::Builtin;

fn s(x: &str) -> String {
    x.to_string()
}

fn id(x: &str) -> Value {
    Value::Identifier(s(x))
}

fn dest(x: &str) -> Expression {
    Expression::Identifier(s(x))
}

fn int_type(size: Size) -> Type {
    Type::Int { signed: false, size }
}

fn declare(name: &str, typ: usize) -> Statement {
    Statement::TypeDeclaration { name: s(name), typ }
}

fn int_lit(v: usize) -> Value {
    Value::Literal(Literal::Int(Integer::from_usize(v)))
}

fn copy(to: &str, value: Value) -> Statement {
    Statement::Copy { expression: dest(to), value }
}

fn call(to: &str, name: &str, arguments: Vec<Value>) -> Statement {
    Statement::FunctionCall { expression: Some(dest(to)), name: s(name), arguments }
}

fn function(parameters: Vec<Parameter>, statements: Vec<Statement>) -> FunctionDefinition {
    FunctionDefinition { name: s("f"), entry_block_len: statements.len(), parameters, statements }
}

fn program(types: Vec<Type>, parameters: Vec<Parameter>, statements: Vec<Statement>) -> Ast {
    Ast { types, functions: vec![function(parameters, statements)] }
}

fn value_of(i: &Integer) -> u128 {
    let mut v: u128 = 0;
    for (k, d) in i.magnitude.iter().enumerate() {
        v |= (*d as u128) << (64 * k);
    }
    v
}

fn copied_int(st: &Statement) -> u128 {
    match st {
        Statement::Copy { value: Value::Literal(Literal::Int(i)), .. } => value_of(i),
        other => panic!("not an integer copy: {:?}", other),
    }
}

fn run(ast: &mut Ast) -> Result<bool, PassError> {
    let mut pass = ResolveBitvectors::new_boxed();
    pass.run(ast)
}

#[test]
fn bits_literal_becomes_integer_and_static_width() {
    let bits = vec![Bit::One, Bit::Zero, Bit::One, Bit::One];
    let mut ast = program(
        vec![int_type(Size::Unknown)],
        vec![],
        vec![declare("v", 0), copy("v", Value::Literal(Literal::Bits(bits)))],
    );
    assert_eq!(run(&mut ast), Ok(true));
    assert_eq!(copied_int(&ast.functions[0].statements[1]), 11);
    assert_eq!(ast.types[0], int_type(Size::Static(4)));
}

#[test]
fn long_bits_literal_spans_two_digits() {
    let mut bits = vec![Bit::One];
    bits.extend(vec![Bit::Zero; 64]);
    let mut ast = program(
        vec![int_type(Size::Unknown)],
        vec![],
        vec![declare("v", 0), copy("v", Value::Literal(Literal::Bits(bits)))],
    );
    assert_eq!(run(&mut ast), Ok(true));
    assert_eq!(copied_int(&ast.functions[0].statements[1]), 1u128 << 64);
    assert_eq!(ast.types[0], int_type(Size::Static(65)));
}

#[test]
fn zeros_with_literal_length() {
    let mut ast = program(
        vec![int_type(Size::Unknown), int_type(Size::Unknown)],
        vec![],
        vec![
            declare("n", 0),
            copy("n", int_lit(5)),
            declare("y", 1),
            call("y", "Zeros", vec![id("n")]),
        ],
    );
    assert_eq!(run(&mut ast), Ok(true));
    assert_eq!(ast.functions[0].statements[3], copy("y", Value::Literal(Literal::Int(Integer::zero()))));
    assert_eq!(ast.types[1], int_type(Size::Static(5)));
}

#[test]
fn zeros_without_literal_keeps_width() {
    let mut ast = program(
        vec![int_type(Size::Unknown)],
        vec![Parameter { name: s("n"), typ: 0 }],
        vec![declare("y", 0), call("y", "Zeros", vec![id("n")])],
    );
    assert_eq!(run(&mut ast), Ok(true));
    assert_eq!(copied_int(&ast.functions[0].statements[1]), 0);
    assert_eq!(ast.types[0], int_type(Size::Unknown));
}

#[test]
fn ones_with_literal_length() {
    let mut ast = program(
        vec![int_type(Size::Unknown), int_type(Size::Unknown)],
        vec![],
        vec![
            declare("n", 0),
            copy("n", int_lit(4)),
            declare("y", 1),
            call("y", "Ones", vec![id("n")]),
        ],
    );
    assert_eq!(run(&mut ast), Ok(true));
    assert_eq!(copied_int(&ast.functions[0].statements[3]), 15);
    assert_eq!(ast.types[1], int_type(Size::Static(4)));
}

#[test]
fn ones_of_width_sixty_four() {
    let mut ast = program(
        vec![int_type(Size::Unknown), int_type(Size::Unknown)],
        vec![],
        vec![declare("n", 0), copy("n", int_lit(64)), declare("y", 1), call("y", "Ones", vec![id("n")])],
    );
    assert_eq!(run(&mut ast), Ok(true));
    assert_eq!(copied_int(&ast.functions[0].statements[3]), u64::MAX as u128);
}

#[test]
fn ones_without_literal_aborts() {
    let mut ast = program(
        vec![int_type(Size::Unknown)],
        vec![Parameter { name: s("n"), typ: 0 }],
        vec![declare("y", 0), call("y", "Ones", vec![id("n")])],
    );
    assert_eq!(run(&mut ast), Err(PassError::MissingLength(s("n"))));
}

#[test]
fn length_literal_out_of_range_aborts() {
    let negative = Integer { negative: true, magnitude: vec![3] };
    let mut ast = program(
        vec![int_type(Size::Unknown), int_type(Size::Unknown)],
        vec![],
        vec![
            declare("n", 0),
            copy("n", Value::Literal(Literal::Int(negative))),
            declare("y", 1),
            call("y", "Zeros", vec![id("n")]),
        ],
    );
    assert_eq!(run(&mut ast), Err(PassError::LengthOutOfRange(s("n"))));
}

#[test]
fn concat_of_static_operands() {
    let mut ast = program(
        vec![int_type(Size::Static(3)), int_type(Size::Static(5)), int_type(Size::Unknown)],
        vec![Parameter { name: s("a"), typ: 0 }, Parameter { name: s("b"), typ: 1 }],
        vec![declare("c", 2), call("c", "bitvector_concat", vec![id("a"), id("b")])],
    );
    assert_eq!(run(&mut ast), Ok(true));
    let expected = Value::Operation(Operation::Or(
        Box::new(Value::Operation(Operation::LeftShift(Box::new(id("a")), Box::new(int_lit(5))))),
        Box::new(id("b")),
    ));
    assert_eq!(ast.functions[0].statements[1], copy("c", expected));
    assert_eq!(ast.types[2], int_type(Size::Static(8)));
}

#[test]
fn concat_with_runtime_operand_aborts() {
    let mut ast = program(
        vec![int_type(Size::Static(3)), int_type(Size::Runtime(s("w"))), int_type(Size::Unknown)],
        vec![Parameter { name: s("a"), typ: 0 }, Parameter { name: s("b"), typ: 1 }],
        vec![declare("c", 2), call("c", "bitvector_concat", vec![id("a"), id("b")])],
    );
    assert_eq!(
        run(&mut ast),
        Err(PassError::NotStatic { operand: s("b"), size: Some(Size::Runtime(s("w"))) })
    );
}

#[test]
fn concat_width_overflow_aborts() {
    let mut ast = program(
        vec![int_type(Size::Static(usize::MAX)), int_type(Size::Static(1)), int_type(Size::Unknown)],
        vec![Parameter { name: s("a"), typ: 0 }, Parameter { name: s("b"), typ: 1 }],
        vec![declare("c", 2), call("c", "bitvector_concat", vec![id("a"), id("b")])],
    );
    assert_eq!(run(&mut ast), Err(PassError::WidthOverflow { left: usize::MAX, right: 1 }));
}

fn merge_case(dest_size: Size, source: Option<Size>) -> (Result<bool, PassError>, Ast) {
    let mut types = vec![int_type(dest_size)];
    let mut statements = vec![declare("d", 0)];
    if let Some(sz) = source {
        types.push(int_type(sz));
        statements.push(declare("src", 1));
    }
    statements.push(copy("d", id("src")));
    let mut ast = program(types, vec![], statements);
    let r = run(&mut ast);
    (r, ast)
}

#[test]
fn merge_static_destination_is_kept() {
    let (r, ast) = merge_case(Size::Static(7), Some(Size::Static(2)));
    assert_eq!(r, Ok(false));
    assert_eq!(ast.types[0], int_type(Size::Static(7)));
}

#[test]
fn merge_unknown_destination_takes_source() {
    let (r, ast) = merge_case(Size::Unknown, Some(Size::Runtime(s("k"))));
    assert_eq!(r, Ok(false));
    assert_eq!(ast.types[0], int_type(Size::Runtime(s("k"))));
}

#[test]
fn merge_runtime_destination_takes_static() {
    let (r, ast) = merge_case(Size::Runtime(s("k")), Some(Size::Static(6)));
    assert_eq!(r, Ok(false));
    assert_eq!(ast.types[0], int_type(Size::Static(6)));
}

#[test]
fn merge_untracked_source_changes_nothing() {
    let (r, ast) = merge_case(Size::Unknown, None);
    assert_eq!(r, Ok(false));
    assert_eq!(ast.types[0], int_type(Size::Unknown));
}

#[test]
fn eq_vec_with_unresolved_operands() {
    let mut ast = program(
        vec![int_type(Size::Unknown), int_type(Size::Unknown), Type::Bool],
        vec![Parameter { name: s("a"), typ: 0 }, Parameter { name: s("b"), typ: 1 }],
        vec![declare("e", 2), call("e", "eq_vec", vec![id("a"), id("b")])],
    );
    assert_eq!(run(&mut ast), Ok(true));
    let expected = Value::Operation(Operation::Equal(Box::new(id("a")), Box::new(id("b"))));
    assert_eq!(ast.functions[0].statements[1], copy("e", expected));
}

#[test]
fn end_to_end_zeros_and_undefined() {
    let mut ast = program(
        vec![int_type(Size::Unknown), int_type(Size::Unknown), int_type(Size::Unknown)],
        vec![Parameter { name: s("x"), typ: 0 }],
        vec![
            copy("x", int_lit(8)),
            declare("y", 1),
            call("y", "Zeros", vec![id("x")]),
            declare("z", 2),
            call("z", "undefined_bitvector", vec![id("x")]),
        ],
    );
    assert_eq!(run(&mut ast), Ok(true));
    let zero = Value::Literal(Literal::Int(Integer::zero()));
    assert_eq!(ast.functions[0].statements[2], copy("y", Value::Literal(Literal::Int(Integer::zero()))));
    assert_eq!(ast.functions[0].statements[4], copy("z", zero));
    assert_eq!(ast.types[1], int_type(Size::Static(8)));
    assert_eq!(ast.types[2], int_type(Size::Runtime(s("x"))));
}

#[test]
fn second_run_changes_nothing() {
    let mut ast = program(
        vec![int_type(Size::Unknown), int_type(Size::Unknown), int_type(Size::Unknown)],
        vec![Parameter { name: s("x"), typ: 0 }],
        vec![
            copy("x", int_lit(8)),
            declare("y", 1),
            call("y", "Ones", vec![id("x")]),
            declare("z", 2),
            call("z", "undefined_bitvector", vec![id("x")]),
        ],
    );
    assert_eq!(run(&mut ast), Ok(true));
    let after_first = format!("{:?}", ast);
    assert_eq!(run(&mut ast), Ok(false));
    assert_eq!(format!("{:?}", ast), after_first);
}

#[test]
fn unknown_call_passes_through() {
    let unknown = call("y", "frobnicate", vec![id("a")]);
    let mut ast = program(vec![int_type(Size::Unknown)], vec![], vec![declare("y", 0), unknown]);
    assert_eq!(run(&mut ast), Ok(false));
    assert_eq!(ast.functions[0].statements[1], call("y", "frobnicate", vec![id("a")]));
}

#[test]
fn length_outside_entry_block_is_not_found() {
    let mut ast = program(
        vec![int_type(Size::Unknown), int_type(Size::Unknown)],
        vec![],
        vec![
            declare("n", 0),
            declare("y", 1),
            Statement::Label(s("next")),
            copy("n", int_lit(5)),
            call("y", "Zeros", vec![id("n")]),
        ],
    );
    ast.functions[0].entry_block_len = 3;
    assert_eq!(run(&mut ast), Ok(true));
    assert_eq!(ast.types[1], int_type(Size::Unknown));
}

#[test]
fn wrong_arity_aborts() {
    let mut ast = program(
        vec![int_type(Size::Unknown)],
        vec![],
        vec![declare("y", 0), call("y", "eq_vec", vec![id("a")])],
    );
    assert_eq!(run(&mut ast), Err(PassError::ArityMismatch { builtin: Builtin::EqVec, found: 1 }));
}

#[test]
fn literal_argument_where_identifier_needed_aborts() {
    let mut ast = program(
        vec![int_type(Size::Unknown)],
        vec![],
        vec![declare("y", 0), call("y", "Zeros", vec![int_lit(3)])],
    );
    assert_eq!(run(&mut ast), Err(PassError::ExpectedIdentifier { builtin: Builtin::Zeros }));
}

#[test]
fn undefined_into_field_aborts() {
    let field = Expression::Field { expression: Box::new(dest("r")), field: s("f") };
    let st = Statement::FunctionCall {
        expression: Some(field),
        name: s("undefined_bitvector"),
        arguments: vec![id("n")],
    };
    let mut ast = program(vec![], vec![], vec![st]);
    assert_eq!(
        run(&mut ast),
        Err(PassError::DestinationNotIdentifier { builtin: Builtin::Undefined })
    );
}

#[test]
fn undefined_into_untracked_aborts() {
    let mut ast = program(vec![], vec![], vec![call("z", "undefined_bitvector", vec![id("n")])]);
    assert_eq!(run(&mut ast), Err(PassError::UntrackedIdentifier(s("z"))));
}

#[test]
fn bits_into_untracked_aborts() {
    let mut ast = program(
        vec![],
        vec![],
        vec![copy("v", Value::Literal(Literal::Bits(vec![Bit::One])))],
    );
    assert_eq!(run(&mut ast), Err(PassError::UntrackedIdentifier(s("v"))));
}

#[test]
fn builtin_names_are_exact() {
    assert_eq!(builtin_of(&s("Zeros")), Some(Builtin::Zeros));
    assert_eq!(builtin_of(&s("undefined_bitvector")), Some(Builtin::Undefined));
    assert_eq!(builtin_of(&s("zeros")), None);
}

#[test]
fn integer_conversions() {
    assert_eq!(value_of(&Integer::all_ones(0)), 0);
    assert_eq!(value_of(&Integer::all_ones(70)), (1u128 << 70) - 1);
    assert_eq!(value_of(&Integer::from_bits(&vec![Bit::Zero, Bit::One, Bit::Zero])), 2);
    assert_eq!(Integer::from_usize(9).to_usize(), Some(9));
    assert_eq!(Integer { negative: false, magnitude: vec![1, 1] }.to_usize(), None);
    assert_eq!(Integer { negative: true, magnitude: vec![0] }.to_usize(), Some(0));
}

#[test]
fn name_and_reset() {
    let mut pass = ResolveBitvectors::new_boxed();
    assert_eq!(pass.name(), "ReplaceBitvectors");
    pass.reset();
}

#[test]
fn widths_never_move_down() {
    let mut ast = program(
        vec![int_type(Size::Static(4)), int_type(Size::Runtime(s("w"))), int_type(Size::Unknown)],
        vec![],
        vec![
            declare("a", 0),
            declare("b", 1),
            declare("u", 2),
            call("a", "undefined_bitvector", vec![id("n")]),
            call("b", "undefined_bitvector", vec![id("n")]),
            copy("a", id("u")),
            copy("b", id("u")),
        ],
    );
    assert_eq!(run(&mut ast), Ok(true));
    assert_eq!(ast.types[0], int_type(Size::Static(4)));
    assert_eq!(ast.types[1], int_type(Size::Runtime(s("w"))));
}
