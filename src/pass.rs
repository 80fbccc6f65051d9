//! The width-resolution pass: seeds each function's locals from its
//! parameters, walks its statements in order, propagates widths and rewrites
//! the bitvector builtins into integer operations.
use vstd::prelude::*;

use crate::ast::{
    statements_view, types_view, values_view, Ast, Expression, FunctionDefinition, Integer,
    Literal, Operation, Size, SizeView, Statement, StatementView, Type, TypeView, Value,
};
use crate::locals::Locals;
use crate::ast::FunctionView;
use crate::rules::{
    builtin_named, builtin_rule, concat_rule, entry_block, eq_rule, function_rule, ident_of, literal_assigned,
    ones_rule, resolve_from, run_from, seed_locals, size_in, store, undefined_rule, visit_rule,
    zeros_rule, Builtin, ErrorView, LocalsView,
};

verus! {

/// Why the pass aborted.
#[derive(Debug, PartialEq, Eq)]
pub enum PassError {
    /// A builtin was called with the wrong number of arguments.
    ArityMismatch { builtin: Builtin, found: usize },
    /// A builtin argument that must name a variable does not.
    ExpectedIdentifier { builtin: Builtin },
    /// A builtin's result is stored somewhere other than a plain variable.
    DestinationNotIdentifier { builtin: Builtin },
    /// A width was to be written for a name that is not an integer local.
    UntrackedIdentifier(String),
    /// A concatenation operand whose width is not known statically.
    NotStatic { operand: String, size: Option<Size> },
    /// `Ones` whose length has no integer literal in the entry block.
    MissingLength(String),
    /// A length literal that is not a machine-word width.
    LengthOutOfRange(String),
    /// The width of a concatenation does not fit a machine word.
    WidthOverflow { left: usize, right: usize },
}

pub open spec fn size_option_view(o: Option<Size>) -> Option<SizeView> {
    match o {
        Some(s) => Some(s@),
        None => None,
    }
}

impl PassError {
    pub open spec fn view(&self) -> ErrorView {
        match self {
            PassError::ArityMismatch { builtin, found } => ErrorView::ArityMismatch {
                builtin: *builtin,
                found: *found as nat,
            },
            PassError::ExpectedIdentifier { builtin } => ErrorView::ExpectedIdentifier {
                builtin: *builtin,
            },
            PassError::DestinationNotIdentifier { builtin } => ErrorView::DestinationNotIdentifier {
                builtin: *builtin,
            },
            PassError::UntrackedIdentifier(n) => ErrorView::UntrackedIdentifier(n@),
            PassError::NotStatic { operand, size } => ErrorView::NotStatic {
                operand: operand@,
                size: size_option_view(*size),
            },
            PassError::MissingLength(n) => ErrorView::MissingLength(n@),
            PassError::LengthOutOfRange(n) => ErrorView::LengthOutOfRange(n@),
            PassError::WidthOverflow { left, right } => ErrorView::WidthOverflow {
                left: *left as nat,
                right: *right as nat,
            },
        }
    }
}

/// A rewrite rule's result against what a handler returned.
pub open spec fn rewrite_matches(
    rule: Result<(Seq<TypeView>, StatementView), ErrorView>,
    r: Result<Statement, PassError>,
    types_after: Seq<Type>,
) -> bool {
    match rule {
        Ok((t, s)) => r is Ok && r->Ok_0@ == s && types_view(types_after) == t,
        Err(e) => r is Err && r->Err_0@ == e,
    }
}

pub open spec fn statement_option_view(o: Option<Statement>) -> Option<StatementView> {
    match o {
        Some(s) => Some(s@),
        None => None,
    }
}

/// Resolves bitvector widths and rewrites bitvector builtins, one function
/// at a time.
#[derive(Debug)]
pub struct ResolveBitvectors {
    did_change: bool,
    /// Local variables and the type nodes holding their widths.
    locals: Locals,
}

fn identifier_of(v: &Value) -> (r: Option<&String>)
    ensures
        match r {
            Some(s) => ident_of(v@) == Some(s@),
            None => ident_of(v@) is None,
        },
{
    match v {
        Value::Identifier(n) => Some(n),
        _ => None,
    }
}

/// The builtin that a callee name denotes, if any.
pub fn builtin_of(name: &String) -> (r: Option<Builtin>)
    ensures
        r == builtin_named(name@),
{
    if *name == "Zeros".to_owned() {
        Some(Builtin::Zeros)
    } else if *name == "Ones".to_owned() {
        Some(Builtin::Ones)
    } else if *name == "bitvector_concat".to_owned() {
        Some(Builtin::Concat)
    } else if *name == "eq_vec".to_owned() {
        Some(Builtin::EqVec)
    } else if *name == "undefined_bitvector".to_owned() {
        Some(Builtin::Undefined)
    } else {
        None
    }
}

/// The integer literal last copied into `name` within the first `entry_len`
/// statements.
pub fn literal_assigned_in<'a>(statements: &'a Vec<Statement>, entry_len: usize, name: &String) -> (r:
    Option<&'a Integer>)
    requires
        entry_len <= statements@.len(),
    ensures
        match literal_assigned(statements_view(statements@).take(entry_len as int), name@) {
            Some(v) => r is Some && r->Some_0@ == v,
            None => r is None,
        },
{
    let ghost sv = statements_view(statements@);
    let mut i: usize = entry_len;
    while i > 0
        invariant
            i <= entry_len <= statements@.len(),
            sv == statements_view(statements@),
            literal_assigned(sv.take(i as int), name@) == literal_assigned(
                sv.take(entry_len as int),
                name@,
            ),
        decreases i,
    {
        proof {
            assert(sv.take(i as int).drop_last() == sv.take(i - 1));
            assert(sv.take(i as int).last() == statements@[i - 1]@);
        }
        match &statements[i - 1] {
            Statement::Copy { expression: Expression::Identifier(d), value } => {
                if *d == *name {
                    match value {
                        Value::Literal(Literal::Int(v)) => {
                            return Some(v);
                        },
                        _ => {
                            return None;
                        },
                    }
                }
            },
            _ => {},
        }
        i = i - 1;
    }
    None
}

impl ResolveBitvectors {
    pub closed spec fn locals_view(&self) -> LocalsView {
        self.locals@
    }

    /// Whether a statement of the function processed last was rewritten.
    pub closed spec fn changed(&self) -> bool {
        self.did_change
    }

    pub fn new_boxed() -> (r: Box<ResolveBitvectors>)
        ensures
            !r.changed(),
            r.locals_view() == Map::<Seq<char>, nat>::empty(),
    {
        Box::new(ResolveBitvectors { did_change: false, locals: Locals::new() })
    }

    pub fn name(&self) -> (r: &'static str)
        ensures
            r@ == "ReplaceBitvectors"@,
    {
        "ReplaceBitvectors"
    }

    /// Clears all per-function state.
    pub fn reset(&mut self)
        ensures
            !final(self).changed(),
            final(self).locals_view() == Map::<Seq<char>, nat>::empty(),
    {
        self.did_change = false;
        self.locals.clear();
    }

    /// The width state of a local; none when it is not a local or not an
    /// integer.
    fn get_size(&self, types: &Vec<Type>, name: &String) -> (r: Option<Size>)
        ensures
            size_option_view(r) == size_in(self.locals@, types_view(types@), name@),
    {
        match self.locals.get(name) {
            Some(id) => {
                if id < types.len() {
                    match &types[id] {
                        Type::Int { size, .. } => Some(size.clone()),
                        _ => None,
                    }
                } else {
                    None
                }
            },
            None => None,
        }
    }

    /// Writes a width through the local's type node, so every holder of the
    /// node sees it.
    fn set_size(&self, types: &mut Vec<Type>, name: &String, size: Size) -> (r: Result<(), PassError>)
        ensures
            match store(self.locals@, types_view(old(types)@), name@, size@) {
                Ok(t) => r is Ok && types_view(final(types)@) == t,
                Err(e) => r is Err && r->Err_0@ == e,
            },
    {
        match self.locals.get(name) {
            Some(id) => {
                if id < types.len() {
                    let signed = match &types[id] {
                        Type::Int { signed, .. } => Some(*signed),
                        _ => None,
                    };
                    match signed {
                        Some(signed) => {
                            let ghost before = types@;
                            types.set(id, Type::Int { signed, size });
                            proof {
                                assert(types_view(types@) =~= types_view(before).update(
                                    id as int,
                                    TypeView::Int { signed, size: size@ },
                                ));
                            }
                            Ok(())
                        },
                        None => Err(PassError::UntrackedIdentifier(name.clone())),
                    }
                } else {
                    Err(PassError::UntrackedIdentifier(name.clone()))
                }
            },
            None => Err(PassError::UntrackedIdentifier(name.clone())),
        }
    }

    /// Binds a declared local to its type node.
    fn add_type_declaration(&mut self, name: String, typ: usize)
        ensures
            final(self).locals@ == old(self).locals@.insert(name@, typ as nat),
            final(self).did_change == old(self).did_change,
    {
        self.locals.insert(name, typ);
    }
}

fn arity_error(builtin: Builtin, arguments: &Vec<Value>) -> (r: PassError)
    ensures
        r@ == (ErrorView::ArityMismatch { builtin, found: arguments@.len() }),
{
    PassError::ArityMismatch { builtin, found: arguments.len() }
}

/// `Zeros(length) -> destination`: the destination takes the length's literal
/// as its width when the entry block binds one; the call becomes a copy of 0
/// either way.
fn zeros_handler(
    pass: &ResolveBitvectors,
    types: &mut Vec<Type>,
    statements: &Vec<Statement>,
    entry_len: usize,
    expression: &Expression,
    arguments: &Vec<Value>,
) -> (r: Result<Statement, PassError>)
    requires
        entry_len <= statements@.len(),
    ensures
        rewrite_matches(
            zeros_rule(
                pass.locals@,
                types_view(old(types)@),
                statements_view(statements@).take(entry_len as int),
                expression@,
                values_view(arguments@),
            ),
            r,
            final(types)@,
        ),
{
    if arguments.len() != 1 {
        return Err(arity_error(Builtin::Zeros, arguments));
    }
    let ident = match identifier_of(&arguments[0]) {
        Some(n) => n,
        None => {
            return Err(PassError::ExpectedIdentifier { builtin: Builtin::Zeros });
        },
    };
    if let Some(length) = literal_assigned_in(statements, entry_len, ident) {
        if let Expression::Identifier(destination) = expression {
            match length.to_usize() {
                Some(width) => {
                    match pass.set_size(types, destination, Size::Static(width)) {
                        Ok(()) => {},
                        Err(e) => {
                            return Err(e);
                        },
                    }
                },
                None => {
                    return Err(PassError::LengthOutOfRange(ident.clone()));
                },
            }
        }
    }
    Ok(
        Statement::Copy {
            expression: expression.clone(),
            value: Value::Literal(Literal::Int(Integer::zero())),
        },
    )
}

/// `Ones(length) -> destination`: the length must be an integer literal bound
/// in the entry block (unlike `Zeros`, a missing length aborts); the
/// destination takes it as its width and the call becomes a copy of
/// `2^length - 1`.
fn ones_handler(
    pass: &ResolveBitvectors,
    types: &mut Vec<Type>,
    statements: &Vec<Statement>,
    entry_len: usize,
    expression: &Expression,
    arguments: &Vec<Value>,
) -> (r: Result<Statement, PassError>)
    requires
        entry_len <= statements@.len(),
    ensures
        rewrite_matches(
            ones_rule(
                pass.locals@,
                types_view(old(types)@),
                statements_view(statements@).take(entry_len as int),
                expression@,
                values_view(arguments@),
            ),
            r,
            final(types)@,
        ),
{
    if arguments.len() != 1 {
        return Err(arity_error(Builtin::Ones, arguments));
    }
    let ident = match identifier_of(&arguments[0]) {
        Some(n) => n,
        None => {
            return Err(PassError::ExpectedIdentifier { builtin: Builtin::Ones });
        },
    };
    let length = match literal_assigned_in(statements, entry_len, ident) {
        Some(length) => length,
        None => {
            return Err(PassError::MissingLength(ident.clone()));
        },
    };
    let destination = match expression {
        Expression::Identifier(d) => d,
        _ => {
            return Err(PassError::DestinationNotIdentifier { builtin: Builtin::Ones });
        },
    };
    let width = match length.to_usize() {
        Some(w) => w,
        None => {
            return Err(PassError::LengthOutOfRange(ident.clone()));
        },
    };
    match pass.set_size(types, destination, Size::Static(width)) {
        Ok(()) => {},
        Err(e) => {
            return Err(e);
        },
    }
    Ok(
        Statement::Copy {
            expression: expression.clone(),
            value: Value::Literal(Literal::Int(Integer::all_ones(width))),
        },
    )
}

/// `bitvector_concat(left, right) -> destination`: both operands need static
/// widths; the call becomes `(left << right_width) | right` and the
/// destination's width is the sum.
fn concat_handler(
    pass: &ResolveBitvectors,
    types: &mut Vec<Type>,
    expression: &Expression,
    arguments: &Vec<Value>,
) -> (r: Result<Statement, PassError>)
    ensures
        rewrite_matches(
            concat_rule(pass.locals@, types_view(old(types)@), expression@, values_view(arguments@)),
            r,
            final(types)@,
        ),
{
    if arguments.len() != 2 {
        return Err(arity_error(Builtin::Concat, arguments));
    }
    let (left_ident, right_ident) = match (identifier_of(&arguments[0]), identifier_of(&arguments[1])) {
        (Some(l), Some(r)) => (l, r),
        _ => {
            return Err(PassError::ExpectedIdentifier { builtin: Builtin::Concat });
        },
    };
    let left_length = match pass.get_size(types, left_ident) {
        Some(Size::Static(w)) => w,
        other => {
            return Err(PassError::NotStatic { operand: left_ident.clone(), size: other });
        },
    };
    let right_length = match pass.get_size(types, right_ident) {
        Some(Size::Static(w)) => w,
        other => {
            return Err(PassError::NotStatic { operand: right_ident.clone(), size: other });
        },
    };
    let dest = match expression {
        Expression::Identifier(d) => d,
        _ => {
            return Err(PassError::DestinationNotIdentifier { builtin: Builtin::Concat });
        },
    };
    let width = match left_length.checked_add(right_length) {
        Some(w) => w,
        None => {
            return Err(PassError::WidthOverflow { left: left_length, right: right_length });
        },
    };
    match pass.set_size(types, dest, Size::Static(width)) {
        Ok(()) => {},
        Err(e) => {
            return Err(e);
        },
    }
    let value = Value::Operation(
        Operation::Or(
            Box::new(
                Value::Operation(
                    Operation::LeftShift(
                        Box::new(Value::Identifier(left_ident.clone())),
                        Box::new(Value::Literal(Literal::Int(Integer::from_usize(right_length)))),
                    ),
                ),
            ),
            Box::new(Value::Identifier(right_ident.clone())),
        ),
    );
    proof {
        reveal_with_fuel(Value::view, 3);
        assert(values_view(arguments@)[0] == arguments@[0]@);
        assert(values_view(arguments@)[1] == arguments@[1]@);
    }
    Ok(Statement::Copy { expression: expression.clone(), value })
}

/// `eq_vec(left, right) -> destination`: becomes an integer equality,
/// whatever the operands' widths.
fn eq_handler(expression: &Expression, arguments: &Vec<Value>) -> (r: Result<Statement, PassError>)
    ensures
        match eq_rule(expression@, values_view(arguments@)) {
            Ok(s) => r is Ok && r->Ok_0@ == s,
            Err(e) => r is Err && r->Err_0@ == e,
        },
{
    if arguments.len() != 2 {
        return Err(arity_error(Builtin::EqVec, arguments));
    }
    let (left_ident, right_ident) = match (identifier_of(&arguments[0]), identifier_of(&arguments[1])) {
        (Some(l), Some(r)) => (l, r),
        _ => {
            return Err(PassError::ExpectedIdentifier { builtin: Builtin::EqVec });
        },
    };
    let value = Value::Operation(
        Operation::Equal(
            Box::new(Value::Identifier(left_ident.clone())),
            Box::new(Value::Identifier(right_ident.clone())),
        ),
    );
    proof {
        reveal_with_fuel(Value::view, 2);
        assert(values_view(arguments@)[0] == arguments@[0]@);
        assert(values_view(arguments@)[1] == arguments@[1]@);
    }
    match expression {
        Expression::Identifier(_) => Ok(Statement::Copy { expression: expression.clone(), value }),
        _ => Err(PassError::DestinationNotIdentifier { builtin: Builtin::EqVec }),
    }
}

/// `undefined_bitvector(size) -> destination`: a destination of unknown width
/// takes the run-time width of `size`; the call becomes a copy of 0.
fn undefined_handler(
    pass: &ResolveBitvectors,
    types: &mut Vec<Type>,
    expression: &Expression,
    arguments: &Vec<Value>,
) -> (r: Result<Statement, PassError>)
    ensures
        rewrite_matches(
            undefined_rule(pass.locals@, types_view(old(types)@), expression@, values_view(arguments@)),
            r,
            final(types)@,
        ),
{
    if arguments.len() != 1 {
        return Err(arity_error(Builtin::Undefined, arguments));
    }
    let dest = match expression {
        Expression::Identifier(d) => d,
        _ => {
            return Err(PassError::DestinationNotIdentifier { builtin: Builtin::Undefined });
        },
    };
    match pass.get_size(types, dest) {
        None => {
            return Err(PassError::UntrackedIdentifier(dest.clone()));
        },
        Some(Size::Unknown) => {
            let size_ident = match identifier_of(&arguments[0]) {
                Some(n) => n,
                None => {
                    return Err(PassError::ExpectedIdentifier { builtin: Builtin::Undefined });
                },
            };
            match pass.set_size(types, dest, Size::Runtime(size_ident.clone())) {
                Ok(()) => {},
                Err(e) => {
                    return Err(e);
                },
            }
        },
        Some(_) => {},
    }
    Ok(
        Statement::Copy {
            expression: expression.clone(),
            value: Value::Literal(Literal::Int(Integer::zero())),
        },
    )
}

impl ResolveBitvectors {
    /// A copy into a plain variable: a bit-sequence literal fixes the
    /// destination's width and becomes its integer value; a copy from another
    /// variable merges the source's width into the destination's.
    fn resolve_from_copy(&self, types: &mut Vec<Type>, expression: &Expression, value: &Value) -> (r:
        Result<Option<Statement>, PassError>)
        ensures
            match visit_rule(
                self.locals@,
                types_view(old(types)@),
                Seq::empty(),
                StatementView::Copy { expression: expression@, value: value@ },
            ) {
                Ok((l, t, s)) => r is Ok && types_view(final(types)@) == t
                    && statement_option_view(r->Ok_0) == s,
                Err(e) => r is Err && r->Err_0@ == e,
            },
    {
        let dest = match expression {
            Expression::Identifier(d) => d,
            _ => {
                return Ok(None);
            },
        };
        match value {
            Value::Identifier(source) => {
                let dest_size = self.get_size(types, dest);
                let source_size = self.get_size(types, source);
                let merged = match (dest_size, source_size) {
                    // a static destination is never downgraded
                    (Some(Size::Unknown), Some(source_size)) => Some(source_size),
                    (Some(Size::Runtime(_)), Some(Size::Static(w))) => Some(Size::Static(w)),
                    _ => None,
                };
                match merged {
                    Some(size) => match self.set_size(types, dest, size) {
                        Ok(()) => Ok(None),
                        Err(e) => Err(e),
                    },
                    None => Ok(None),
                }
            },
            Value::Literal(Literal::Bits(bits)) => {
                match self.set_size(types, dest, Size::Static(bits.len())) {
                    Ok(()) => {},
                    Err(e) => {
                        return Err(e);
                    },
                }
                Ok(
                    Some(
                        Statement::Copy {
                            expression: Expression::Identifier(dest.clone()),
                            value: Value::Literal(Literal::Int(Integer::from_bits(bits))),
                        },
                    ),
                )
            },
            _ => Ok(None),
        }
    }

    /// A call with a destination: a recognised builtin is rewritten by its
    /// handler, any other call is left alone.
    fn resolve_fn(
        &self,
        types: &mut Vec<Type>,
        statements: &Vec<Statement>,
        entry_len: usize,
        expression: &Expression,
        name: &String,
        arguments: &Vec<Value>,
    ) -> (r: Result<Option<Statement>, PassError>)
        requires
            entry_len <= statements@.len(),
        ensures
            match builtin_named(name@) {
                Some(b) => match builtin_rule(
                    b,
                    self.locals@,
                    types_view(old(types)@),
                    statements_view(statements@).take(entry_len as int),
                    expression@,
                    values_view(arguments@),
                ) {
                    Ok((t, s)) => r is Ok && r->Ok_0 is Some && r->Ok_0->Some_0@ == s
                        && types_view(final(types)@) == t,
                    Err(e) => r is Err && r->Err_0@ == e,
                },
                None => r is Ok && r->Ok_0 is None && *final(types) == *old(types),
            },
    {
        let outcome = match builtin_of(name) {
            Some(Builtin::Zeros) => zeros_handler(self, types, statements, entry_len, expression, arguments),
            Some(Builtin::Ones) => ones_handler(self, types, statements, entry_len, expression, arguments),
            Some(Builtin::Concat) => concat_handler(self, types, expression, arguments),
            Some(Builtin::EqVec) => eq_handler(expression, arguments),
            Some(Builtin::Undefined) => undefined_handler(self, types, expression, arguments),
            None => {
                return Ok(None);
            },
        };
        match outcome {
            Ok(s) => Ok(Some(s)),
            Err(e) => Err(e),
        }
    }

    /// Visits statement `i`, with the first `entry_len` statements as the
    /// entry block; returns the statement that replaces it, if any.
    fn visit_statement(
        &mut self,
        types: &mut Vec<Type>,
        statements: &Vec<Statement>,
        entry_len: usize,
        i: usize,
    ) -> (r: Result<Option<Statement>, PassError>)
        requires
            entry_len <= statements@.len(),
            i < statements@.len(),
        ensures
            match visit_rule(
                old(self).locals@,
                types_view(old(types)@),
                statements_view(statements@).take(entry_len as int),
                statements@[i as int]@,
            ) {
                Ok((l, t, s)) => r is Ok && final(self).locals@ == l && types_view(final(types)@) == t
                    && statement_option_view(r->Ok_0) == s,
                Err(e) => r is Err && r->Err_0@ == e,
            },
            final(self).did_change == old(self).did_change,
    {
        match &statements[i] {
            Statement::TypeDeclaration { name, typ } => {
                self.add_type_declaration(name.clone(), *typ);
                Ok(None)
            },
            Statement::Copy { expression, value } => self.resolve_from_copy(types, expression, value),
            Statement::FunctionCall { expression: Some(expression), name, arguments } => {
                self.resolve_fn(types, statements, entry_len, expression, name, arguments)
            },
            _ => Ok(None),
        }
    }

    /// Processes one function from fresh state: its integer parameters seed
    /// the locals, then every statement is visited in order. Returns whether
    /// any statement was rewritten.
    pub fn resolve_function(&mut self, types: &mut Vec<Type>, func: &mut FunctionDefinition) -> (r:
        Result<bool, PassError>)
        ensures
            match function_rule(types_view(old(types)@), old(func)@) {
                Ok((t, f, c)) => r == Ok::<bool, PassError>(c) && types_view(final(types)@) == t
                    && final(func)@ == f,
                Err(e) => r is Err && r->Err_0@ == e,
            },
    {
        self.reset();
        let ghost params = old(func)@.parameters;
        let ghost types0 = types_view(types@);
        let mut k: usize = 0;
        while k < func.parameters.len()
            invariant
                k <= func.parameters@.len(),
                params == func@.parameters,
                types0 == types_view(types@),
                types0 == types_view(old(types)@),
                self.locals@ == seed_locals(params.take(k as int), types0),
                !self.did_change,
            decreases func.parameters@.len() - k,
        {
            proof {
                assert(params.take(k + 1).drop_last() == params.take(k as int));
                assert(params.take(k + 1).last() == params[k as int]);
            }
            let p = &func.parameters[k];
            if p.typ < types.len() {
                if let Type::Int { .. } = &types[p.typ] {
                    self.locals.insert(p.name.clone(), p.typ);
                }
            }
            k = k + 1;
        }
        proof {
            assert(params.take(k as int) == params);
        }
        let n = func.statements.len();
        let entry_len = if func.entry_block_len < n {
            func.entry_block_len
        } else {
            n
        };
        let ghost f0 = func@;
        let mut i: usize = 0;
        while i < n
            invariant
                i <= n,
                n == func.statements@.len(),
                entry_len <= n,
                func@.name == f0.name,
                func@.parameters == f0.parameters,
                func@.entry_block_len == f0.entry_block_len,
                entry_block(func@.statements, f0.entry_block_len) == func@.statements.take(
                    entry_len as int,
                ),
                f0 == old(func)@,
                types0 == types_view(old(types)@),
                function_rule(types0, f0) == match resolve_from(
                    f0.entry_block_len,
                    self.locals@,
                    types_view(types@),
                    func@.statements,
                    i as int,
                    self.did_change,
                ) {
                    Ok((t, s, c)) => Ok((t, FunctionView { statements: s, ..f0 }, c)),
                    Err(e) => Err(e),
                },
            decreases n - i,
        {
            let ghost before = func.statements@;
            let ghost locals_before = self.locals@;
            let ghost types_before = types_view(types@);
            proof {
                assert(statements_view(before)[i as int] == before[i as int]@);
            }
            match self.visit_statement(types, &func.statements, entry_len, i) {
                Err(e) => {
                    proof {
                        assert(resolve_from(
                            f0.entry_block_len,
                            locals_before,
                            types_before,
                            statements_view(before),
                            i as int,
                            self.did_change,
                        ) == Err::<(Seq<TypeView>, Seq<StatementView>, bool), ErrorView>(e@));
                    }
                    return Err(e);
                },
                Ok(None) => {},
                Ok(Some(s)) => {
                    func.statements.set(i, s);
                    self.did_change = true;
                    proof {
                        assert(statements_view(func.statements@) =~= statements_view(before).update(
                            i as int,
                            s@,
                        ));
                    }
                },
            }
            proof {
                assert(entry_block(func@.statements, f0.entry_block_len) =~= func@.statements.take(
                    entry_len as int,
                ));
            }
            i = i + 1;
        }
        proof {
            assert(FunctionView { statements: func@.statements, ..f0 } == func@);
        }
        Ok(self.did_change)
    }

    /// Runs the pass over every function of the program, in order; true when
    /// any statement of any function was rewritten.
    pub fn run(&mut self, ast: &mut Ast) -> (r: Result<bool, PassError>)
        ensures
            match run_from(old(ast)@.0, old(ast)@.1, 0, false) {
                Ok((t, fs, c)) => r == Ok::<bool, PassError>(c) && final(ast)@ == (t, fs),
                Err(e) => r is Err && r->Err_0@ == e,
            },
    {
        let mut changed = false;
        let n = ast.functions.len();
        let mut k: usize = 0;
        while k < n
            invariant
                k <= n,
                n == ast.functions@.len(),
                run_from(old(ast)@.0, old(ast)@.1, 0, false) == run_from(ast@.0, ast@.1, k as int, changed),
            decreases n - k,
        {
            let ghost before = ast@;
            let mut func = ast.functions.remove(k);
            let outcome = self.resolve_function(&mut ast.types, &mut func);
            let ghost processed = func@;
            ast.functions.insert(k, func);
            proof {
                assert(ast@.1 =~= before.1.update(k as int, processed));
            }
            match outcome {
                Ok(c) => {
                    changed = changed || c;
                },
                Err(e) => {
                    return Err(e);
                },
            }
            k = k + 1;
        }
        Ok(changed)
    }
}

} // verus!
