//! The slice of the intermediate representation that width resolution reads
//! and writes, and its mathematical view.
use vstd::prelude::*;

verus! {

/// Index of a type node in the program's type arena.
pub type TypeId = usize;

/// Bit-width state of an integer/bitvector type.
#[derive(Debug, PartialEq, Eq)]
pub enum Size {
    /// Nothing is known yet.
    Unknown,
    /// Width known at compile time.
    Static(usize),
    /// Width supplied at run time by the named variable.
    Runtime(String),
}

#[derive(Debug, PartialEq, Eq)]
pub enum Type {
    Unit,
    Bool,
    /// Integer or bitvector; the only variant whose size this pass reads.
    Int { signed: bool, size: Size },
}

#[derive(Debug, Clone, Copy, PartialEq, Eq, Structural)]
pub enum Bit {
    Zero,
    One,
}

/// Arbitrary-precision integer: sign and magnitude, the magnitude as 64-bit
/// digits, least significant first.
#[derive(Debug, PartialEq, Eq)]
pub struct Integer {
    pub negative: bool,
    pub magnitude: Vec<u64>,
}

#[derive(Debug, PartialEq, Eq)]
pub enum Literal {
    Int(Integer),
    Bits(Vec<Bit>),
    Bool(bool),
    Unit,
}

#[derive(Debug, PartialEq, Eq)]
pub enum Operation {
    Equal(Box<Value>, Box<Value>),
    LeftShift(Box<Value>, Box<Value>),
    Or(Box<Value>, Box<Value>),
}

#[derive(Debug, PartialEq, Eq)]
pub enum Value {
    Identifier(String),
    Literal(Literal),
    Operation(Operation),
}

#[derive(Debug, PartialEq, Eq)]
pub enum Expression {
    Identifier(String),
    Field { expression: Box<Expression>, field: String },
}

#[allow(inconsistent_fields)]
#[derive(Debug, PartialEq, Eq)]
pub enum Statement {
    TypeDeclaration { name: String, typ: TypeId },
    Copy { expression: Expression, value: Value },
    FunctionCall { expression: Option<Expression>, name: String, arguments: Vec<Value> },
    Label(String),
    Goto(String),
    End,
}

#[derive(Debug, PartialEq, Eq)]
pub struct Parameter {
    pub name: String,
    pub typ: TypeId,
}

/// A function body laid out block after block; its entry block is the first
/// `entry_block_len` statements.
#[derive(Debug, PartialEq, Eq)]
pub struct FunctionDefinition {
    pub name: String,
    pub parameters: Vec<Parameter>,
    pub entry_block_len: usize,
    pub statements: Vec<Statement>,
}

/// A whole program: the type arena and the functions whose parameters and
/// declarations refer into it.
#[derive(Debug, PartialEq, Eq)]
pub struct Ast {
    pub types: Vec<Type>,
    pub functions: Vec<FunctionDefinition>,
}

// ---- mathematical view ----

pub enum SizeView {
    Unknown,
    Static(nat),
    Runtime(Seq<char>),
}

pub enum TypeView {
    Unit,
    Bool,
    Int { signed: bool, size: SizeView },
}

pub enum LiteralView {
    Int(int),
    Bits(Seq<Bit>),
    Bool(bool),
    Unit,
}

pub enum ValueView {
    Identifier(Seq<char>),
    Literal(LiteralView),
    Equal(Box<ValueView>, Box<ValueView>),
    LeftShift(Box<ValueView>, Box<ValueView>),
    Or(Box<ValueView>, Box<ValueView>),
}

pub enum ExpressionView {
    Identifier(Seq<char>),
    Field { expression: Box<ExpressionView>, field: Seq<char> },
}

#[allow(inconsistent_fields)]
pub enum StatementView {
    TypeDeclaration { name: Seq<char>, typ: nat },
    Copy { expression: ExpressionView, value: ValueView },
    FunctionCall { expression: Option<ExpressionView>, name: Seq<char>, arguments: Seq<ValueView> },
    Label(Seq<char>),
    Goto(Seq<char>),
    End,
}

pub struct FunctionView {
    pub name: Seq<char>,
    pub parameters: Seq<(Seq<char>, nat)>,
    pub entry_block_len: nat,
    pub statements: Seq<StatementView>,
}

/// Value of little-endian 64-bit digits.
pub open spec fn digits_value(d: Seq<u64>) -> nat
    decreases d.len(),
{
    if d.len() == 0 {
        0
    } else {
        d[0] as nat + 0x1_0000_0000_0000_0000 * digits_value(d.drop_first())
    }
}

/// Unsigned value of a big-endian bit sequence.
pub open spec fn bits_value(b: Seq<Bit>) -> nat
    decreases b.len(),
{
    if b.len() == 0 {
        0
    } else {
        2 * bits_value(b.drop_last()) + if b.last() == Bit::One { 1nat } else { 0nat }
    }
}

impl Size {
    pub open spec fn view(&self) -> SizeView {
        match self {
            Size::Unknown => SizeView::Unknown,
            Size::Static(w) => SizeView::Static(*w as nat),
            Size::Runtime(n) => SizeView::Runtime(n@),
        }
    }
}

impl Type {
    pub open spec fn view(&self) -> TypeView {
        match self {
            Type::Unit => TypeView::Unit,
            Type::Bool => TypeView::Bool,
            Type::Int { signed, size } => TypeView::Int { signed: *signed, size: size@ },
        }
    }
}

impl Integer {
    pub open spec fn view(&self) -> int {
        if self.negative {
            -digits_value(self.magnitude@)
        } else {
            digits_value(self.magnitude@) as int
        }
    }
}

impl Literal {
    pub open spec fn view(&self) -> LiteralView {
        match self {
            Literal::Int(i) => LiteralView::Int(i@),
            Literal::Bits(b) => LiteralView::Bits(b@),
            Literal::Bool(b) => LiteralView::Bool(*b),
            Literal::Unit => LiteralView::Unit,
        }
    }
}

impl Value {
    pub open spec fn view(&self) -> ValueView
        decreases self,
    {
        match self {
            Value::Identifier(n) => ValueView::Identifier(n@),
            Value::Literal(l) => ValueView::Literal(l@),
            Value::Operation(op) => match op {
                Operation::Equal(a, b) => ValueView::Equal(Box::new(a.view()), Box::new(b.view())),
                Operation::LeftShift(a, b) => ValueView::LeftShift(
                    Box::new(a.view()),
                    Box::new(b.view()),
                ),
                Operation::Or(a, b) => ValueView::Or(Box::new(a.view()), Box::new(b.view())),
            },
        }
    }
}

impl Expression {
    pub open spec fn view(&self) -> ExpressionView
        decreases self,
    {
        match self {
            Expression::Identifier(n) => ExpressionView::Identifier(n@),
            Expression::Field { expression, field } => ExpressionView::Field {
                expression: Box::new(expression.view()),
                field: field@,
            },
        }
    }
}

pub open spec fn values_view(v: Seq<Value>) -> Seq<ValueView> {
    v.map_values(|x: Value| x@)
}

pub open spec fn expression_option_view(e: Option<Expression>) -> Option<ExpressionView> {
    match e {
        Some(x) => Some(x@),
        None => None,
    }
}

impl Statement {
    pub open spec fn view(&self) -> StatementView {
        match self {
            Statement::TypeDeclaration { name, typ } => StatementView::TypeDeclaration {
                name: name@,
                typ: *typ as nat,
            },
            Statement::Copy { expression, value } => StatementView::Copy {
                expression: expression@,
                value: value@,
            },
            Statement::FunctionCall { expression, name, arguments } => StatementView::FunctionCall {
                expression: expression_option_view(*expression),
                name: name@,
                arguments: values_view(arguments@),
            },
            Statement::Label(l) => StatementView::Label(l@),
            Statement::Goto(l) => StatementView::Goto(l@),
            Statement::End => StatementView::End,
        }
    }
}

pub open spec fn types_view(t: Seq<Type>) -> Seq<TypeView> {
    t.map_values(|x: Type| x@)
}

pub open spec fn statements_view(s: Seq<Statement>) -> Seq<StatementView> {
    s.map_values(|x: Statement| x@)
}

impl FunctionDefinition {
    pub open spec fn view(&self) -> FunctionView {
        FunctionView {
            name: self.name@,
            parameters: self.parameters@.map_values(|p: Parameter| (p.name@, p.typ as nat)),
            entry_block_len: self.entry_block_len as nat,
            statements: statements_view(self.statements@),
        }
    }
}

impl Ast {
    pub open spec fn view(&self) -> (Seq<TypeView>, Seq<FunctionView>) {
        (types_view(self.types@), self.functions@.map_values(|f: FunctionDefinition| f@))
    }
}

impl Clone for Size {
    fn clone(&self) -> (r: Self)
        ensures
            r == *self,
    {
        match self {
            Size::Unknown => Size::Unknown,
            Size::Static(w) => Size::Static(*w),
            Size::Runtime(n) => Size::Runtime(n.clone()),
        }
    }
}

impl Clone for Expression {
    fn clone(&self) -> (r: Self)
        ensures
            r == *self,
        decreases self,
    {
        match self {
            Expression::Identifier(n) => Expression::Identifier(n.clone()),
            Expression::Field { expression, field } => Expression::Field {
                expression: Box::new((**expression).clone()),
                field: field.clone(),
            },
        }
    }
}

} // verus!
