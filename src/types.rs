//! The typed program tree that the engine consumes read-only.
use vstd::prelude::*;

verus! {

/// A name in the program text.
#[derive(Debug)]
pub struct Variable {
    pub name: String,
}

/// An integer literal of a bounded integer type.
#[derive(Clone, Copy, Debug, PartialEq, Eq, Structural)]
pub enum Integer {
    U32(u32),
}

#[derive(Debug)]
pub enum Expression {
    Variable(Variable),
    Integer(Integer),
    /// A field element literal, already reduced below the field modulus.
    FieldElement(u64),
    Boolean(bool),
    /// `left op right`; both operands are evaluated, left first.
    Binary(BinaryOperator, Box<Expression>, Box<Expression>),
    Not(Box<Expression>),
    IfElse(Box<Expression>, Box<Expression>, Box<Expression>),
    Array(Vec<SpreadOrExpression>),
    ArrayAccess(Box<Expression>, Box<RangeOrExpression>),
    Struct(Variable, Vec<StructMember>),
    StructMemberAccess(Box<Expression>, Variable),
    FunctionCall(Box<Expression>, Vec<Expression>),
}

/// The binary operators of the language.
#[derive(Clone, Copy, Debug, PartialEq, Eq, Structural)]
pub enum BinaryOperator {
    Add,
    Sub,
    Mul,
    Div,
    Pow,
    Eq,
    Geq,
    Gt,
    Leq,
    Lt,
    And,
    Or,
}

/// An index into an array, or a range `from..to` with optional bounds.
#[derive(Debug)]
pub enum RangeOrExpression {
    Range(Option<Integer>, Option<Integer>),
    Expression(Expression),
}

/// An element of an array literal: a single expression, or `...a` copying
/// the elements of an array in place.
#[derive(Debug)]
pub enum SpreadOrExpression {
    Spread(Expression),
    Expression(Expression),
}

/// One `name: expression` binding of a struct literal.
#[derive(Debug)]
pub struct StructMember {
    pub variable: Variable,
    pub expression: Expression,
}

#[derive(Debug)]
pub enum Type {
    U32,
    FieldElement,
    Boolean,
    Array(Box<Type>, usize),
    Struct(Variable),
}

#[derive(Debug)]
pub struct StructField {
    pub variable: Variable,
    pub ty: Type,
}

/// A struct declaration: its name and its ordered fields.
#[derive(Debug)]
pub struct Struct {
    pub variable: Variable,
    pub fields: Vec<StructField>,
}

/// The target of a definition: a variable, or a part of one reached through
/// array indices, ranges and struct members.
#[derive(Debug)]
pub enum Assignee {
    Variable(Variable),
    Array(Box<Assignee>, RangeOrExpression),
    StructMember(Box<Assignee>, Variable),
}

#[derive(Debug)]
pub struct Block {
    pub statements: Vec<Statement>,
}

/// What follows a conditional's block: `else if ...` or `else { ... }`.
#[derive(Debug)]
pub enum ConditionalNestedOrEndStatement {
    Nested(Box<ConditionalStatement>),
    End(Block),
}

/// `if (condition) block` with an optional `else` continuation.
#[derive(Debug)]
pub struct ConditionalStatement {
    pub condition: Expression,
    pub block: Block,
    pub next: Option<ConditionalNestedOrEndStatement>,
}

#[derive(Debug)]
pub enum Statement {
    Definition(Assignee, Expression),
    Return(Vec<Expression>),
    Conditional(ConditionalStatement),
    /// `for index in from..to { body }`, `to` excluded.
    For(Variable, Integer, Integer, Vec<Statement>),
}

/// A formal parameter; `private` is false only for a `public` one.
#[derive(Debug)]
pub struct Parameter {
    pub private: bool,
    pub ty: Type,
    pub variable: Variable,
}

#[derive(Debug)]
pub struct FunctionName(pub String);

#[derive(Debug)]
pub struct Function {
    pub function_name: FunctionName,
    pub parameters: Vec<Parameter>,
    pub returns: Vec<Type>,
    pub statements: Vec<Statement>,
}

/// An import as written, `import source.symbol as alias` (no symbol for a
/// whole-package import); resolving it is the loader's work, not the engine's.
#[derive(Debug)]
pub struct Import {
    pub symbol: Option<String>,
    pub source: String,
    pub alias: Option<String>,
}

/// A whole program: its imports, and its struct and function declarations,
/// in source order.
/// They act as tables keyed by name: a later declaration of a name hides an
/// earlier one (see `program::struct_index` and `program::function_index`).
#[derive(Debug)]
pub struct Program {
    pub name: Variable,
    pub imports: Vec<Import>,
    pub structs: Vec<Struct>,
    pub functions: Vec<Function>,
}

impl Integer {
    pub open spec fn spec_value(self) -> u32 {
        match self {
            Integer::U32(n) => n,
        }
    }

    /// The integer as an array offset.
    pub fn to_usize(&self) -> (r: usize)
        ensures
            r == self.spec_value(),
    {
        match self {
            Integer::U32(n) => *n as usize,
        }
    }
}

} // verus!
