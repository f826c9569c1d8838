//! The untyped tree that the parser produces: names and literals are text.
use vstd::prelude::*;

verus! {

#[derive(Debug)]
pub struct Variable {
    pub value: String,
}

/// A literal, as written.
#[derive(Debug)]
pub enum Value {
    U32(String),
    Field(String),
    Boolean(String),
}

#[derive(Clone, Copy, Debug, PartialEq, Eq, Structural)]
pub enum BinaryOperator {
    Or,
    And,
    Eq,
    Neq,
    Geq,
    Gt,
    Leq,
    Lt,
    Add,
    Sub,
    Mul,
    Div,
    Pow,
}

#[derive(Debug)]
pub enum SpreadOrExpression {
    Spread(Expression),
    Expression(Expression),
}

/// An index, or a range whose bounds must be integer literals.
#[derive(Debug)]
pub enum RangeOrExpression {
    Range(Option<Expression>, Option<Expression>),
    Expression(Expression),
}

/// One access after a name: a call, a member, or an index or range.
#[derive(Debug)]
pub enum Access {
    Call(Vec<Expression>),
    Member(Variable),
    Array(RangeOrExpression),
}

#[derive(Debug)]
pub struct InlineStructMember {
    pub variable: Variable,
    pub expression: Expression,
}

#[derive(Debug)]
pub enum Expression {
    Value(Value),
    Variable(Variable),
    Not(Box<Expression>),
    Binary(BinaryOperator, Box<Expression>, Box<Expression>),
    Ternary(Box<Expression>, Box<Expression>, Box<Expression>),
    ArrayInline(Vec<SpreadOrExpression>),
    /// `[element; count]`.
    ArrayInitializer(Box<SpreadOrExpression>, Value),
    StructInline(Variable, Vec<InlineStructMember>),
    /// A name followed by accesses, applied from left to right.
    Postfix(Variable, Vec<Access>),
}

#[derive(Debug)]
pub struct StructType {
    pub variable: Variable,
}

#[derive(Debug)]
pub enum BasicType {
    U32,
    Field,
    Boolean,
}

/// The declared type of a definition.
#[derive(Debug)]
pub enum Type {
    Basic(BasicType),
    Array(Box<Type>, Value),
    Struct(StructType),
}

#[derive(Clone, Copy, Debug, PartialEq, Eq, Structural)]
pub enum Visibility {
    Public,
    Private,
}

/// A formal parameter; the visibility may be left out.
#[derive(Debug)]
pub struct Parameter {
    pub variable: Variable,
    pub ty: Type,
    pub visibility: Option<Visibility>,
}

/// A step of an assignment target after its variable.
#[derive(Debug)]
pub enum AssigneeAccess {
    Array(RangeOrExpression),
    Member(Variable),
}

#[derive(Debug)]
pub struct Assignee {
    pub variable: Variable,
    pub accesses: Vec<AssigneeAccess>,
}

#[derive(Debug)]
pub struct Block {
    pub statements: Vec<Statement>,
}

#[derive(Debug)]
pub enum ConditionalNestedOrEndStatement {
    Nested(Box<ConditionalStatement>),
    End(Block),
}

#[derive(Debug)]
pub struct ConditionalStatement {
    pub condition: Expression,
    pub block: Block,
    pub next: Option<ConditionalNestedOrEndStatement>,
}

#[derive(Debug)]
pub enum Statement {
    /// `target = expression`.
    Assign(Assignee, Expression),
    /// `let variable: type = expression`.
    Definition(Variable, Type, Expression),
    Return(Vec<Expression>),
    /// `for index in start..stop { statements }`.
    Iteration(Variable, Expression, Expression, Vec<Statement>),
    Conditional(ConditionalStatement),
}

#[derive(Debug)]
pub struct StructField {
    pub variable: Variable,
    pub ty: Type,
}

#[derive(Debug)]
pub struct Struct {
    pub variable: Variable,
    pub fields: Vec<StructField>,
}

#[derive(Debug)]
pub struct Function {
    pub function_name: Variable,
    pub parameters: Vec<Parameter>,
    pub returns: Vec<Type>,
    pub statements: Vec<Statement>,
}

/// An import as written; `symbol` is absent for a whole-package import.
#[derive(Debug)]
pub struct Import {
    pub symbol: Option<String>,
    pub source: String,
    pub alias: Option<String>,
}

/// A whole source file: its imports and its struct and function
/// declarations, in order.
#[derive(Debug)]
pub struct File {
    pub imports: Vec<Import>,
    pub structs: Vec<Struct>,
    pub functions: Vec<Function>,
}

} // verus!
