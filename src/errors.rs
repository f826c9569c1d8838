use vstd::prelude::*;

verus! {

/// The fatal conditions of one compilation pass. The first one met aborts it.
#[derive(Clone, Copy, Debug, PartialEq, Eq, Structural)]
pub enum CompilerError {
    /// A name is neither bound in the activation nor a global struct or function.
    UnresolvedVariable,
    /// Operands of incompatible kinds, or a condition, index, spread or call
    /// target of the wrong kind.
    TypeMismatch,
    /// An operator or parameter kind that this engine does not implement.
    UnsupportedConstruct,
    /// An array index or range outside the array.
    OutOfBounds,
    /// A struct literal whose members differ from the declaration in number,
    /// name or order, or an access to a member that does not exist.
    StructShapeMismatch,
    /// A struct literal names a struct that was never declared.
    UndeclaredType,
    /// The constraint-system primitive refused an operation (overflow,
    /// underflow, division by zero).
    SynthesisFailure,
    /// Function calls nested deeper than the budget of the pass.
    CallDepthExceeded,
    /// No input value was supplied for a parameter.
    MissingInput,
    /// An input value could not be read as the parameter's declared type.
    InvalidInput,
    /// An untyped tree that has no typed counterpart: a literal that does not
    /// read as its type, a non-literal range bound, a call of something other
    /// than a name, or a struct literal without a matching declared type.
    MalformedTree,
}

} // verus!
