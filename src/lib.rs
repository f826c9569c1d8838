//! Constraint generation for a small circuit-description language.
//!
//! The engine walks a typed program tree, keeps a scoped environment of
//! resolved values, and records every gadget invocation and every input
//! allocation in a [`circuit::Circuit`]. Each executable step is proved equal
//! to the reference semantics in [`semantics`]; [`laws`] proves properties of
//! that semantics. The untyped tree of the parser is lowered into the typed
//! tree by [`lowering`], [`statement_lowering`] and [`declaration_lowering`].

pub mod types;
pub mod errors;
pub mod circuit;
pub mod value;
pub mod scope;
pub mod program;
pub mod literal;
pub mod integer;
pub mod field_element;
pub mod boolean;
pub mod semantics;
pub mod expression;
pub mod statement;
pub mod parameter;
pub mod laws;
pub mod ast;
pub mod lowering;
pub mod statement_lowering;
pub mod declaration_lowering;
