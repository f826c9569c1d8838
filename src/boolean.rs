//! Gadgets on booleans, and equality of scalars.
use crate::circuit::{Circuit, CircuitView, GateOp, Wire, Witness};
use crate::errors::CompilerError;
use crate::field_element::modulus;
use crate::program::ResolvedProgram;
use crate::value::{view_result, ResolvedValue, Val};
use vstd::prelude::*;

verus! {

/// Negation: a constant operand folds to a constant; otherwise one `Not` gate.
pub open spec fn not_gadget(v: Val, c: CircuitView) -> (Result<Val, CompilerError>, CircuitView) {
    match v {
        Val::Boolean(b, Wire::Constant) => (Ok(Val::Boolean(!b, Wire::Constant)), c),
        Val::Boolean(b, w) => (
            Ok(Val::Boolean(!b, c.next_gate())),
            c.with_gate(GateOp::Not, w, Wire::Constant, Witness::Boolean(!b)),
        ),
        _ => (Err(CompilerError::TypeMismatch), c),
    }
}

/// Conjunction or disjunction of two booleans: two constants fold to a
/// constant; otherwise one gate.
pub open spec fn logic_gadget(op: GateOp, l: Val, r: Val, c: CircuitView) -> (
    Result<Val, CompilerError>,
    CircuitView,
) {
    match (l, r) {
        (Val::Boolean(a, wa), Val::Boolean(b, wb)) => {
            let out = if op == GateOp::And { a && b } else { a || b };
            if wa == Wire::Constant && wb == Wire::Constant {
                (Ok(Val::Boolean(out, Wire::Constant)), c)
            } else {
                (Ok(Val::Boolean(out, c.next_gate())), c.with_gate(op, wa, wb, Witness::Boolean(out)))
            }
        },
        _ => (Err(CompilerError::TypeMismatch), c),
    }
}

/// Whether two scalars of one kind are equal; `None` for any other pair.
pub open spec fn scalar_equality(l: Val, r: Val) -> Option<(bool, Wire, Wire)> {
    match (l, r) {
        (Val::Boolean(a, wa), Val::Boolean(b, wb)) => Some((a == b, wa, wb)),
        (Val::U32(a, wa), Val::U32(b, wb)) => Some((a == b, wa, wb)),
        (Val::FieldElement(a, wa), Val::FieldElement(b, wb)) => Some(
            ((a as int) % modulus() == (b as int) % modulus(), wa, wb),
        ),
        _ => None,
    }
}

/// Equality of two scalars of the same kind: two constants fold to a
/// constant; otherwise one `Eq` gate.
pub open spec fn eq_gadget(l: Val, r: Val, c: CircuitView) -> (Result<Val, CompilerError>, CircuitView) {
    match scalar_equality(l, r) {
        Some((out, wa, wb)) => if wa == Wire::Constant && wb == Wire::Constant {
            (Ok(Val::Boolean(out, Wire::Constant)), c)
        } else {
            (Ok(Val::Boolean(out, c.next_gate())), c.with_gate(GateOp::Eq, wa, wb, Witness::Boolean(out)))
        },
        None => (Err(CompilerError::TypeMismatch), c),
    }
}

impl ResolvedProgram {
    pub fn enforce_not(&self, cs: &mut Circuit, value: ResolvedValue) -> (r: Result<ResolvedValue, CompilerError>)
        ensures
            (view_result(r), final(cs)@) == not_gadget(value.view(), old(cs)@),
    {
        match value {
            ResolvedValue::Boolean(b, Wire::Constant) => Ok(ResolvedValue::Boolean(!b, Wire::Constant)),
            ResolvedValue::Boolean(b, w) => {
                let out = cs.emit(GateOp::Not, w, Wire::Constant, Witness::Boolean(!b));
                Ok(ResolvedValue::Boolean(!b, out))
            },
            _ => Err(CompilerError::TypeMismatch),
        }
    }

    fn enforce_logic(cs: &mut Circuit, op: GateOp, left: ResolvedValue, right: ResolvedValue) -> (r: Result<ResolvedValue, CompilerError>)
        ensures
            (view_result(r), final(cs)@) == logic_gadget(op, left.view(), right.view(), old(cs)@),
    {
        match (left, right) {
            (ResolvedValue::Boolean(a, wa), ResolvedValue::Boolean(b, wb)) => {
                let out = if op == GateOp::And { a && b } else { a || b };
                if wa == Wire::Constant && wb == Wire::Constant {
                    return Ok(ResolvedValue::Boolean(out, Wire::Constant));
                }
                let w = cs.emit(op, wa, wb, Witness::Boolean(out));
                Ok(ResolvedValue::Boolean(out, w))
            },
            _ => Err(CompilerError::TypeMismatch),
        }
    }

    pub fn enforce_and(&self, cs: &mut Circuit, left: ResolvedValue, right: ResolvedValue) -> (r: Result<ResolvedValue, CompilerError>)
        ensures
            (view_result(r), final(cs)@) == logic_gadget(GateOp::And, left.view(), right.view(), old(cs)@),
    {
        Self::enforce_logic(cs, GateOp::And, left, right)
    }

    pub fn enforce_or(&self, cs: &mut Circuit, left: ResolvedValue, right: ResolvedValue) -> (r: Result<ResolvedValue, CompilerError>)
        ensures
            (view_result(r), final(cs)@) == logic_gadget(GateOp::Or, left.view(), right.view(), old(cs)@),
    {
        Self::enforce_logic(cs, GateOp::Or, left, right)
    }
}

} // verus!
