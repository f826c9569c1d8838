//! Gadgets on bounded 32-bit unsigned integers.
use crate::circuit::{Circuit, CircuitView, GateOp, Wire, Witness};
use crate::errors::CompilerError;
use crate::program::ResolvedProgram;
use crate::value::{view_result, ResolvedValue, Val};
use vstd::arithmetic::power::{lemma_pow_increases, pow};
use vstd::prelude::*;

verus! {

/// What the integer primitive computes for `op`, or `None` where it refuses:
/// on overflow, underflow and division by zero.
pub open spec fn u32_result(op: GateOp, a: u32, b: u32) -> Option<u32> {
    match op {
        GateOp::Add => if a + b <= u32::MAX { Some((a + b) as u32) } else { None },
        GateOp::Sub => if a >= b { Some((a - b) as u32) } else { None },
        GateOp::Mul => if a * b <= u32::MAX { Some((a * b) as u32) } else { None },
        GateOp::Div => if b != 0 { Some((a / b) as u32) } else { None },
        GateOp::Pow => if pow(a as int, b as nat) <= u32::MAX {
            Some(pow(a as int, b as nat) as u32)
        } else {
            None
        },
        _ => None,
    }
}

/// One integer gadget invocation: a gate on success, nothing on failure.
pub open spec fn u32_gadget(op: GateOp, a: u32, wa: Wire, b: u32, wb: Wire, c: CircuitView) -> (
    Result<Val, CompilerError>,
    CircuitView,
) {
    match u32_result(op, a, b) {
        Some(n) => (Ok(Val::U32(n, c.next_gate())), c.with_gate(op, wa, wb, Witness::U32(n))),
        None => (Err(CompilerError::SynthesisFailure), c),
    }
}

/// `a` to the power `b`, or `None` when it exceeds `u32::MAX`.
pub fn checked_pow_u32(a: u32, b: u32) -> (r: Option<u32>)
    ensures
        r == (if pow(a as int, b as nat) <= u32::MAX {
            Some(pow(a as int, b as nat) as u32)
        } else {
            None::<u32>
        }),
{
    let mut acc: u32 = 1;
    let mut i: u32 = 0;
    proof {
        reveal(pow);
    }
    while i < b
        invariant
            i <= b,
            acc == pow(a as int, i as nat),
        decreases b - i,
    {
        proof {
            reveal(pow);
        }
        if a == 0 || a == 1 {
            // the power stays at its value from here on
            proof {
                lemma_small_base_pow(a as int, b as nat);
            }
            return if a == 0 { Some(0) } else { Some(1) };
        }
        match acc.checked_mul(a) {
            Some(next) => {
                acc = next;
            },
            None => {
                proof {
                    assert(pow(a as int, (i + 1) as nat) == a * pow(a as int, i as nat));
                    lemma_pow_increases(a as nat, (i + 1) as nat, b as nat);
                }
                return None;
            },
        }
        i = i + 1;
    }
    Some(acc)
}

/// For a base of 0 or 1, every positive power equals the base.
proof fn lemma_small_base_pow(a: int, b: nat)
    requires
        a == 0 || a == 1,
        b >= 1,
    ensures
        pow(a, b) == a,
    decreases b,
{
    reveal(pow);
    if b > 1 {
        lemma_small_base_pow(a, (b - 1) as nat);
    } else {
        assert(pow(a, 0) == 1);
    }
}

impl ResolvedProgram {
    /// Invokes the integer gadget for an arithmetic `op` on two integers.
    pub fn enforce_u32_op(cs: &mut Circuit, op: GateOp, a: u32, wa: Wire, b: u32, wb: Wire) -> (r:
        Result<ResolvedValue, CompilerError>)
        ensures
            (view_result(r), final(cs)@) == u32_gadget(op, a, wa, b, wb, old(cs)@),
    {
        let n = match op {
            GateOp::Add => a.checked_add(b),
            GateOp::Sub => a.checked_sub(b),
            GateOp::Mul => a.checked_mul(b),
            GateOp::Div => if b != 0 { Some(a / b) } else { None },
            GateOp::Pow => checked_pow_u32(a, b),
            _ => None,
        };
        match n {
            Some(n) => {
                let w = cs.emit(op, wa, wb, Witness::U32(n));
                Ok(ResolvedValue::U32(n, w))
            },
            None => Err(CompilerError::SynthesisFailure),
        }
    }
}

} // verus!
