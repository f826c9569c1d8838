//! Gadgets on field elements of the prime field of order `FIELD_MODULUS`.
use crate::circuit::{Circuit, CircuitView, GateOp, Wire, Witness};
use crate::errors::CompilerError;
use crate::program::ResolvedProgram;
use crate::value::{view_result, ResolvedValue, Val};
use vstd::arithmetic::div_mod::{lemma_mul_mod_noop_left, lemma_mul_mod_noop_right};
use vstd::arithmetic::power::{lemma_pow_adds, lemma_pow_mod_noop, lemma_pow_multiplies, pow};
use vstd::prelude::*;

verus! {

/// The order of the field: the prime 2^64 - 2^32 + 1.
pub const FIELD_MODULUS: u64 = 0xffff_ffff_0000_0001;

pub open spec fn modulus() -> int {
    FIELD_MODULUS as int
}

/// The inverse of a nonzero element, by Fermat's little theorem.
pub open spec fn field_inverse(b: u64) -> int {
    pow(b as int, (modulus() - 2) as nat) % modulus()
}

/// What the field primitive computes for `op`, or the failure it reports.
pub open spec fn field_result(op: GateOp, a: u64, b: u64) -> Result<u64, CompilerError> {
    match op {
        GateOp::Add => Ok(((a as int + b as int) % modulus()) as u64),
        GateOp::Sub => Ok(((a as int + modulus() - (b as int) % modulus()) % modulus()) as u64),
        GateOp::Mul => Ok(((a as int * b as int) % modulus()) as u64),
        GateOp::Div => if (b as int) % modulus() == 0 {
            Err(CompilerError::SynthesisFailure)
        } else {
            Ok(((a as int * field_inverse(b)) % modulus()) as u64)
        },
        _ => Err(CompilerError::UnsupportedConstruct),
    }
}

/// One field gadget invocation: a gate on success, nothing on failure.
pub open spec fn field_gadget(op: GateOp, a: u64, wa: Wire, b: u64, wb: Wire, c: CircuitView) -> (
    Result<Val, CompilerError>,
    CircuitView,
) {
    match field_result(op, a, b) {
        Ok(n) => (
            Ok(Val::FieldElement(n, c.next_gate())),
            c.with_gate(op, wa, wb, Witness::FieldElement(n)),
        ),
        Err(e) => (Err(e), c),
    }
}

/// One step of square-and-multiply keeps `r * x^k` fixed modulo `m`.
proof fn lemma_square_multiply_step(r: int, x: int, k: nat, m: int)
    requires
        m > 1,
        k > 0,
    ensures
        ((if k % 2 == 1 { (r * x) % m } else { r }) * pow((x * x) % m, k / 2)) % m == (r * pow(
            x,
            k,
        )) % m,
{
    let q = k / 2;
    let low = if k % 2 == 1 { x } else { 1 };
    assert(pow(x, (k % 2) as nat) == low) by {
        reveal(pow);
        if k % 2 == 1 {
            assert(pow(x, 1) == x * pow(x, 0));
        }
    }
    lemma_pow_adds(x, (k % 2) as nat, 2 * q);
    assert(k == (k % 2) + 2 * q);
    lemma_pow_multiplies(x, 2, q);
    assert(pow(x, 2) == x * x) by {
        reveal(pow);
        assert(pow(x, 2) == x * pow(x, 1));
        assert(pow(x, 1) == x * pow(x, 0));
    }
    lemma_pow_mod_noop(x * x, q, m);
    let p = pow(x * x, q);
    let pm = pow((x * x) % m, q);
    assert(pow(x, k) == low * p);
    let rr = if k % 2 == 1 { (r * x) % m } else { r };
    // rr * pm == r * low * p modulo m
    lemma_mul_mod_noop_right(rr, pm, m);
    lemma_mul_mod_noop_right(rr, p, m);
    assert((rr * pm) % m == (rr * p) % m);
    if k % 2 == 1 {
        lemma_mul_mod_noop_left(r * x, p, m);
        assert((r * x) * p == r * (x * p)) by (nonlinear_arith);
    } else {
        assert(low * p == p);
    }
}

/// `b` to the power `e`, modulo the field order.
pub fn pow_mod(b: u64, e: u64) -> (r: u64)
    ensures
        r == pow(b as int, e as nat) % modulus(),
        r < FIELD_MODULUS,
{
    let m: u128 = FIELD_MODULUS as u128;
    let mut result: u128 = 1;
    let mut base: u128 = (b as u128) % m;
    let mut k: u64 = e;
    proof {
        lemma_pow_mod_noop(b as int, e as nat, m as int);
        assert(1 * pow(base as int, e as nat) == pow(base as int, e as nat));
    }
    while k > 0
        invariant
            m == modulus(),
            result < m,
            base < m,
            (result * pow(base as int, k as nat)) % (m as int) == pow(b as int, e as nat) % (
            m as int),
        decreases k,
    {
        proof {
            lemma_square_multiply_step(result as int, base as int, k as nat, m as int);
        }
        if k % 2 == 1 {
            assert(result * base < m * m) by (nonlinear_arith)
                requires
                    result < m,
                    base < m,
            ;
            result = (result * base) % m;
        }
        assert(base * base < m * m) by (nonlinear_arith)
            requires
                base < m,
        ;
        base = (base * base) % m;
        k = k / 2;
    }
    proof {
        reveal(pow);
        assert(result * 1 == result);
    }
    result as u64
}

impl ResolvedProgram {
    fn enforce_field_op(cs: &mut Circuit, op: GateOp, fe1: u64, w1: Wire, fe2: u64, w2: Wire, value: u64) -> (r:
        ResolvedValue)
        requires
            field_result(op, fe1, fe2) == Ok::<u64, CompilerError>(value),
        ensures
            (Ok::<Val, CompilerError>(r.view()), final(cs)@) == field_gadget(op, fe1, w1, fe2, w2, old(cs)@),
    {
        let w = cs.emit(op, w1, w2, Witness::FieldElement(value));
        ResolvedValue::FieldElement(value, w)
    }

    pub fn enforce_field_add(&self, cs: &mut Circuit, fe1: u64, w1: Wire, fe2: u64, w2: Wire) -> (r:
        ResolvedValue)
        ensures
            (Ok::<Val, CompilerError>(r.view()), final(cs)@) == field_gadget(GateOp::Add, fe1, w1, fe2, w2, old(cs)@),
    {
        let m = FIELD_MODULUS as u128;
        let value = ((fe1 as u128 + fe2 as u128) % m) as u64;
        Self::enforce_field_op(cs, GateOp::Add, fe1, w1, fe2, w2, value)
    }

    pub fn enforce_field_sub(&self, cs: &mut Circuit, fe1: u64, w1: Wire, fe2: u64, w2: Wire) -> (r:
        ResolvedValue)
        ensures
            (Ok::<Val, CompilerError>(r.view()), final(cs)@) == field_gadget(GateOp::Sub, fe1, w1, fe2, w2, old(cs)@),
    {
        let m = FIELD_MODULUS as u128;
        let value = ((fe1 as u128 + m - (fe2 as u128) % m) % m) as u64;
        Self::enforce_field_op(cs, GateOp::Sub, fe1, w1, fe2, w2, value)
    }

    pub fn enforce_field_mul(&self, cs: &mut Circuit, fe1: u64, w1: Wire, fe2: u64, w2: Wire) -> (r:
        ResolvedValue)
        ensures
            (Ok::<Val, CompilerError>(r.view()), final(cs)@) == field_gadget(GateOp::Mul, fe1, w1, fe2, w2, old(cs)@),
    {
        let m = FIELD_MODULUS as u128;
        assert((fe1 as u128) * (fe2 as u128) <= u64::MAX as int * u64::MAX as int) by (nonlinear_arith);
        let value = (((fe1 as u128) * (fe2 as u128)) % m) as u64;
        Self::enforce_field_op(cs, GateOp::Mul, fe1, w1, fe2, w2, value)
    }

    /// Division fails on a zero divisor.
    pub fn enforce_field_div(&self, cs: &mut Circuit, fe1: u64, w1: Wire, fe2: u64, w2: Wire) -> (r:
        Result<ResolvedValue, CompilerError>)
        ensures
            (view_result(r), final(cs)@) == field_gadget(GateOp::Div, fe1, w1, fe2, w2, old(cs)@),
    {
        let m = FIELD_MODULUS as u128;
        if (fe2 as u128) % m == 0 {
            return Err(CompilerError::SynthesisFailure);
        }
        let inverse = pow_mod(fe2, FIELD_MODULUS - 2);
        assert((fe1 as u128) * (inverse as u128) <= u64::MAX as int * u64::MAX as int) by (nonlinear_arith);
        let value = (((fe1 as u128) * (inverse as u128)) % m) as u64;
        Ok(Self::enforce_field_op(cs, GateOp::Div, fe1, w1, fe2, w2, value))
    }

    /// Exponentiation of field elements is not implemented.
    pub fn enforce_field_pow(&self, cs: &mut Circuit, fe1: u64, w1: Wire, fe2: u64, w2: Wire) -> (r:
        Result<ResolvedValue, CompilerError>)
        ensures
            (view_result(r), final(cs)@) == field_gadget(GateOp::Pow, fe1, w1, fe2, w2, old(cs)@),
            r == Err::<ResolvedValue, CompilerError>(CompilerError::UnsupportedConstruct),
    {
        Err(CompilerError::UnsupportedConstruct)
    }
}

} // verus!
