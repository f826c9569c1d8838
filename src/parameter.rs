//! Binding the parameters of the target function to input values, and the
//! entry point of a compilation pass.
use crate::circuit::{Allocation, Circuit, CircuitView, Visibility, Wire, Witness};
use crate::errors::CompilerError;
use crate::expression::view_results;
use crate::field_element::{modulus, FIELD_MODULUS};
use crate::literal::{decimal_value, is_decimal, parse_boolean, parse_decimal};
use crate::program::{function_index, ResolvedProgram};
use crate::scope::{Scope, ScopeView};
use crate::semantics::eval_statements;
use crate::types::{Parameter, Program, Type};
use crate::value::{view_names, view_values, ResolvedValue, Val};
use vstd::prelude::*;

verus! {

/// The witness that an input text gives a parameter of type `ty`.
pub open spec fn witness_of_input(ty: Type, text: Seq<char>) -> Result<Witness, CompilerError> {
    match ty {
        Type::U32 => if is_decimal(text) && decimal_value(text) <= u32::MAX {
            Ok(Witness::U32(decimal_value(text) as u32))
        } else {
            Err(CompilerError::InvalidInput)
        },
        Type::FieldElement => if is_decimal(text) && decimal_value(text) < modulus() {
            Ok(Witness::FieldElement(decimal_value(text) as u64))
        } else {
            Err(CompilerError::InvalidInput)
        },
        Type::Boolean => if text == seq!['t', 'r', 'u', 'e'] {
            Ok(Witness::Boolean(true))
        } else if text == seq!['f', 'a', 'l', 's', 'e'] {
            Ok(Witness::Boolean(false))
        } else {
            Err(CompilerError::InvalidInput)
        },
        _ => Err(CompilerError::UnsupportedConstruct),
    }
}

/// The value of an allocated input.
pub open spec fn witness_value(w: Witness, wire: Wire) -> Val {
    match w {
        Witness::Boolean(b) => Val::Boolean(b, wire),
        Witness::U32(n) => Val::U32(n, wire),
        Witness::FieldElement(f) => Val::FieldElement(f, wire),
    }
}

/// A `public` parameter is a public input; any other is a private witness.
pub open spec fn visibility_of(param: Parameter) -> Visibility {
    if param.private {
        Visibility::Private
    } else {
        Visibility::Public
    }
}

/// The witnesses of the parameters from the `k`-th on, after `acc`; the
/// first missing or unreadable input is the error.
pub open spec fn parse_inputs(params: Seq<Parameter>, inputs: Seq<Seq<char>>, k: int, acc: Seq<Witness>) -> Result<
    Seq<Witness>,
    CompilerError,
>
    decreases params.len() - k,
{
    if k < 0 || k >= params.len() {
        Ok(acc)
    } else if k >= inputs.len() {
        Err(CompilerError::MissingInput)
    } else {
        match witness_of_input(params[k].ty, inputs[k]) {
            Err(e) => Err(e),
            Ok(w) => parse_inputs(params, inputs, k + 1, acc.push(w)),
        }
    }
}

/// One allocation per parameter, in order.
pub open spec fn allocations_for(params: Seq<Parameter>, ws: Seq<Witness>) -> Seq<Allocation> {
    Seq::new(params.len(), |i: int| Allocation { visibility: visibility_of(params[i]), witness: ws[i] })
}

/// The scope of the target function: each parameter bound to its input,
/// which lives on the allocation `base + i`.
pub open spec fn parameter_scope(params: Seq<Parameter>, ws: Seq<Witness>, base: int) -> ScopeView {
    ScopeView {
        names: Seq::new(params.len(), |i: int| params[i].variable.name@),
        values: Seq::new(params.len(), |i: int| witness_value(ws[i], Wire::Input((base + i) as usize))),
        marks: Seq::empty(),
    }
}

/// A whole pass on the function `name`: every input is read before any is
/// allocated; then the body runs and its returned values are the result.
pub open spec fn eval_main(p: Program, c: CircuitView, fuel: nat, name: Seq<char>, inputs: Seq<Seq<char>>) -> (
    Result<Seq<Val>, CompilerError>,
    CircuitView,
) {
    let j = function_index(p, name);
    if j < 0 {
        (Err(CompilerError::UnresolvedVariable), c)
    } else {
        let f = p.functions@[j];
        match parse_inputs(f.parameters@, inputs, 0, Seq::empty()) {
            Err(e) => (Err(e), c),
            Ok(ws) => {
                let c1 = CircuitView {
                    allocations: c.allocations + allocations_for(f.parameters@, ws),
                    gates: c.gates,
                };
                let s = parameter_scope(f.parameters@, ws, c.allocations.len() as int);
                let (r, _, c2) = eval_statements(p, s, c1, fuel, f.statements, 0);
                match r {
                    Err(e) => (Err(e), c2),
                    Ok(Some(vals)) => (Ok(vals), c2),
                    Ok(None) => (Ok(Seq::empty()), c2),
                }
            },
        }
    }
}

pub proof fn lemma_parse_inputs_len(params: Seq<Parameter>, inputs: Seq<Seq<char>>, k: int, acc: Seq<Witness>)
    requires
        0 <= k <= params.len(),
        acc.len() == k,
    ensures
        parse_inputs(params, inputs, k, acc) matches Ok(ws) ==> ws.len() == params.len(),
    decreases params.len() - k,
{
    if k < params.len() && k < inputs.len() {
        if let Ok(w) = witness_of_input(params[k].ty, inputs[k]) {
            lemma_parse_inputs_len(params, inputs, k + 1, acc.push(w));
        }
    }
}

impl ResolvedProgram {
    /// Reads a field element input: decimal, below the modulus.
    pub fn parse_field_element(&self, text: &String) -> (r: Result<u64, CompilerError>)
        ensures
            r == (if is_decimal(text@) && decimal_value(text@) < modulus() {
                Ok::<u64, CompilerError>(decimal_value(text@) as u64)
            } else {
                Err(CompilerError::InvalidInput)
            }),
    {
        match parse_decimal(text.as_str(), FIELD_MODULUS - 1) {
            Some(f) => Ok(f),
            None => Err(CompilerError::InvalidInput),
        }
    }

    /// A parameter of a composite type is refused rather than bound.
    pub fn field_element_array_from_parameter(&self, parameter: &Parameter) -> (r: Result<Witness, CompilerError>)
        ensures
            r == Err::<Witness, CompilerError>(CompilerError::UnsupportedConstruct),
    {
        Err(CompilerError::UnsupportedConstruct)
    }

    /// The witness that an input text gives a parameter.
    pub fn input_witness(&self, parameter: &Parameter, text: &String) -> (r: Result<Witness, CompilerError>)
        ensures
            r == witness_of_input(parameter.ty, text@),
    {
        match &parameter.ty {
            Type::U32 => match parse_decimal(text.as_str(), u32::MAX as u64) {
                Some(n) => {
                    assert(n <= u32::MAX);
                    Ok(Witness::U32(n as u32))
                },
                None => Err(CompilerError::InvalidInput),
            },
            Type::FieldElement => match self.parse_field_element(text) {
                Ok(f) => Ok(Witness::FieldElement(f)),
                Err(e) => Err(e),
            },
            Type::Boolean => match parse_boolean(text.as_str()) {
                Some(b) => Ok(Witness::Boolean(b)),
                None => Err(CompilerError::InvalidInput),
            },
            _ => self.field_element_array_from_parameter(parameter),
        }
    }

    /// Allocates one parameter's input and binds the parameter to it.
    pub fn allocate_parameter(cs: &mut Circuit, scope: &mut Scope, parameter: &Parameter, w: Witness) -> (wire: Wire)
        requires
            old(scope).wf(),
        ensures
            wire == Wire::Input(old(cs)@.allocations.len() as usize),
            final(scope).wf(),
            final(cs)@ == old(cs)@.with_allocation(visibility_of(*parameter), w),
            final(scope).view() == old(scope).view().bind(
                parameter.variable.name@,
                witness_value(w, Wire::Input(old(cs)@.allocations.len() as usize)),
            ),
    {
        let visibility = if parameter.private { Visibility::Private } else { Visibility::Public };
        let wire = cs.allocate(visibility, w);
        let v = match w {
            Witness::Boolean(b) => ResolvedValue::Boolean(b, wire),
            Witness::U32(n) => ResolvedValue::U32(n, wire),
            Witness::FieldElement(f) => ResolvedValue::FieldElement(f, wire),
        };
        scope.bind(parameter.variable.name.clone(), v);
        wire
    }

    /// Binds one parameter to its input text: the text is read as the
    /// parameter's type, one allocation is made (a public input when the
    /// parameter is public, a private witness otherwise), and the parameter is
    /// bound to it. On failure nothing is allocated or bound.
    pub fn bind_parameter(&self, cs: &mut Circuit, scope: &mut Scope, parameter: &Parameter, text: &String) -> (r:
        Result<Wire, CompilerError>)
        requires
            old(scope).wf(),
        ensures
            final(scope).wf(),
            match witness_of_input(parameter.ty, text@) {
                Ok(w) => {
                    &&& r == Ok::<Wire, CompilerError>(Wire::Input(old(cs)@.allocations.len() as usize))
                    &&& final(cs)@ == old(cs)@.with_allocation(visibility_of(*parameter), w)
                    &&& final(scope).view() == old(scope).view().bind(
                        parameter.variable.name@,
                        witness_value(w, Wire::Input(old(cs)@.allocations.len() as usize)),
                    )
                },
                Err(e) => {
                    &&& r == Err::<Wire, CompilerError>(e)
                    &&& final(cs)@ == old(cs)@
                    &&& final(scope).view() == old(scope).view()
                },
            },
    {
        match self.input_witness(parameter, text) {
            Ok(w) => Ok(Self::allocate_parameter(cs, scope, parameter, w)),
            Err(e) => Err(e),
        }
    }

    /// Binds a field element parameter to its input text: decimal, below the
    /// modulus; one allocation by visibility, and one binding.
    pub fn field_element_from_parameter(
        &self,
        cs: &mut Circuit,
        scope: &mut Scope,
        parameter: &Parameter,
        text: &String,
    ) -> (r: Result<Wire, CompilerError>)
        requires
            old(scope).wf(),
            parameter.ty is FieldElement,
        ensures
            final(scope).wf(),
            is_decimal(text@) && decimal_value(text@) < modulus() ==> {
                let w = Witness::FieldElement(decimal_value(text@) as u64);
                let wire = Wire::Input(old(cs)@.allocations.len() as usize);
                &&& r == Ok::<Wire, CompilerError>(wire)
                &&& final(cs)@ == old(cs)@.with_allocation(visibility_of(*parameter), w)
                &&& final(scope).view() == old(scope).view().bind(parameter.variable.name@, witness_value(w, wire))
            },
            !(is_decimal(text@) && decimal_value(text@) < modulus()) ==> {
                &&& r == Err::<Wire, CompilerError>(CompilerError::InvalidInput)
                &&& final(cs)@ == old(cs)@
                &&& final(scope).view() == old(scope).view()
            },
    {
        self.bind_parameter(cs, scope, parameter, text)
    }

    /// Generates the constraints of the function `function_name` on the given
    /// inputs, one per parameter, and returns the values it returns.
    pub fn generate_constraints(&self, cs: &mut Circuit, function_name: &String, inputs: &Vec<String>, fuel: usize) -> (r:
        Result<Vec<ResolvedValue>, CompilerError>)
        ensures
            (view_results(r), final(cs)@) == eval_main(self.program, old(cs)@, fuel as nat, function_name@, view_names(inputs@)),
    {
        let j = match self.find_function(function_name) {
            Some(j) => j,
            None => {
                return Err(CompilerError::UnresolvedVariable);
            },
        };
        proof {
            crate::program::lemma_last_function(self.program.functions@, function_name@, self.program.functions@.len() as int);
        }
        let function = &self.program.functions[j];
        let params = &function.parameters;
        let ghost texts = view_names(inputs@);
        let mut ws: Vec<Witness> = Vec::new();
        let mut k: usize = 0;
        while k < params.len()
            invariant
                k <= params@.len(),
                ws@.len() == k,
                j < self.program.functions@.len(),
                function_index(self.program, function_name@) == j,
                *params == self.program.functions@[j as int].parameters,
                texts == view_names(inputs@),
                parse_inputs(params@, texts, 0, Seq::empty()) == parse_inputs(params@, texts, k as int, ws@),
            decreases params.len() - k,
        {
            if k >= inputs.len() {
                return Err(CompilerError::MissingInput);
            }
            match self.input_witness(&params[k], &inputs[k]) {
                Ok(w) => {
                    ws.push(w);
                },
                Err(e) => {
                    return Err(e);
                },
            }
            k = k + 1;
        }
        proof {
            lemma_parse_inputs_len(params@, texts, 0, Seq::empty());
        }
        let ghost c0 = cs@;
        let base = cs.num_allocations();
        let mut scope = Scope::new();
        let mut i: usize = 0;
        proof {
            let ps = params@.subrange(0, 0);
            let vs = ws@.subrange(0, 0);
            assert(scope.view().names =~= parameter_scope(ps, vs, base as int).names);
            assert(scope.view().values =~= parameter_scope(ps, vs, base as int).values);
            assert(scope.view().marks =~= parameter_scope(ps, vs, base as int).marks);
            assert(allocations_for(ps, vs) =~= Seq::<Allocation>::empty());
            assert(cs@.allocations =~= c0.allocations + allocations_for(ps, vs));
        }
        while i < params.len()
            invariant
                i <= params@.len(),
                ws@.len() == params@.len(),
                j < self.program.functions@.len(),
                function_index(self.program, function_name@) == j,
                *params == self.program.functions@[j as int].parameters,
                parse_inputs(params@, view_names(inputs@), 0, Seq::empty()) == Ok::<Seq<Witness>, CompilerError>(ws@),
                c0 == old(cs)@,
                base == c0.allocations.len(),
                scope.wf(),
                cs@.gates == c0.gates,
                cs@.allocations == c0.allocations + allocations_for(params@.subrange(0, i as int), ws@.subrange(0, i as int)),
                scope.view() == parameter_scope(params@.subrange(0, i as int), ws@.subrange(0, i as int), base as int),
            decreases params.len() - i,
        {
            let ghost s_before = scope.view();
            let ghost a_before = cs@.allocations;
            let _ = Self::allocate_parameter(cs, &mut scope, &params[i], ws[i]);
            proof {
                let ps = params@.subrange(0, i + 1);
                let vs = ws@.subrange(0, i + 1);
                assert(allocations_for(ps, vs) =~= allocations_for(params@.subrange(0, i as int), ws@.subrange(0, i as int)).push(
                    Allocation { visibility: visibility_of(params@[i as int]), witness: ws@[i as int] }));
                assert(cs@.allocations =~= c0.allocations + allocations_for(ps, vs));
                assert(scope.view().names =~= parameter_scope(ps, vs, base as int).names);
                assert(scope.view().values =~= parameter_scope(ps, vs, base as int).values);
            }
            i = i + 1;
        }
        proof {
            assert(params@.subrange(0, params@.len() as int) =~= params@);
            assert(ws@.subrange(0, ws@.len() as int) =~= ws@);
        }
        match self.enforce_statements(cs, &mut scope, fuel, &function.statements) {
            Ok(Some(vals)) => Ok(vals),
            Ok(None) => {
                let empty: Vec<ResolvedValue> = Vec::new();
                assert(view_values(empty@) =~= Seq::<Val>::empty());
                Ok(empty)
            },
            Err(e) => Err(e),
        }
    }
}

} // verus!
