//! Constraint generation for expressions.
use crate::circuit::{Circuit, GateOp, Wire, Witness};
use crate::errors::CompilerError;
use crate::field_element::FIELD_MODULUS;
use crate::program::ResolvedProgram;
use crate::scope::Scope;
use crate::semantics::{
    apply_binary, arithmetic, eval_arguments, eval_array, eval_array_access, eval_expression,
    eval_function_access, eval_index, eval_members, eval_struct, is_comparison,
    lookup_variable, slice, struct_access,
};
use crate::boolean::eq_gadget;
use crate::types::{BinaryOperator, Expression, Integer, RangeOrExpression, SpreadOrExpression, StructMember, Variable};
use crate::value::{
    extend_copies, find_name, lemma_view_values, lemma_view_values_concat, lemma_view_values_push, view_names,
    view_result, view_values, ResolvedValue, Val,
};
use vstd::prelude::*;

verus! {

/// The model of the values of a sequence of expressions.
pub open spec fn view_results(r: Result<Vec<ResolvedValue>, CompilerError>) -> Result<Seq<Val>, CompilerError> {
    match r {
        Ok(v) => Ok(view_values(v@)),
        Err(e) => Err(e),
    }
}

impl ResolvedProgram {
    /// A variable resolves in the scope, then in the global table; it never allocates.
    pub fn enforce_variable(&self, scope: &Scope, variable: &Variable) -> (r: Result<ResolvedValue, CompilerError>)
        requires
            scope.wf(),
        ensures
            view_result(r) == lookup_variable(self.program, scope.view(), variable.name@),
    {
        match scope.get(&variable.name) {
            Some(v) => Ok(v),
            None => match self.get_global(&variable.name) {
                Some(v) => Ok(v),
                None => Err(CompilerError::UnresolvedVariable),
            },
        }
    }

    fn enforce_arithmetic(&self, cs: &mut Circuit, op: GateOp, left: ResolvedValue, right: ResolvedValue) -> (r:
        Result<ResolvedValue, CompilerError>)
        ensures
            (view_result(r), final(cs)@) == arithmetic(op, left.view(), right.view(), old(cs)@),
    {
        match (left, right) {
            (ResolvedValue::U32(a, wa), ResolvedValue::U32(b, wb)) => Self::enforce_u32_op(cs, op, a, wa, b, wb),
            (ResolvedValue::FieldElement(a, wa), ResolvedValue::FieldElement(b, wb)) => match op {
                GateOp::Add => Ok(self.enforce_field_add(cs, a, wa, b, wb)),
                GateOp::Sub => Ok(self.enforce_field_sub(cs, a, wa, b, wb)),
                GateOp::Mul => Ok(self.enforce_field_mul(cs, a, wa, b, wb)),
                GateOp::Div => self.enforce_field_div(cs, a, wa, b, wb),
                GateOp::Pow => self.enforce_field_pow(cs, a, wa, b, wb),
                _ => Err(CompilerError::UnsupportedConstruct),
            },
            _ => Err(CompilerError::TypeMismatch),
        }
    }

    /// `left + right` on two integers or two field elements.
    pub fn enforce_add_expression(&self, cs: &mut Circuit, left: ResolvedValue, right: ResolvedValue) -> (r:
        Result<ResolvedValue, CompilerError>)
        ensures
            (view_result(r), final(cs)@) == arithmetic(GateOp::Add, left.view(), right.view(), old(cs)@),
    {
        self.enforce_arithmetic(cs, GateOp::Add, left, right)
    }

    /// `left - right` on two integers or two field elements.
    pub fn enforce_sub_expression(&self, cs: &mut Circuit, left: ResolvedValue, right: ResolvedValue) -> (r:
        Result<ResolvedValue, CompilerError>)
        ensures
            (view_result(r), final(cs)@) == arithmetic(GateOp::Sub, left.view(), right.view(), old(cs)@),
    {
        self.enforce_arithmetic(cs, GateOp::Sub, left, right)
    }

    /// `left * right` on two integers or two field elements.
    pub fn enforce_mul_expression(&self, cs: &mut Circuit, left: ResolvedValue, right: ResolvedValue) -> (r:
        Result<ResolvedValue, CompilerError>)
        ensures
            (view_result(r), final(cs)@) == arithmetic(GateOp::Mul, left.view(), right.view(), old(cs)@),
    {
        self.enforce_arithmetic(cs, GateOp::Mul, left, right)
    }

    /// `left / right` on two integers or two field elements.
    pub fn enforce_div_expression(&self, cs: &mut Circuit, left: ResolvedValue, right: ResolvedValue) -> (r:
        Result<ResolvedValue, CompilerError>)
        ensures
            (view_result(r), final(cs)@) == arithmetic(GateOp::Div, left.view(), right.view(), old(cs)@),
    {
        self.enforce_arithmetic(cs, GateOp::Div, left, right)
    }

    /// `left ** right` on two integers; not implemented on field elements.
    pub fn enforce_pow_expression(&self, cs: &mut Circuit, left: ResolvedValue, right: ResolvedValue) -> (r:
        Result<ResolvedValue, CompilerError>)
        ensures
            (view_result(r), final(cs)@) == arithmetic(GateOp::Pow, left.view(), right.view(), old(cs)@),
    {
        self.enforce_arithmetic(cs, GateOp::Pow, left, right)
    }

    /// `left == right` on two scalars of the same kind.
    pub fn enforce_eq_expression(&self, cs: &mut Circuit, left: ResolvedValue, right: ResolvedValue) -> (r:
        Result<ResolvedValue, CompilerError>)
        ensures
            (view_result(r), final(cs)@) == eq_gadget(left.view(), right.view(), old(cs)@),
    {
        let (out, wa, wb) = match (left, right) {
            (ResolvedValue::Boolean(a, wa), ResolvedValue::Boolean(b, wb)) => (a == b, wa, wb),
            (ResolvedValue::U32(a, wa), ResolvedValue::U32(b, wb)) => (a == b, wa, wb),
            (ResolvedValue::FieldElement(a, wa), ResolvedValue::FieldElement(b, wb)) => (
                a % FIELD_MODULUS == b % FIELD_MODULUS,
                wa,
                wb,
            ),
            _ => {
                return Err(CompilerError::TypeMismatch);
            },
        };
        if wa == Wire::Constant && wb == Wire::Constant {
            return Ok(ResolvedValue::Boolean(out, Wire::Constant));
        }
        let w = cs.emit(GateOp::Eq, wa, wb, Witness::Boolean(out));
        Ok(ResolvedValue::Boolean(out, w))
    }

    fn enforce_binary(&self, cs: &mut Circuit, op: BinaryOperator, left: ResolvedValue, right: ResolvedValue) -> (r:
        Result<ResolvedValue, CompilerError>)
        ensures
            (view_result(r), final(cs)@) == apply_binary(op, left.view(), right.view(), old(cs)@),
    {
        match op {
            BinaryOperator::Add => self.enforce_add_expression(cs, left, right),
            BinaryOperator::Sub => self.enforce_sub_expression(cs, left, right),
            BinaryOperator::Mul => self.enforce_mul_expression(cs, left, right),
            BinaryOperator::Div => self.enforce_div_expression(cs, left, right),
            BinaryOperator::Pow => self.enforce_pow_expression(cs, left, right),
            BinaryOperator::Eq => self.enforce_eq_expression(cs, left, right),
            BinaryOperator::And => self.enforce_and(cs, left, right),
            BinaryOperator::Or => self.enforce_or(cs, left, right),
            _ => Err(CompilerError::UnsupportedConstruct),
        }
    }

    /// The elements of an array literal, spreads expanded in place.
    pub fn enforce_array_expression(&self, cs: &mut Circuit, scope: &Scope, fuel: usize, array: &Vec<SpreadOrExpression>) -> (r:
        Result<ResolvedValue, CompilerError>)
        requires
            scope.wf(),
        ensures
            (view_result(r), final(cs)@) == eval_expression(self.program, scope.view(), old(cs)@, fuel as nat, Expression::Array(*array)),
        decreases fuel, 1nat, array, 0nat,
    {
        let mut result: Vec<ResolvedValue> = Vec::new();
        let mut k: usize = 0;
        while k < array.len()
            invariant
                scope.wf(),
                k <= array@.len(),
                eval_array(self.program, scope.view(), old(cs)@, fuel as nat, *array, 0, Seq::empty())
                    == eval_array(self.program, scope.view(), cs@, fuel as nat, *array, k as int, view_values(result@)),
            decreases array.len() - k,
        {
            match &array[k] {
                SpreadOrExpression::Spread(x) => {
                    if !matches!(x, Expression::Variable(_)) {
                        return Err(CompilerError::TypeMismatch);
                    }
                    match self.enforce_expression(cs, scope, fuel, x) {
                        Ok(ResolvedValue::Array(items)) => {
                            proof {
                                lemma_view_values_concat(result@, items@);
                            }
                            let mut items = items;
                            result.append(&mut items);
                        },
                        Ok(_) => {
                            return Err(CompilerError::TypeMismatch);
                        },
                        Err(err) => {
                            return Err(err);
                        },
                    }
                },
                SpreadOrExpression::Expression(x) => {
                    match self.enforce_expression(cs, scope, fuel, x) {
                        Ok(v) => {
                            proof {
                                lemma_view_values_push(result@, v);
                            }
                            result.push(v);
                        },
                        Err(err) => {
                            return Err(err);
                        },
                    }
                },
            }
            k = k + 1;
        }
        Ok(ResolvedValue::Array(result))
    }

    /// The values of expressions, evaluated in order.
    pub fn enforce_expressions(&self, cs: &mut Circuit, scope: &Scope, fuel: usize, expressions: &Vec<Expression>) -> (r:
        Result<Vec<ResolvedValue>, CompilerError>)
        requires
            scope.wf(),
        ensures
            (view_results(r), final(cs)@) == eval_arguments(self.program, scope.view(), old(cs)@, fuel as nat, *expressions, 0, Seq::empty()),
        decreases fuel, 1nat, expressions, 0nat,
    {
        let mut result: Vec<ResolvedValue> = Vec::new();
        let mut k: usize = 0;
        while k < expressions.len()
            invariant
                scope.wf(),
                k <= expressions@.len(),
                eval_arguments(self.program, scope.view(), old(cs)@, fuel as nat, *expressions, 0, Seq::empty())
                    == eval_arguments(self.program, scope.view(), cs@, fuel as nat, *expressions, k as int, view_values(result@)),
            decreases expressions.len() - k,
        {
            match self.enforce_expression(cs, scope, fuel, &expressions[k]) {
                Ok(v) => {
                    proof {
                        lemma_view_values_push(result@, v);
                    }
                    result.push(v);
                },
                Err(err) => {
                    return Err(err);
                },
            }
            k = k + 1;
        }
        Ok(result)
    }

    /// An index expression, which must evaluate to an integer.
    pub fn enforce_index(&self, cs: &mut Circuit, scope: &Scope, fuel: usize, index: &Expression) -> (r:
        Result<usize, CompilerError>)
        requires
            scope.wf(),
        ensures
            (r, final(cs)@) == eval_index(self.program, scope.view(), old(cs)@, fuel as nat, *index),
        decreases fuel, 1nat, index, 2nat,
    {
        match self.enforce_expression(cs, scope, fuel, index) {
            Ok(ResolvedValue::U32(n, _)) => Ok(n as usize),
            Ok(_) => Err(CompilerError::TypeMismatch),
            Err(err) => Err(err),
        }
    }

    /// An element or a slice of an evaluated array.
    pub fn enforce_array_access_expression(
        &self,
        cs: &mut Circuit,
        scope: &Scope,
        fuel: usize,
        array: ResolvedValue,
        index: &RangeOrExpression,
    ) -> (r: Result<ResolvedValue, CompilerError>)
        requires
            scope.wf(),
        ensures
            (view_result(r), final(cs)@) == eval_array_access(self.program, scope.view(), old(cs)@, fuel as nat, array.view(), *index),
        decreases fuel, 1nat, index, 3nat,
    {
        let items = match array {
            ResolvedValue::Array(items) => items,
            _ => {
                return Err(CompilerError::TypeMismatch);
            },
        };
        proof {
            lemma_view_values(items@);
        }
        match index {
            RangeOrExpression::Range(from, to) => {
                let f = match from {
                    Some(n) => n.to_usize(),
                    None => 0,
                };
                let t = match to {
                    Some(n) => n.to_usize(),
                    None => items.len(),
                };
                if f <= t && t <= items.len() {
                    let mut out: Vec<ResolvedValue> = Vec::new();
                    extend_copies(&mut out, &items, f, t);
                    proof {
                        assert(view_values(Seq::<ResolvedValue>::empty()) =~= Seq::<Val>::empty());
                        assert(Seq::<Val>::empty() + view_values(items@).subrange(f as int, t as int)
                            =~= view_values(items@).subrange(f as int, t as int));
                    }
                    Ok(ResolvedValue::Array(out))
                } else {
                    Err(CompilerError::OutOfBounds)
                }
            },
            RangeOrExpression::Expression(x) => {
                match self.enforce_index(cs, scope, fuel, x) {
                    Ok(i) => if i < items.len() {
                        Ok(items[i].duplicate())
                    } else {
                        Err(CompilerError::OutOfBounds)
                    },
                    Err(err) => Err(err),
                }
            },
        }
    }

    /// A struct literal of a declared struct, members in declaration order.
    pub fn enforce_struct_expression(
        &self,
        cs: &mut Circuit,
        scope: &Scope,
        fuel: usize,
        variable: &Variable,
        members: &Vec<StructMember>,
    ) -> (r: Result<ResolvedValue, CompilerError>)
        requires
            scope.wf(),
        ensures
            (view_result(r), final(cs)@) == eval_struct(self.program, scope.view(), old(cs)@, fuel as nat, *variable, *members),
        decreases fuel, 1nat, members, 0nat,
    {
        let j = match self.find_struct(&variable.name) {
            Some(j) => j,
            None => {
                return Err(CompilerError::UndeclaredType);
            },
        };
        proof {
            crate::program::lemma_last_struct(self.program.structs@, variable.name@, self.program.structs@.len() as int);
        }
        let fields = &self.program.structs[j].fields;
        if fields.len() != members.len() {
            return Err(CompilerError::StructShapeMismatch);
        }
        let mut names: Vec<String> = Vec::new();
        let mut i: usize = 0;
        while i < fields.len()
            invariant
                i <= fields@.len(),
                fields@.len() == members@.len(),
                j < self.program.structs@.len(),
                crate::program::struct_index(self.program, variable.name@) == j,
                fields@ == self.program.structs@[j as int].fields@,
                names@.len() == i,
                forall|k: int| 0 <= k < i ==> #[trigger] fields@[k].variable.name@ == members@[k].variable.name@,
                forall|k: int| 0 <= k < i ==> #[trigger] names@[k]@ == fields@[k].variable.name@,
            decreases fields.len() - i,
        {
            if fields[i].variable.name != members[i].variable.name {
                assert(!crate::semantics::shape_matches(fields@, members@));
                return Err(CompilerError::StructShapeMismatch);
            }
            names.push(fields[i].variable.name.clone());
            i = i + 1;
        }
        assert(view_names(names@) =~= crate::semantics::field_names(fields@));
        assert(crate::semantics::shape_matches(fields@, members@));
        let mut vals: Vec<ResolvedValue> = Vec::new();
        let mut k: usize = 0;
        while k < members.len()
            invariant
                scope.wf(),
                k <= members@.len(),
                j < self.program.structs@.len(),
                crate::program::struct_index(self.program, variable.name@) == j,
                fields@ == self.program.structs@[j as int].fields@,
                crate::semantics::shape_matches(fields@, members@),
                view_names(names@) == crate::semantics::field_names(fields@),
                eval_members(self.program, scope.view(), old(cs)@, fuel as nat, *members, 0, Seq::empty())
                    == eval_members(self.program, scope.view(), cs@, fuel as nat, *members, k as int, view_values(vals@)),
            decreases members.len() - k,
        {
            match self.enforce_expression(cs, scope, fuel, &members[k].expression) {
                Ok(v) => {
                    proof {
                        lemma_view_values_push(vals@, v);
                    }
                    vals.push(v);
                },
                Err(err) => {
                    return Err(err);
                },
            }
            k = k + 1;
        }
        Ok(ResolvedValue::StructInstance(variable.name.clone(), names, vals))
    }

    /// The member `member` of an evaluated struct instance.
    pub fn enforce_struct_access_expression(&self, value: ResolvedValue, member: &Variable) -> (r:
        Result<ResolvedValue, CompilerError>)
        ensures
            view_result(r) == struct_access(value.view(), member.name@),
    {
        match value {
            ResolvedValue::StructInstance(_, names, vals) => {
                proof {
                    lemma_view_values(vals@);
                }
                match find_name(&names, &member.name) {
                    Some(i) => if i < vals.len() {
                        Ok(vals[i].duplicate())
                    } else {
                        Err(CompilerError::StructShapeMismatch)
                    },
                    None => Err(CompilerError::StructShapeMismatch),
                }
            },
            _ => Err(CompilerError::TypeMismatch),
        }
    }

    /// A call of an evaluated callee on the given arguments.
    pub fn enforce_function_access_expression(
        &self,
        cs: &mut Circuit,
        scope: &Scope,
        fuel: usize,
        function: ResolvedValue,
        arguments: &Vec<Expression>,
    ) -> (r: Result<ResolvedValue, CompilerError>)
        requires
            scope.wf(),
        ensures
            (view_result(r), final(cs)@) == eval_function_access(self.program, scope.view(), old(cs)@, fuel as nat, function.view(), *arguments),
        decreases fuel, 1nat, arguments, 1nat,
    {
        let name = match function {
            ResolvedValue::Function(name) => name,
            _ => {
                return Err(CompilerError::TypeMismatch);
            },
        };
        let args = match self.enforce_expressions(cs, scope, fuel, arguments) {
            Ok(args) => args,
            Err(err) => {
                return Err(err);
            },
        };
        let j = match self.find_function(&name) {
            Some(j) => j,
            None => {
                return Err(CompilerError::UnresolvedVariable);
            },
        };
        if fuel == 0 {
            return Err(CompilerError::CallDepthExceeded);
        }
        proof {
            crate::program::lemma_last_function(self.program.functions@, name@, self.program.functions@.len() as int);
        }
        self.enforce_function(cs, fuel - 1, &self.program.functions[j], args)
    }

    /// Evaluates an expression, emitting the gates of the operators it applies.
    pub fn enforce_expression(&self, cs: &mut Circuit, scope: &Scope, fuel: usize, expression: &Expression) -> (r:
        Result<ResolvedValue, CompilerError>)
        requires
            scope.wf(),
        ensures
            (view_result(r), final(cs)@) == eval_expression(self.program, scope.view(), old(cs)@, fuel as nat, *expression),
        decreases fuel, 1nat, expression, 1nat,
    {
        match expression {
            Expression::Variable(v) => self.enforce_variable(scope, v),
            Expression::Integer(Integer::U32(n)) => Ok(ResolvedValue::U32(*n, Wire::Constant)),
            Expression::FieldElement(f) => Ok(ResolvedValue::FieldElement(*f % FIELD_MODULUS, Wire::Constant)),
            Expression::Boolean(b) => Ok(ResolvedValue::Boolean(*b, Wire::Constant)),
            Expression::Binary(op, left, right) => {
                match op {
                    BinaryOperator::Geq | BinaryOperator::Gt | BinaryOperator::Leq | BinaryOperator::Lt => {
                        return Err(CompilerError::UnsupportedConstruct);
                    },
                    _ => {},
                }
                assert(!is_comparison(*op));
                let l = match self.enforce_expression(cs, scope, fuel, left) {
                    Ok(v) => v,
                    Err(err) => {
                        return Err(err);
                    },
                };
                let r = match self.enforce_expression(cs, scope, fuel, right) {
                    Ok(v) => v,
                    Err(err) => {
                        return Err(err);
                    },
                };
                self.enforce_binary(cs, *op, l, r)
            },
            Expression::Not(x) => match self.enforce_expression(cs, scope, fuel, x) {
                Ok(v) => self.enforce_not(cs, v),
                Err(err) => Err(err),
            },
            Expression::IfElse(condition, yes, no) => match self.enforce_expression(cs, scope, fuel, condition) {
                Ok(ResolvedValue::Boolean(t, Wire::Constant)) => if t {
                    self.enforce_expression(cs, scope, fuel, yes)
                } else {
                    self.enforce_expression(cs, scope, fuel, no)
                },
                Ok(_) => Err(CompilerError::TypeMismatch),
                Err(err) => Err(err),
            },
            Expression::Array(elements) => self.enforce_array_expression(cs, scope, fuel, elements),
            Expression::ArrayAccess(array, index) => match self.enforce_expression(cs, scope, fuel, array) {
                Ok(v) => self.enforce_array_access_expression(cs, scope, fuel, v, index),
                Err(err) => Err(err),
            },
            Expression::Struct(name, members) => self.enforce_struct_expression(cs, scope, fuel, name, members),
            Expression::StructMemberAccess(x, member) => match self.enforce_expression(cs, scope, fuel, x) {
                Ok(v) => self.enforce_struct_access_expression(v, member),
                Err(err) => Err(err),
            },
            Expression::FunctionCall(function, arguments) => match self.enforce_expression(cs, scope, fuel, function) {
                Ok(v) => self.enforce_function_access_expression(cs, scope, fuel, v, arguments),
                Err(err) => Err(err),
            },
        }
    }
}

} // verus!
