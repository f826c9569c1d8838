//! Constraint generation for statements and function activations.
use crate::circuit::{Circuit, Wire};
use crate::errors::CompilerError;
use crate::program::ResolvedProgram;
use crate::scope::Scope;
use crate::semantics::{
    assign, bind_parameters, bound_or, eval_assignee, eval_block, eval_call, eval_conditional,
    eval_for, eval_statement, eval_statements, return_value, update_value, AccessStep,
};
use crate::types::{
    Assignee, ConditionalNestedOrEndStatement, ConditionalStatement, Function, Integer,
    RangeOrExpression, Statement, Variable,
};
use crate::value::{
    duplicate_names, duplicate_values, extend_copies, find_name, lemma_view_values, view_names, view_result,
    view_values, ResolvedValue, Val,
};
use vstd::prelude::*;

verus! {

/// The model of the outcome of statements.
pub open spec fn view_flow(r: Result<Option<Vec<ResolvedValue>>, CompilerError>) -> Result<Option<Seq<Val>>, CompilerError> {
    match r {
        Ok(Some(v)) => Ok(Some(view_values(v@))),
        Ok(None) => Ok(None),
        Err(e) => Err(e),
    }
}

/// The model of an evaluated definition target.
pub open spec fn view_path(r: Result<(String, Vec<AccessStep>), CompilerError>) -> Result<(Seq<char>, Seq<AccessStep>), CompilerError> {
    match r {
        Ok((root, steps)) => Ok((root@, steps@)),
        Err(e) => Err(e),
    }
}

/// `old` with the part at `steps[k..]` replaced by `v`.
pub fn update_value_at(old: &ResolvedValue, steps: &Vec<AccessStep>, k: usize, v: ResolvedValue) -> (r:
    Result<ResolvedValue, CompilerError>)
    ensures
        view_result(r) == update_value(old.view(), steps@, k as int, v.view()),
    decreases steps@.len() - k,
{
    if k >= steps.len() {
        return Ok(v);
    }
    match &steps[k] {
        AccessStep::Index(i) => match old {
            ResolvedValue::Array(items) => {
                proof {
                    lemma_view_values(items@);
                }
                if *i < items.len() {
                    match update_value_at(&items[*i], steps, k + 1, v) {
                        Ok(x) => {
                            let mut copy = duplicate_values(items);
                            proof {
                                lemma_view_values(copy@);
                            }
                            let ghost xv = x.view();
                            let ghost before = copy@;
                            copy.set(*i, x);
                            proof {
                                lemma_view_values(copy@);
                                lemma_view_values(before);
                                assert(view_values(copy@) =~= view_values(items@).update(*i as int, xv));
                            }
                            Ok(ResolvedValue::Array(copy))
                        },
                        Err(err) => Err(err),
                    }
                } else {
                    Err(CompilerError::OutOfBounds)
                }
            },
            _ => Err(CompilerError::TypeMismatch),
        },
        AccessStep::Range(from, to) => {
            if k + 1 < steps.len() {
                return Err(CompilerError::UnsupportedConstruct);
            }
            match old {
                ResolvedValue::Array(items) => {
                    proof {
                        lemma_view_values(items@);
                    }
                    let f = match from {
                        Some(n) => n.to_usize(),
                        None => 0,
                    };
                    let t = match to {
                        Some(n) => n.to_usize(),
                        None => items.len(),
                    };
                    assert(f == bound_or(*from, 0) && t == bound_or(*to, items@.len() as int));
                    if f <= t && t <= items.len() {
                        match v {
                            ResolvedValue::Array(new_items) => {
                                proof {
                                    lemma_view_values(new_items@);
                                }
                                if new_items.len() == t - f {
                                    let mut out: Vec<ResolvedValue> = Vec::new();
                                    extend_copies(&mut out, items, 0, f);
                                    extend_copies(&mut out, &new_items, 0, new_items.len());
                                    extend_copies(&mut out, items, t, items.len());
                                    proof {
                                        let iv = view_values(items@);
                                        let nv = view_values(new_items@);
                                        assert(view_values(Seq::<ResolvedValue>::empty()) =~= Seq::<Val>::empty());
                                        assert(nv.subrange(0, nv.len() as int) =~= nv);
                                        assert(view_values(out@) =~= iv.subrange(0, f as int) + nv + iv.subrange(t as int, iv.len() as int));
                                    }
                                    Ok(ResolvedValue::Array(out))
                                } else {
                                    Err(CompilerError::TypeMismatch)
                                }
                            },
                            _ => Err(CompilerError::TypeMismatch),
                        }
                    } else {
                        Err(CompilerError::OutOfBounds)
                    }
                },
                _ => Err(CompilerError::TypeMismatch),
            }
        },
        AccessStep::Member(m) => match old {
            ResolvedValue::StructInstance(name, names, vals) => {
                proof {
                    lemma_view_values(vals@);
                }
                let j = match find_name(names, m) {
                    Some(j) => j,
                    None => {
                        return Err(CompilerError::StructShapeMismatch);
                    },
                };
                if j < vals.len() {
                    match update_value_at(&vals[j], steps, k + 1, v) {
                        Ok(x) => {
                            let mut copy = duplicate_values(vals);
                            proof {
                                lemma_view_values(copy@);
                            }
                            let ghost xv = x.view();
                            let ghost before = copy@;
                            copy.set(j, x);
                            proof {
                                lemma_view_values(copy@);
                                lemma_view_values(before);
                                assert(view_values(copy@) =~= view_values(vals@).update(j as int, xv));
                            }
                            Ok(ResolvedValue::StructInstance(name.clone(), duplicate_names(names), copy))
                        },
                        Err(err) => Err(err),
                    }
                } else {
                    Err(CompilerError::StructShapeMismatch)
                }
            },
            _ => Err(CompilerError::TypeMismatch),
        },
    }
}

/// Stores `v` at a path: a bare variable is bound or overwritten; a path into
/// a value needs the variable bound. On failure the scope is left unchanged.
pub fn assign_value(scope: &mut Scope, root: String, steps: Vec<AccessStep>, v: ResolvedValue) -> (r: Result<(), CompilerError>)
    requires
        old(scope).wf(),
    ensures
        final(scope).wf(),
        match assign(old(scope).view(), root@, steps@, v.view()) {
            Ok(s) => r is Ok && final(scope).view() == s,
            Err(e) => r == Err::<(), CompilerError>(e) && final(scope).view() == old(scope).view(),
        },
{
    if steps.len() == 0 {
        scope.store(root, v);
        return Ok(());
    }
    match scope.get(&root) {
        None => Err(CompilerError::UnresolvedVariable),
        Some(current) => match update_value_at(&current, &steps, 0, v) {
            Ok(x) => {
                scope.store(root, x);
                Ok(())
            },
            Err(err) => Err(err),
        },
    }
}

impl ResolvedProgram {
    fn return_value(vals: Vec<ResolvedValue>) -> (r: ResolvedValue)
        ensures
            r.view() == return_value(view_values(vals@)),
    {
        proof {
            lemma_view_values(vals@);
        }
        if vals.len() == 1 {
            let mut vals = vals;
            match vals.pop() {
                Some(v) => v,
                None => ResolvedValue::Return(vals),
            }
        } else {
            ResolvedValue::Return(vals)
        }
    }

    /// The path of a definition's target, its indices evaluated from the root out.
    pub fn enforce_assignee(&self, cs: &mut Circuit, scope: &Scope, fuel: usize, assignee: &Assignee) -> (r:
        Result<(String, Vec<AccessStep>), CompilerError>)
        requires
            scope.wf(),
        ensures
            (view_path(r), final(cs)@) == eval_assignee(self.program, scope.view(), old(cs)@, fuel as nat, *assignee),
        decreases fuel, 2nat, assignee, 3nat,
    {
        match assignee {
            Assignee::Variable(v) => {
                let steps: Vec<AccessStep> = Vec::new();
                Ok((v.name.clone(), steps))
            },
            Assignee::Array(inner, index) => {
                let (root, mut steps) = match self.enforce_assignee(cs, scope, fuel, inner) {
                    Ok(path) => path,
                    Err(err) => {
                        return Err(err);
                    },
                };
                match index {
                    RangeOrExpression::Range(from, to) => {
                        steps.push(AccessStep::Range(*from, *to));
                        Ok((root, steps))
                    },
                    RangeOrExpression::Expression(x) => match self.enforce_index(cs, scope, fuel, x) {
                        Ok(i) => {
                            steps.push(AccessStep::Index(i));
                            Ok((root, steps))
                        },
                        Err(err) => Err(err),
                    },
                }
            },
            Assignee::StructMember(inner, member) => {
                let (root, mut steps) = match self.enforce_assignee(cs, scope, fuel, inner) {
                    Ok(path) => path,
                    Err(err) => {
                        return Err(err);
                    },
                };
                steps.push(AccessStep::Member(member.name.clone()));
                Ok((root, steps))
            },
        }
    }

    /// Statements in order, stopping at the first `Return` or error.
    pub fn enforce_statements(&self, cs: &mut Circuit, scope: &mut Scope, fuel: usize, statements: &Vec<Statement>) -> (r:
        Result<Option<Vec<ResolvedValue>>, CompilerError>)
        requires
            old(scope).wf(),
        ensures
            final(scope).wf(),
            (view_flow(r), final(scope).view(), final(cs)@) == eval_statements(self.program, old(scope).view(), old(cs)@, fuel as nat, *statements, 0),
        decreases fuel, 3nat, statements, 1nat,
    {
        let mut k: usize = 0;
        while k < statements.len()
            invariant
                scope.wf(),
                k <= statements@.len(),
                eval_statements(self.program, old(scope).view(), old(cs)@, fuel as nat, *statements, 0)
                    == eval_statements(self.program, scope.view(), cs@, fuel as nat, *statements, k as int),
            decreases statements.len() - k,
        {
            match self.enforce_statement(cs, scope, fuel, &statements[k]) {
                Ok(None) => {},
                other => {
                    return other;
                },
            }
            k = k + 1;
        }
        Ok(None)
    }

    /// A block, in a frame of its own.
    pub fn enforce_block(&self, cs: &mut Circuit, scope: &mut Scope, fuel: usize, statements: &Vec<Statement>) -> (r:
        Result<Option<Vec<ResolvedValue>>, CompilerError>)
        requires
            old(scope).wf(),
        ensures
            final(scope).wf(),
            (view_flow(r), final(scope).view(), final(cs)@) == eval_block(self.program, old(scope).view(), old(cs)@, fuel as nat, *statements),
        decreases fuel, 3nat, statements, 2nat,
    {
        scope.push_frame();
        let r = self.enforce_statements(cs, scope, fuel, statements);
        scope.pop_frame();
        r
    }

    /// A conditional: only the selected branch is evaluated.
    pub fn enforce_conditional(&self, cs: &mut Circuit, scope: &mut Scope, fuel: usize, statement: &ConditionalStatement) -> (r:
        Result<Option<Vec<ResolvedValue>>, CompilerError>)
        requires
            old(scope).wf(),
        ensures
            final(scope).wf(),
            (view_flow(r), final(scope).view(), final(cs)@) == eval_conditional(self.program, old(scope).view(), old(cs)@, fuel as nat, *statement),
        decreases fuel, 3nat, statement, 0nat,
    {
        match self.enforce_expression(cs, scope, fuel, &statement.condition) {
            Ok(ResolvedValue::Boolean(t, Wire::Constant)) => if t {
                self.enforce_block(cs, scope, fuel, &statement.block.statements)
            } else {
                match &statement.next {
                    None => Ok(None),
                    Some(ConditionalNestedOrEndStatement::Nested(next)) => self.enforce_conditional(cs, scope, fuel, next),
                    Some(ConditionalNestedOrEndStatement::End(block)) => self.enforce_block(cs, scope, fuel, &block.statements),
                }
            },
            Ok(_) => Err(CompilerError::TypeMismatch),
            Err(err) => Err(err),
        }
    }

    /// A loop over `from..to`, unrolled: the body runs once per index, in a
    /// fresh frame holding only the index.
    pub fn enforce_for(
        &self,
        cs: &mut Circuit,
        scope: &mut Scope,
        fuel: usize,
        index: &Variable,
        from: u32,
        to: u32,
        body: &Vec<Statement>,
    ) -> (r: Result<Option<Vec<ResolvedValue>>, CompilerError>)
        requires
            old(scope).wf(),
        ensures
            final(scope).wf(),
            (view_flow(r), final(scope).view(), final(cs)@) == eval_for(self.program, old(scope).view(), old(cs)@, fuel as nat, index.name@, from as int, to as int, *body),
        decreases fuel, 3nat, body, 2nat,
    {
        let mut i: u32 = from;
        while i < to
            invariant
                scope.wf(),
                eval_for(self.program, old(scope).view(), old(cs)@, fuel as nat, index.name@, from as int, to as int, *body)
                    == eval_for(self.program, scope.view(), cs@, fuel as nat, index.name@, i as int, to as int, *body),
            decreases to - i,
        {
            scope.push_frame();
            scope.bind(index.name.clone(), ResolvedValue::U32(i, Wire::Constant));
            let r = self.enforce_statements(cs, scope, fuel, body);
            scope.pop_frame();
            match r {
                Ok(None) => {},
                other => {
                    return other;
                },
            }
            i = i + 1;
        }
        Ok(None)
    }

    /// Executes one statement.
    pub fn enforce_statement(&self, cs: &mut Circuit, scope: &mut Scope, fuel: usize, statement: &Statement) -> (r:
        Result<Option<Vec<ResolvedValue>>, CompilerError>)
        requires
            old(scope).wf(),
        ensures
            final(scope).wf(),
            (view_flow(r), final(scope).view(), final(cs)@) == eval_statement(self.program, old(scope).view(), old(cs)@, fuel as nat, *statement),
        decreases fuel, 3nat, statement, 0nat,
    {
        match statement {
            Statement::Definition(assignee, expression) => {
                let v = match self.enforce_expression(cs, scope, fuel, expression) {
                    Ok(v) => v,
                    Err(err) => {
                        return Err(err);
                    },
                };
                let (root, steps) = match self.enforce_assignee(cs, scope, fuel, assignee) {
                    Ok(path) => path,
                    Err(err) => {
                        return Err(err);
                    },
                };
                match assign_value(scope, root, steps, v) {
                    Ok(()) => Ok(None),
                    Err(err) => Err(err),
                }
            },
            Statement::Return(expressions) => match self.enforce_expressions(cs, scope, fuel, expressions) {
                Ok(vals) => Ok(Some(vals)),
                Err(err) => Err(err),
            },
            Statement::Conditional(conditional) => self.enforce_conditional(cs, scope, fuel, conditional),
            Statement::For(index, Integer::U32(from), Integer::U32(to), body) => self.enforce_for(
                cs,
                scope,
                fuel,
                index,
                *from,
                *to,
                body,
            ),
        }
    }

    /// One activation of `function`: a fresh scope binds the parameters to the
    /// arguments in order, then the body runs until its first `Return`.
    pub fn enforce_function(&self, cs: &mut Circuit, fuel: usize, function: &Function, arguments: Vec<ResolvedValue>) -> (r:
        Result<ResolvedValue, CompilerError>)
        ensures
            (view_result(r), final(cs)@) == eval_call(self.program, old(cs)@, fuel as nat, *function, view_values(arguments@)),
        decreases fuel, 4nat, function, 0nat,
    {
        let params = &function.parameters;
        proof {
            lemma_view_values(arguments@);
        }
        if arguments.len() != params.len() {
            return Err(CompilerError::TypeMismatch);
        }
        let ghost args = view_values(arguments@);
        let mut scope = Scope::new();
        let mut i: usize = 0;
        while i < params.len()
            invariant
                i <= params@.len(),
                params@.len() == arguments@.len(),
                args == view_values(arguments@),
                args.len() == arguments@.len(),
                forall|j: int| 0 <= j < arguments@.len() ==> #[trigger] args[j] == arguments@[j].view(),
                scope.wf(),
                scope.view() == bind_parameters(params@.subrange(0, i as int), args.subrange(0, i as int)),
            decreases params.len() - i,
        {
            let v = arguments[i].duplicate();
            scope.bind(params[i].variable.name.clone(), v);
            proof {
                let ps = params@.subrange(0, i + 1);
                let vs = args.subrange(0, i + 1);
                assert(ps.drop_last() =~= params@.subrange(0, i as int));
                assert(vs.drop_last() =~= args.subrange(0, i as int));
            }
            i = i + 1;
        }
        assert(params@.subrange(0, params@.len() as int) =~= params@);
        assert(args.subrange(0, args.len() as int) =~= args);
        match self.enforce_statements(cs, &mut scope, fuel, &function.statements) {
            Ok(Some(vals)) => Ok(Self::return_value(vals)),
            Ok(None) => {
                let empty: Vec<ResolvedValue> = Vec::new();
                assert(view_values(empty@) =~= Seq::<Val>::empty());
                Ok(Self::return_value(empty))
            },
            Err(err) => Err(err),
        }
    }
}

} // verus!
