//! Properties of constraint generation, proved from the reference semantics.
use crate::circuit::{CircuitView, Visibility, Wire};
use crate::errors::CompilerError;
use crate::parameter::{allocations_for, eval_main, lemma_parse_inputs_len, parse_inputs, visibility_of};
use crate::program::{function_index, lookup_global};
use crate::scope::ScopeView;
use crate::semantics::{
    assign, bind_parameters, eval_array, eval_array_access, eval_arguments, eval_assignee, eval_block,
    eval_call, eval_conditional, eval_expression, eval_for, eval_function_access, eval_index,
    eval_members, eval_statement, eval_statements, eval_struct, is_comparison, lookup_variable,
    shape_matches,
};
use crate::types::{
    Assignee, ConditionalNestedOrEndStatement, ConditionalStatement, Expression, Function, Parameter,
    Program, RangeOrExpression, SpreadOrExpression, Statement, StructMember, Variable,
};
use crate::value::Val;
use vstd::prelude::*;

verus! {

/// `s2` keeps the bindings of `s` in place (their values may change) and has
/// the same open frames.
pub open spec fn extends(s: ScopeView, s2: ScopeView) -> bool {
    &&& s2.wf()
    &&& s2.marks == s.marks
    &&& s2.names.len() >= s.names.len()
    &&& forall|i: int| 0 <= i < s.names.len() ==> #[trigger] s2.names[i] == s.names[i]
}

proof fn lemma_bind_parameters_wf(params: Seq<Parameter>, args: Seq<Val>)
    ensures
        bind_parameters(params, args).wf(),
        bind_parameters(params, args).marks.len() == 0,
    decreases params.len(),
{
    if params.len() > 0 && args.len() > 0 {
        lemma_bind_parameters_wf(params.drop_last(), args.drop_last());
    }
}

proof fn lemma_assign_extends(s: ScopeView, root: Seq<char>, steps: Seq<crate::semantics::AccessStep>, v: Val)
    requires
        s.wf(),
    ensures
        assign(s, root, steps, v) matches Ok(s2) ==> extends(s, s2),
{
    crate::scope::lemma_find_binding(s.names, root, s.names.len() as int);
}

proof fn lemma_expression(p: Program, s: ScopeView, c: CircuitView, fuel: nat, e: Expression)
    ensures
        eval_expression(p, s, c, fuel, e).1.allocations == c.allocations,
    decreases fuel, 1nat, e, 1nat,
{
    match e {
        Expression::Binary(op, l, r) => {
            if !is_comparison(op) {
                lemma_expression(p, s, c, fuel, *l);
                let (lv, c1) = eval_expression(p, s, c, fuel, *l);
                lemma_expression(p, s, c1, fuel, *r);
            }
        },
        Expression::Not(x) => {
            lemma_expression(p, s, c, fuel, *x);
        },
        Expression::IfElse(cond, yes, no) => {
            lemma_expression(p, s, c, fuel, *cond);
            let (cv, c1) = eval_expression(p, s, c, fuel, *cond);
            lemma_expression(p, s, c1, fuel, *yes);
            lemma_expression(p, s, c1, fuel, *no);
        },
        Expression::Array(elements) => {
            lemma_array(p, s, c, fuel, elements, 0, Seq::empty());
        },
        Expression::ArrayAccess(array, index) => {
            lemma_expression(p, s, c, fuel, *array);
            let (av, c1) = eval_expression(p, s, c, fuel, *array);
            if let Ok(av) = av {
                lemma_array_access(p, s, c1, fuel, av, *index);
            }
        },
        Expression::Struct(name, members) => {
            lemma_struct(p, s, c, fuel, name, members);
        },
        Expression::StructMemberAccess(x, _) => {
            lemma_expression(p, s, c, fuel, *x);
        },
        Expression::FunctionCall(f, args) => {
            lemma_expression(p, s, c, fuel, *f);
            let (fv, c1) = eval_expression(p, s, c, fuel, *f);
            if let Ok(fv) = fv {
                lemma_function_access(p, s, c1, fuel, fv, args);
            }
        },
        _ => {},
    }
}

proof fn lemma_struct(p: Program, s: ScopeView, c: CircuitView, fuel: nat, name: Variable, members: Vec<StructMember>)
    ensures
        eval_struct(p, s, c, fuel, name, members).1.allocations == c.allocations,
    decreases fuel, 1nat, members, members.len() + 1,
{
    lemma_members(p, s, c, fuel, members, 0, Seq::empty());
}

proof fn lemma_function_access(p: Program, s: ScopeView, c: CircuitView, fuel: nat, fv: Val, args: Vec<Expression>)
    ensures
        eval_function_access(p, s, c, fuel, fv, args).1.allocations == c.allocations,
    decreases fuel, 1nat, args, args.len() + 1,
{
    if let Val::Function(name) = fv {
        lemma_arguments(p, s, c, fuel, args, 0, Seq::empty());
        let (vals, c1) = eval_arguments(p, s, c, fuel, args, 0, Seq::empty());
        if let Ok(vals) = vals {
            if function_index(p, name) >= 0 && fuel > 0 {
                lemma_call(p, c1, (fuel - 1) as nat, p.functions@[function_index(p, name)], vals);
            }
        }
    }
}

proof fn lemma_array(
    p: Program,
    s: ScopeView,
    c: CircuitView,
    fuel: nat,
    elements: Vec<SpreadOrExpression>,
    k: int,
    acc: Seq<Val>,
)
    ensures
        eval_array(p, s, c, fuel, elements, k, acc).1.allocations == c.allocations,
    decreases fuel, 1nat, elements, elements.len() - k,
{
    if 0 <= k < elements.len() {
        match elements[k] {
            SpreadOrExpression::Spread(x) => {
                lemma_expression(p, s, c, fuel, x);
                let (v, c1) = eval_expression(p, s, c, fuel, x);
                if let Ok(Val::Array(items)) = v {
                    lemma_array(p, s, c1, fuel, elements, k + 1, acc + items);
                }
            },
            SpreadOrExpression::Expression(x) => {
                lemma_expression(p, s, c, fuel, x);
                let (v, c1) = eval_expression(p, s, c, fuel, x);
                if let Ok(v) = v {
                    lemma_array(p, s, c1, fuel, elements, k + 1, acc.push(v));
                }
            },
        }
    }
}

proof fn lemma_arguments(p: Program, s: ScopeView, c: CircuitView, fuel: nat, args: Vec<Expression>, k: int, acc: Seq<Val>)
    ensures
        eval_arguments(p, s, c, fuel, args, k, acc).1.allocations == c.allocations,
    decreases fuel, 1nat, args, args.len() - k,
{
    if 0 <= k < args.len() {
        lemma_expression(p, s, c, fuel, args[k]);
        let (v, c1) = eval_expression(p, s, c, fuel, args[k]);
        if let Ok(v) = v {
            lemma_arguments(p, s, c1, fuel, args, k + 1, acc.push(v));
        }
    }
}

proof fn lemma_members(p: Program, s: ScopeView, c: CircuitView, fuel: nat, members: Vec<StructMember>, k: int, acc: Seq<Val>)
    ensures
        eval_members(p, s, c, fuel, members, k, acc).1.allocations == c.allocations,
    decreases fuel, 1nat, members, members.len() - k,
{
    if 0 <= k < members.len() {
        lemma_expression(p, s, c, fuel, members[k].expression);
        let (v, c1) = eval_expression(p, s, c, fuel, members[k].expression);
        if let Ok(v) = v {
            lemma_members(p, s, c1, fuel, members, k + 1, acc.push(v));
        }
    }
}

proof fn lemma_index(p: Program, s: ScopeView, c: CircuitView, fuel: nat, x: Expression)
    ensures
        eval_index(p, s, c, fuel, x).1.allocations == c.allocations,
    decreases fuel, 1nat, x, 2nat,
{
    lemma_expression(p, s, c, fuel, x);
}

proof fn lemma_array_access(p: Program, s: ScopeView, c: CircuitView, fuel: nat, av: Val, index: RangeOrExpression)
    ensures
        eval_array_access(p, s, c, fuel, av, index).1.allocations == c.allocations,
    decreases fuel, 1nat, index, 3nat,
{
    if let RangeOrExpression::Expression(x) = index {
        lemma_index(p, s, c, fuel, x);
    }
}

proof fn lemma_assignee(p: Program, s: ScopeView, c: CircuitView, fuel: nat, a: Assignee)
    ensures
        eval_assignee(p, s, c, fuel, a).1.allocations == c.allocations,
    decreases fuel, 2nat, a, 3nat,
{
    match a {
        Assignee::Variable(_) => {},
        Assignee::Array(inner, index) => {
            lemma_assignee(p, s, c, fuel, *inner);
            let (path, c1) = eval_assignee(p, s, c, fuel, *inner);
            if let RangeOrExpression::Expression(x) = index {
                lemma_index(p, s, c1, fuel, x);
            }
        },
        Assignee::StructMember(inner, _) => {
            lemma_assignee(p, s, c, fuel, *inner);
        },
    }
}

proof fn lemma_call(p: Program, c: CircuitView, fuel: nat, f: Function, args: Seq<Val>)
    ensures
        eval_call(p, c, fuel, f, args).1.allocations == c.allocations,
    decreases fuel, 4nat, f, 0nat,
{
    if args.len() == f.parameters@.len() {
        let s = bind_parameters(f.parameters@, args);
        lemma_bind_parameters_wf(f.parameters@, args);
        lemma_statements(p, s, c, fuel, f.statements, 0);
    }
}

proof fn lemma_statement(p: Program, s: ScopeView, c: CircuitView, fuel: nat, st: Statement)
    requires
        s.wf(),
    ensures
        eval_statement(p, s, c, fuel, st).2.allocations == c.allocations,
        extends(s, eval_statement(p, s, c, fuel, st).1),
    decreases fuel, 3nat, st, 0nat,
{
    match st {
        Statement::Definition(a, e) => {
            lemma_expression(p, s, c, fuel, e);
            let (v, c1) = eval_expression(p, s, c, fuel, e);
            lemma_assignee(p, s, c1, fuel, a);
            if let Ok(v) = v {
                let (path, c2) = eval_assignee(p, s, c1, fuel, a);
                if let Ok((root, steps)) = path {
                    lemma_assign_extends(s, root, steps, v);
                }
            }
        },
        Statement::Return(es) => {
            lemma_arguments(p, s, c, fuel, es, 0, Seq::empty());
        },
        Statement::Conditional(cond) => {
            lemma_conditional(p, s, c, fuel, cond);
        },
        Statement::For(index, from, to, body) => {
            lemma_for(p, s, c, fuel, index.name@, from.spec_value() as int, to.spec_value() as int, body);
        },
    }
}

proof fn lemma_statements(p: Program, s: ScopeView, c: CircuitView, fuel: nat, stmts: Vec<Statement>, k: int)
    requires
        s.wf(),
    ensures
        eval_statements(p, s, c, fuel, stmts, k).2.allocations == c.allocations,
        extends(s, eval_statements(p, s, c, fuel, stmts, k).1),
    decreases fuel, 3nat, stmts, stmts.len() - k,
{
    if 0 <= k < stmts.len() {
        lemma_statement(p, s, c, fuel, stmts[k]);
        let (r, s1, c1) = eval_statement(p, s, c, fuel, stmts[k]);
        if r == Ok::<Option<Seq<Val>>, CompilerError>(None) {
            lemma_statements(p, s1, c1, fuel, stmts, k + 1);
        }
    }
}

/// A block leaves exactly the bindings that existed before it.
proof fn lemma_block(p: Program, s: ScopeView, c: CircuitView, fuel: nat, stmts: Vec<Statement>)
    requires
        s.wf(),
    ensures
        eval_block(p, s, c, fuel, stmts).2.allocations == c.allocations,
        extends(s, eval_block(p, s, c, fuel, stmts).1),
        eval_block(p, s, c, fuel, stmts).1.names == s.names,
    decreases fuel, 3nat, stmts, stmts.len() + 1,
{
    let s0 = s.push_frame();
    s.lemma_push_frame_wf();
    lemma_statements(p, s0, c, fuel, stmts, 0);
    let (r, s1, c1) = eval_statements(p, s0, c, fuel, stmts, 0);
    assert(s1.marks.last() == s.names.len());
    assert(s1.pop_frame().names =~= s.names);
    assert(s1.pop_frame().marks =~= s.marks);
}

proof fn lemma_conditional(p: Program, s: ScopeView, c: CircuitView, fuel: nat, cond: ConditionalStatement)
    requires
        s.wf(),
    ensures
        eval_conditional(p, s, c, fuel, cond).2.allocations == c.allocations,
        extends(s, eval_conditional(p, s, c, fuel, cond).1),
        eval_conditional(p, s, c, fuel, cond).1.names == s.names,
    decreases fuel, 3nat, cond, 0nat,
{
    lemma_expression(p, s, c, fuel, cond.condition);
    let (cv, c1) = eval_expression(p, s, c, fuel, cond.condition);
    lemma_block(p, s, c1, fuel, cond.block.statements);
    match cond.next {
        Some(ConditionalNestedOrEndStatement::Nested(next)) => {
            lemma_conditional(p, s, c1, fuel, *next);
        },
        Some(ConditionalNestedOrEndStatement::End(block)) => {
            lemma_block(p, s, c1, fuel, block.statements);
        },
        None => {},
    }
}

proof fn lemma_for(
    p: Program,
    s: ScopeView,
    c: CircuitView,
    fuel: nat,
    index: Seq<char>,
    i: int,
    to: int,
    body: Vec<Statement>,
)
    requires
        s.wf(),
    ensures
        eval_for(p, s, c, fuel, index, i, to, body).2.allocations == c.allocations,
        extends(s, eval_for(p, s, c, fuel, index, i, to, body).1),
        eval_for(p, s, c, fuel, index, i, to, body).1.names == s.names,
    decreases fuel, 3nat, body, body.len() + 1 + (if i < to { to - i } else { 0 }),
{
    if i < to {
        let s1 = s.push_frame().bind(index, Val::U32(i as u32, Wire::Constant));
        s.lemma_push_frame_wf();
        lemma_statements(p, s1, c, fuel, body, 0);
        let (r, s2, c1) = eval_statements(p, s1, c, fuel, body, 0);
        assert(s2.marks.last() == s.names.len());
        let s3 = s2.pop_frame();
        assert(s3.names =~= s.names);
        assert(s3.marks =~= s.marks);
        if r == Ok::<Option<Seq<Val>>, CompilerError>(None) {
            lemma_for(p, s3, c1, fuel, index, i + 1, to, body);
        }
    }
}

/// Compilation is deterministic: two passes of one program on the same
/// circuit and inputs give the same result and the same circuit, gate for gate.
pub proof fn evaluation_is_deterministic(
    p: Program,
    c: CircuitView,
    fuel: nat,
    name: Seq<char>,
    inputs: Seq<Seq<char>>,
    first: (Result<Seq<Val>, CompilerError>, CircuitView),
    second: (Result<Seq<Val>, CompilerError>, CircuitView),
)
    requires
        first == eval_main(p, c, fuel, name, inputs),
        second == eval_main(p, c, fuel, name, inputs),
    ensures
        first.0 == second.0,
        first.1.gates == second.1.gates,
        first.1.allocations == second.1.allocations,
{
}

/// Evaluating an expression never allocates: inputs are allocated only when
/// parameters are bound, so a variable has one allocation however often it
/// is referenced.
pub proof fn expression_allocates_nothing(p: Program, s: ScopeView, c: CircuitView, fuel: nat, e: Expression)
    ensures
        eval_expression(p, s, c, fuel, e).1.allocations == c.allocations,
{
    lemma_expression(p, s, c, fuel, e);
}

/// A variable reference reads its binding, wire included, and emits nothing.
pub proof fn variable_reference_reads_binding(p: Program, s: ScopeView, c: CircuitView, fuel: nat, v: Variable, val: Val)
    requires
        s.lookup(v.name@) == Some(val),
    ensures
        eval_expression(p, s, c, fuel, Expression::Variable(v)) == (Ok::<Val, CompilerError>(val), c),
{
}

/// A variable used as both operands of one operation is read from its single
/// wire both times, and nothing is allocated.
pub proof fn repeated_reference_shares_wire(
    p: Program,
    s: ScopeView,
    c: CircuitView,
    fuel: nat,
    v: Variable,
    n: u32,
    w: Wire,
)
    requires
        s.lookup(v.name@) == Some(Val::U32(n, w)),
        n + n <= u32::MAX,
    ensures
        eval_expression(
            p,
            s,
            c,
            fuel,
            Expression::Binary(
                crate::types::BinaryOperator::Add,
                Box::new(Expression::Variable(v)),
                Box::new(Expression::Variable(v)),
            ),
        ).1 == c.with_gate(crate::circuit::GateOp::Add, w, w, crate::circuit::Witness::U32((n + n) as u32)),
{
    assert(eval_expression(p, s, c, fuel, Expression::Variable(v)) == (Ok::<Val, CompilerError>(Val::U32(n, w)), c));
}

/// An upper slice bound beyond the array's length is rejected.
pub proof fn slice_past_end_is_rejected(items: Seq<Val>, from: Option<crate::types::Integer>, to: crate::types::Integer)
    requires
        to.spec_value() > items.len(),
    ensures
        crate::semantics::slice(items, from, Some(to)) == Err::<Val, CompilerError>(CompilerError::OutOfBounds),
{
}

/// Bindings made inside a conditional's blocks are dropped when it ends: the
/// names bound afterwards, and the open frames, are those bound before.
pub proof fn conditional_bindings_are_local(p: Program, s: ScopeView, c: CircuitView, fuel: nat, cond: ConditionalStatement)
    requires
        s.wf(),
    ensures
        eval_conditional(p, s, c, fuel, cond).1.names == s.names,
        eval_conditional(p, s, c, fuel, cond).1.marks == s.marks,
{
    lemma_conditional(p, s, c, fuel, cond);
}

/// Bindings made inside a loop body are dropped when the loop ends: the names
/// bound afterwards, and the open frames, are those bound before.
pub proof fn loop_bindings_are_local(
    p: Program,
    s: ScopeView,
    c: CircuitView,
    fuel: nat,
    index: Seq<char>,
    from: int,
    to: int,
    body: Vec<Statement>,
)
    requires
        s.wf(),
    ensures
        eval_for(p, s, c, fuel, index, from, to, body).1.names == s.names,
        eval_for(p, s, c, fuel, index, from, to, body).1.marks == s.marks,
{
    lemma_for(p, s, c, fuel, index, from, to, body);
}

/// Each iteration ends by dropping what it bound, so the next one starts from
/// the names bound before the loop.
pub proof fn iteration_starts_fresh(
    p: Program,
    s: ScopeView,
    c: CircuitView,
    fuel: nat,
    index: Seq<char>,
    i: int,
    body: Vec<Statement>,
)
    requires
        s.wf(),
    ensures
        eval_statements(p, s.push_frame().bind(index, Val::U32(i as u32, Wire::Constant)), c, fuel, body, 0).1.pop_frame().names
            == s.names,
{
    let s1 = s.push_frame().bind(index, Val::U32(i as u32, Wire::Constant));
    s.lemma_push_frame_wf();
    lemma_statements(p, s1, c, fuel, body, 0);
    let s2 = eval_statements(p, s1, c, fuel, body, 0).1;
    assert(s2.marks.last() == s.names.len());
    assert(s2.pop_frame().names =~= s.names);
}

/// A struct literal whose members are not the declared fields, in name and
/// order, is rejected before any member is evaluated: nothing is emitted.
pub proof fn struct_literal_requires_declared_order(
    p: Program,
    s: ScopeView,
    c: CircuitView,
    fuel: nat,
    name: Variable,
    members: Vec<StructMember>,
)
    requires
        crate::program::struct_index(p, name.name@) >= 0,
        !shape_matches(p.structs@[crate::program::struct_index(p, name.name@)].fields@, members@),
    ensures
        eval_expression(p, s, c, fuel, Expression::Struct(name, members)) == (
            Err::<Val, CompilerError>(CompilerError::StructShapeMismatch),
            c,
        ),
{
    assert(eval_struct(p, s, c, fuel, name, members) == (
        Err::<Val, CompilerError>(CompilerError::StructShapeMismatch),
        c,
    ));
}

/// A conditional on the constant `true` runs its first block and nothing
/// else: what follows `else` is never evaluated and emits nothing.
pub proof fn constant_true_takes_first_branch(p: Program, s: ScopeView, c: CircuitView, fuel: nat, cond: ConditionalStatement)
    requires
        cond.condition == Expression::Boolean(true),
    ensures
        eval_conditional(p, s, c, fuel, cond) == eval_block(p, s, c, fuel, cond.block.statements),
{
    assert(eval_expression(p, s, c, fuel, cond.condition) == (Ok::<Val, CompilerError>(Val::Boolean(true, Wire::Constant)), c));
}

/// A conditional on the constant `false` never evaluates its first block.
pub proof fn constant_false_skips_first_branch(p: Program, s: ScopeView, c: CircuitView, fuel: nat, cond: ConditionalStatement)
    requires
        cond.condition == Expression::Boolean(false),
        cond.next.is_none(),
    ensures
        eval_conditional(p, s, c, fuel, cond) == (Ok::<Option<Seq<Val>>, CompilerError>(None), s, c),
{
    assert(eval_expression(p, s, c, fuel, cond.condition) == (Ok::<Val, CompilerError>(Val::Boolean(false, Wire::Constant)), c));
}

/// Once its inputs are read, each parameter of the target function has one
/// allocation, in order: a public input when the parameter is declared
/// `public`, a private witness otherwise. The body allocates nothing more.
pub proof fn parameter_visibility(p: Program, c: CircuitView, fuel: nat, name: Seq<char>, inputs: Seq<Seq<char>>, k: int)
    requires
        function_index(p, name) >= 0,
        parse_inputs(p.functions@[function_index(p, name)].parameters@, inputs, 0, Seq::empty()) is Ok,
        0 <= k < p.functions@[function_index(p, name)].parameters@.len(),
    ensures
        eval_main(p, c, fuel, name, inputs).1.allocations.len() == c.allocations.len()
            + p.functions@[function_index(p, name)].parameters@.len(),
        eval_main(p, c, fuel, name, inputs).1.allocations[c.allocations.len() + k].visibility == (if p.functions@[function_index(p, name)].parameters@[k].private {
            Visibility::Private
        } else {
            Visibility::Public
        }),
{
    let f = p.functions@[function_index(p, name)];
    lemma_parse_inputs_len(f.parameters@, inputs, 0, Seq::empty());
    let ws = parse_inputs(f.parameters@, inputs, 0, Seq::empty())->Ok_0;
    let c1 = CircuitView { allocations: c.allocations + allocations_for(f.parameters@, ws), gates: c.gates };
    let s = crate::parameter::parameter_scope(f.parameters@, ws, c.allocations.len() as int);
    lemma_statements(p, s, c1, fuel, f.statements, 0);
    assert(c1.allocations[c.allocations.len() + k] == allocations_for(f.parameters@, ws)[k]);
}

proof fn lemma_find_binding_prefix(a: Seq<Seq<char>>, b: Seq<Seq<char>>, name: Seq<char>, k: int)
    requires
        0 <= k <= a.len(),
        k <= b.len(),
        forall|j: int| 0 <= j < k ==> #[trigger] a[j] == b[j],
    ensures
        crate::scope::find_binding(a, name, k) == crate::scope::find_binding(b, name, k),
    decreases k,
{
    if k > 0 {
        lemma_find_binding_prefix(a, b, name, k - 1);
    }
}

/// A name that one iteration binds, and that is bound neither before the loop
/// nor globally, cannot be read at the start of the next iteration: the read
/// fails with `UnresolvedVariable` and emits nothing.
pub proof fn next_iteration_cannot_read_earlier_binding(
    p: Program,
    s: ScopeView,
    c: CircuitView,
    c_next: CircuitView,
    fuel: nat,
    index: Seq<char>,
    i: int,
    body: Vec<Statement>,
    v: Variable,
)
    requires
        s.wf(),
        s.lookup(v.name@) is None,
        lookup_global(p, v.name@) is None,
        v.name@ != index,
    ensures
        ({
            let after = eval_statements(p, s.push_frame().bind(index, Val::U32(i as u32, Wire::Constant)), c, fuel, body, 0).1.pop_frame();
            let next = after.push_frame().bind(index, Val::U32((i + 1) as u32, Wire::Constant));
            eval_expression(p, next, c_next, fuel, Expression::Variable(v)) == (
                Err::<Val, CompilerError>(CompilerError::UnresolvedVariable),
                c_next,
            )
        }),
{
    iteration_starts_fresh(p, s, c, fuel, index, i, body);
    let after = eval_statements(p, s.push_frame().bind(index, Val::U32(i as u32, Wire::Constant)), c, fuel, body, 0).1.pop_frame();
    let next = after.push_frame().bind(index, Val::U32((i + 1) as u32, Wire::Constant));
    let n = s.names.len() as int;
    assert(next.names == s.names.push(index));
    assert(next.names[n] == index);
    assert forall|j: int| 0 <= j < n implies #[trigger] next.names[j] == s.names[j] by {}
    lemma_find_binding_prefix(next.names, s.names, v.name@, n);
    crate::scope::lemma_find_binding(s.names, v.name@, n);
    assert(crate::scope::find_binding(next.names, v.name@, n + 1) == crate::scope::find_binding(next.names, v.name@, n));
    assert(next.find(v.name@) == -1);
    assert(lookup_variable(p, next, v.name@) == Err::<Val, CompilerError>(CompilerError::UnresolvedVariable));
}

/// `v + v + ... + v` with `n` leaves, grouped from the left.
pub open spec fn repeated_sum(v: Variable, n: nat) -> Expression
    decreases n,
{
    if n <= 1 {
        Expression::Variable(v)
    } else {
        Expression::Binary(
            crate::types::BinaryOperator::Add,
            Box::new(repeated_sum(v, (n - 1) as nat)),
            Box::new(Expression::Variable(v)),
        )
    }
}

/// A field element variable read at each of the `n` leaves of an addition
/// tree: the tree evaluates to `n * a` in the field, emits `n - 1` addition
/// gates and allocates nothing, so the variable keeps its one allocation.
pub proof fn repeated_reads_sum_without_allocating(
    p: Program,
    s: ScopeView,
    c: CircuitView,
    fuel: nat,
    v: Variable,
    a: u64,
    w: Wire,
    n: nat,
)
    requires
        s.lookup(v.name@) == Some(Val::FieldElement(a, w)),
        (a as int) < crate::field_element::modulus(),
        n >= 1,
    ensures
        eval_expression(p, s, c, fuel, repeated_sum(v, n)).0 matches Ok(Val::FieldElement(x, _)) && x as int == (n
            * a) % crate::field_element::modulus(),
        eval_expression(p, s, c, fuel, repeated_sum(v, n)).1.allocations == c.allocations,
        eval_expression(p, s, c, fuel, repeated_sum(v, n)).1.gates.len() == c.gates.len() + n - 1,
    decreases n,
{
    let m = crate::field_element::modulus();
    if n == 1 {
        vstd::arithmetic::div_mod::lemma_small_mod(a as nat, m as nat);
        assert(a as int == (1 * a) % m);
    } else {
        repeated_reads_sum_without_allocating(p, s, c, fuel, v, a, w, (n - 1) as nat);
        let (lv, c1) = eval_expression(p, s, c, fuel, repeated_sum(v, (n - 1) as nat));
        assert(eval_expression(p, s, c1, fuel, Expression::Variable(v)) == (Ok::<Val, CompilerError>(Val::FieldElement(a, w)), c1));
        let x = lv->Ok_0->FieldElement_0;
        vstd::arithmetic::div_mod::lemma_add_mod_noop(((n - 1) * a) as int, a as int, m);
        vstd::arithmetic::div_mod::lemma_mod_twice(((n - 1) * a) as int, m);
        assert((n - 1) * a + a == n * a) by (nonlinear_arith);
        assert(((x as int + a as int) % m) == (n * a) % m) by {
            vstd::arithmetic::div_mod::lemma_add_mod_noop(x as int, a as int, m);
            vstd::arithmetic::div_mod::lemma_mod_twice(((n - 1) * a) as int, m);
        }
    }
}

/// The statement `x = x + index`.
pub open spec fn accumulate(x: Variable, index: Variable) -> Statement {
    Statement::Definition(
        Assignee::Variable(x),
        Expression::Binary(
            crate::types::BinaryOperator::Add,
            Box::new(Expression::Variable(x)),
            Box::new(Expression::Variable(index)),
        ),
    )
}

/// Unrolling `for index in i..to { x = x + index; }` invokes the addition
/// gadget once per iteration and nothing else: exactly `to - i` gates, all
/// `Add`, appended after the gates already there, and no allocation. `x` must
/// be an integer bound before the loop, and the sums must not overflow.
pub proof fn loop_emits_one_addition_per_iteration(
    p: Program,
    s: ScopeView,
    c: CircuitView,
    fuel: nat,
    x: Variable,
    index: Variable,
    i: int,
    to: int,
    v: u32,
    w: Wire,
    body: Vec<Statement>,
)
    requires
        s.wf(),
        s.lookup(x.name@) == Some(Val::U32(v, w)),
        x.name@ != index.name@,
        body@ == seq![accumulate(x, index)],
        0 <= i,
        to <= u32::MAX,
        (if i < to { (to - i) * to } else { 0 }) + v <= u32::MAX,
    ensures
        eval_for(p, s, c, fuel, index.name@, i, to, body).0 == Ok::<Option<Seq<Val>>, CompilerError>(None),
        eval_for(p, s, c, fuel, index.name@, i, to, body).2.allocations == c.allocations,
        eval_for(p, s, c, fuel, index.name@, i, to, body).2.gates.len() == c.gates.len() + (if i < to {
            to - i
        } else {
            0
        }),
        forall|g: int|
            0 <= g < c.gates.len() ==> #[trigger] eval_for(p, s, c, fuel, index.name@, i, to, body).2.gates[g]
                == c.gates[g],
        forall|g: int|
            c.gates.len() <= g < eval_for(p, s, c, fuel, index.name@, i, to, body).2.gates.len()
                ==> #[trigger] eval_for(p, s, c, fuel, index.name@, i, to, body).2.gates[g].op
                == crate::circuit::GateOp::Add,
    decreases to - i,
{
    if i < to {
        let n = s.names.len() as int;
        let y = x.name@;
        crate::scope::lemma_find_binding(s.names, y, n);
        let j = s.find(y);
        assert(0 <= j < n);
        let k = i as u32;
        let s1 = s.push_frame().bind(index.name@, Val::U32(k, Wire::Constant));
        s.lemma_push_frame_wf();
        // in the iteration's frame, `x` still reads the outer binding
        assert forall|t: int| 0 <= t < n implies #[trigger] s1.names[t] == s.names[t] by {}
        lemma_find_binding_prefix(s1.names, s.names, y, n);
        assert(crate::scope::find_binding(s1.names, y, n + 1) == crate::scope::find_binding(s1.names, y, n));
        assert(s1.find(y) == j);
        assert(s1.lookup(y) == Some(Val::U32(v, w)));
        assert(s1.find(index.name@) == n);
        assert(s1.lookup(index.name@) == Some(Val::U32(k, Wire::Constant)));
        let e = Expression::Binary(
            crate::types::BinaryOperator::Add,
            Box::new(Expression::Variable(x)),
            Box::new(Expression::Variable(index)),
        );
        assert(eval_expression(p, s1, c, fuel, Expression::Variable(x)) == (Ok::<Val, CompilerError>(Val::U32(v, w)), c));
        assert(eval_expression(p, s1, c, fuel, Expression::Variable(index)) == (
            Ok::<Val, CompilerError>(Val::U32(k, Wire::Constant)),
            c,
        ));
        assert(k < to);
        assert(v + k <= u32::MAX) by (nonlinear_arith)
            requires
                (to - i) * to + v <= u32::MAX,
                k < to,
                i < to,
        ;
        let sum = (v + k) as u32;
        let c1 = c.with_gate(crate::circuit::GateOp::Add, w, Wire::Constant, crate::circuit::Witness::U32(sum));
        let val = Val::U32(sum, c.next_gate());
        assert(eval_expression(p, s1, c, fuel, e) == (Ok::<Val, CompilerError>(val), c1));
        assert(eval_assignee(p, s1, c1, fuel, Assignee::Variable(x)) == (
            Ok::<(Seq<char>, Seq<crate::semantics::AccessStep>), CompilerError>((y, Seq::empty())),
            c1,
        ));
        let s2 = s1.store(y, val);
        assert(eval_statement(p, s1, c, fuel, accumulate(x, index)) == (Ok::<Option<Seq<Val>>, CompilerError>(None), s2, c1));
        assert(eval_statements(p, s2, c1, fuel, body, 1) == (Ok::<Option<Seq<Val>>, CompilerError>(None), s2, c1));
        assert(eval_statements(p, s1, c, fuel, body, 0) == (Ok::<Option<Seq<Val>>, CompilerError>(None), s2, c1));
        let s3 = s2.pop_frame();
        assert(s2.marks.last() == n);
        assert(s3.names =~= s.names);
        assert(s3.values =~= s.values.update(j, val));
        assert(s3.marks =~= s.marks);
        assert(s3.wf());
        assert(s3.find(y) == j);
        assert(s3.lookup(y) == Some(val));
        assert(((to - (i + 1)) * to + sum <= u32::MAX)) by (nonlinear_arith)
            requires
                (to - i) * to + v <= u32::MAX,
                sum == v + k,
                k < to,
                i < to,
        ;
        loop_emits_one_addition_per_iteration(p, s3, c1, fuel, x, index, i + 1, to, sum, c.next_gate(), body);
        let r = eval_for(p, s3, c1, fuel, index.name@, i + 1, to, body);
        assert(eval_for(p, s, c, fuel, index.name@, i, to, body) == r);
        assert forall|g: int| 0 <= g < c.gates.len() implies #[trigger] r.2.gates[g] == c.gates[g] by {
            assert(r.2.gates[g] == c1.gates[g]);
        }
        assert forall|g: int| c.gates.len() <= g < r.2.gates.len() implies #[trigger] r.2.gates[g].op
            == crate::circuit::GateOp::Add by {
            if g == c.gates.len() {
                assert(r.2.gates[g] == c1.gates[g]);
            }
        }
    }
}

} // verus!
