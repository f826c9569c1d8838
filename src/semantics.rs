//! The reference semantics of constraint generation.
//!
//! Each function here states what evaluating one construct does: the value or
//! error it yields and the circuit (and, for statements, the scope) it leaves.
//! Evaluation is strictly left to right and stops at the first error. `fuel`
//! bounds the depth of nested function calls.
use crate::boolean::{eq_gadget, logic_gadget, not_gadget};
use crate::circuit::{CircuitView, GateOp, Wire};
use crate::errors::CompilerError;
use crate::field_element::{field_gadget, modulus};
use crate::integer::u32_gadget;
use crate::program::{function_index, lookup_global, struct_index};
use crate::scope::ScopeView;
use crate::types::{
    Assignee, BinaryOperator, ConditionalNestedOrEndStatement, ConditionalStatement, Expression,
    Function, Integer, Parameter, Program, RangeOrExpression, SpreadOrExpression, Statement,
    StructField, StructMember, Variable,
};
use crate::value::{first_name, Val};
use vstd::prelude::*;

verus! {

/// One step from a variable into the part of its value that a definition
/// replaces.
#[derive(Debug)]
pub enum AccessStep {
    Index(usize),
    Range(Option<Integer>, Option<Integer>),
    Member(String),
}

/// A variable resolves in the activation's scope first, then in the global table.
pub open spec fn lookup_variable(p: Program, s: ScopeView, name: Seq<char>) -> Result<Val, CompilerError> {
    match s.lookup(name) {
        Some(v) => Ok(v),
        None => match lookup_global(p, name) {
            Some(v) => Ok(v),
            None => Err(CompilerError::UnresolvedVariable),
        },
    }
}

/// Integer or field arithmetic on two operands of the same kind.
pub open spec fn arithmetic(op: GateOp, l: Val, r: Val, c: CircuitView) -> (
    Result<Val, CompilerError>,
    CircuitView,
) {
    match (l, r) {
        (Val::U32(a, wa), Val::U32(b, wb)) => u32_gadget(op, a, wa, b, wb, c),
        (Val::FieldElement(a, wa), Val::FieldElement(b, wb)) => field_gadget(op, a, wa, b, wb, c),
        _ => (Err(CompilerError::TypeMismatch), c),
    }
}

pub open spec fn is_comparison(op: BinaryOperator) -> bool {
    op == BinaryOperator::Geq || op == BinaryOperator::Gt || op == BinaryOperator::Leq || op
        == BinaryOperator::Lt
}

/// The gadget of a binary operator, applied to evaluated operands.
pub open spec fn apply_binary(op: BinaryOperator, l: Val, r: Val, c: CircuitView) -> (
    Result<Val, CompilerError>,
    CircuitView,
) {
    match op {
        BinaryOperator::Add => arithmetic(GateOp::Add, l, r, c),
        BinaryOperator::Sub => arithmetic(GateOp::Sub, l, r, c),
        BinaryOperator::Mul => arithmetic(GateOp::Mul, l, r, c),
        BinaryOperator::Div => arithmetic(GateOp::Div, l, r, c),
        BinaryOperator::Pow => arithmetic(GateOp::Pow, l, r, c),
        BinaryOperator::Eq => eq_gadget(l, r, c),
        BinaryOperator::And => logic_gadget(GateOp::And, l, r, c),
        BinaryOperator::Or => logic_gadget(GateOp::Or, l, r, c),
        _ => (Err(CompilerError::UnsupportedConstruct), c),
    }
}

pub open spec fn bound_or(b: Option<Integer>, default: int) -> int {
    match b {
        Some(n) => n.spec_value() as int,
        None => default,
    }
}

/// `items[from..to]`; an omitted lower bound is 0, an omitted upper bound the length.
pub open spec fn slice(items: Seq<Val>, from: Option<Integer>, to: Option<Integer>) -> Result<Val, CompilerError> {
    let f = bound_or(from, 0);
    let t = bound_or(to, items.len() as int);
    if f <= t && t <= items.len() {
        Ok(Val::Array(items.subrange(f, t)))
    } else {
        Err(CompilerError::OutOfBounds)
    }
}

/// The member `name` of a struct instance.
pub open spec fn struct_access(v: Val, name: Seq<char>) -> Result<Val, CompilerError> {
    match v {
        Val::StructInstance(_, names, vals) => if first_name(names, name, 0) >= 0 && first_name(names, name, 0) < vals.len() {
            Ok(vals[first_name(names, name, 0)])
        } else {
            Err(CompilerError::StructShapeMismatch)
        },
        _ => Err(CompilerError::TypeMismatch),
    }
}

pub open spec fn field_names(fields: Seq<StructField>) -> Seq<Seq<char>> {
    fields.map_values(|f: StructField| f.variable.name@)
}

/// A literal's members match the declaration's fields exactly, in name and order.
pub open spec fn shape_matches(fields: Seq<StructField>, members: Seq<StructMember>) -> bool {
    &&& fields.len() == members.len()
    &&& forall|i: int| 0 <= i < fields.len() ==> #[trigger] fields[i].variable.name@ == members[i].variable.name@
}

/// What a call evaluates to: its only returned value, or the whole tuple.
pub open spec fn return_value(vals: Seq<Val>) -> Val {
    if vals.len() == 1 {
        vals[0]
    } else {
        Val::Return(vals)
    }
}

/// The scope of a new activation: each parameter bound to its argument.
pub open spec fn bind_parameters(params: Seq<Parameter>, args: Seq<Val>) -> ScopeView
    decreases params.len(),
{
    if params.len() == 0 || args.len() == 0 {
        ScopeView::empty()
    } else {
        bind_parameters(params.drop_last(), args.drop_last()).bind(params.last().variable.name@, args.last())
    }
}

pub open spec fn eval_expression(p: Program, s: ScopeView, c: CircuitView, fuel: nat, e: Expression) -> (
    Result<Val, CompilerError>,
    CircuitView,
)
    decreases fuel, 1nat, e, 1nat,
{
    match e {
        Expression::Variable(v) => (lookup_variable(p, s, v.name@), c),
        Expression::Integer(n) => (Ok(Val::U32(n.spec_value(), Wire::Constant)), c),
        Expression::FieldElement(f) => (Ok(Val::FieldElement(((f as int) % modulus()) as u64, Wire::Constant)), c),
        Expression::Boolean(b) => (Ok(Val::Boolean(b, Wire::Constant)), c),
        Expression::Binary(op, l, r) => if is_comparison(op) {
            (Err(CompilerError::UnsupportedConstruct), c)
        } else {
            let (lv, c1) = eval_expression(p, s, c, fuel, *l);
            match lv {
                Err(err) => (Err(err), c1),
                Ok(lv) => {
                    let (rv, c2) = eval_expression(p, s, c1, fuel, *r);
                    match rv {
                        Err(err) => (Err(err), c2),
                        Ok(rv) => apply_binary(op, lv, rv, c2),
                    }
                },
            }
        },
        Expression::Not(x) => {
            let (v, c1) = eval_expression(p, s, c, fuel, *x);
            match v {
                Err(err) => (Err(err), c1),
                Ok(v) => not_gadget(v, c1),
            }
        },
        // as for conditional statements, the condition must be a constant and
        // only the selected branch is evaluated
        Expression::IfElse(cond, yes, no) => {
            let (cv, c1) = eval_expression(p, s, c, fuel, *cond);
            match cv {
                Err(err) => (Err(err), c1),
                Ok(Val::Boolean(t, Wire::Constant)) => if t {
                    eval_expression(p, s, c1, fuel, *yes)
                } else {
                    eval_expression(p, s, c1, fuel, *no)
                },
                Ok(_) => (Err(CompilerError::TypeMismatch), c1),
            }
        },
        Expression::Array(elements) => {
            let (items, c1) = eval_array(p, s, c, fuel, elements, 0, Seq::empty());
            match items {
                Err(err) => (Err(err), c1),
                Ok(items) => (Ok(Val::Array(items)), c1),
            }
        },
        Expression::ArrayAccess(array, index) => {
            let (av, c1) = eval_expression(p, s, c, fuel, *array);
            match av {
                Err(err) => (Err(err), c1),
                Ok(av) => eval_array_access(p, s, c1, fuel, av, *index),
            }
        },
        Expression::Struct(name, members) => eval_struct(p, s, c, fuel, name, members),
        Expression::StructMemberAccess(x, member) => {
            let (v, c1) = eval_expression(p, s, c, fuel, *x);
            match v {
                Err(err) => (Err(err), c1),
                Ok(v) => (struct_access(v, member.name@), c1),
            }
        },
        Expression::FunctionCall(f, args) => {
            let (fv, c1) = eval_expression(p, s, c, fuel, *f);
            match fv {
                Err(err) => (Err(err), c1),
                Ok(fv) => eval_function_access(p, s, c1, fuel, fv, args),
            }
        },
    }
}

/// A struct literal: the struct must be declared and the members must match
/// its fields exactly, before any member is evaluated.
pub open spec fn eval_struct(
    p: Program,
    s: ScopeView,
    c: CircuitView,
    fuel: nat,
    name: Variable,
    members: Vec<StructMember>,
) -> (Result<Val, CompilerError>, CircuitView)
    decreases fuel, 1nat, members, members.len() + 1,
{
    let j = struct_index(p, name.name@);
    if j < 0 {
        (Err(CompilerError::UndeclaredType), c)
    } else if !shape_matches(p.structs@[j].fields@, members@) {
        (Err(CompilerError::StructShapeMismatch), c)
    } else {
        let (vals, c1) = eval_members(p, s, c, fuel, members, 0, Seq::empty());
        match vals {
            Err(err) => (Err(err), c1),
            Ok(vals) => (Ok(Val::StructInstance(name.name@, field_names(p.structs@[j].fields@), vals)), c1),
        }
    }
}

/// A call of an evaluated callee: the arguments are evaluated in order, then
/// the callee runs in an activation of its own.
pub open spec fn eval_function_access(
    p: Program,
    s: ScopeView,
    c: CircuitView,
    fuel: nat,
    fv: Val,
    args: Vec<Expression>,
) -> (Result<Val, CompilerError>, CircuitView)
    decreases fuel, 1nat, args, args.len() + 1,
{
    match fv {
        Val::Function(name) => {
            let (vals, c1) = eval_arguments(p, s, c, fuel, args, 0, Seq::empty());
            match vals {
                Err(err) => (Err(err), c1),
                Ok(vals) => if function_index(p, name) < 0 {
                    (Err(CompilerError::UnresolvedVariable), c1)
                } else if fuel == 0 {
                    (Err(CompilerError::CallDepthExceeded), c1)
                } else {
                    eval_call(p, c1, (fuel - 1) as nat, p.functions@[function_index(p, name)], vals)
                },
            }
        },
        _ => (Err(CompilerError::TypeMismatch), c),
    }
}

/// The elements of an array literal from the `k`-th on, after `acc`.
pub open spec fn eval_array(
    p: Program,
    s: ScopeView,
    c: CircuitView,
    fuel: nat,
    elements: Vec<SpreadOrExpression>,
    k: int,
    acc: Seq<Val>,
) -> (Result<Seq<Val>, CompilerError>, CircuitView)
    decreases fuel, 1nat, elements, elements.len() - k,
{
    if k < 0 || k >= elements.len() {
        (Ok(acc), c)
    } else {
        match elements[k] {
            // a spread must name a bound array
            SpreadOrExpression::Spread(x) => if x is Variable {
                let (v, c1) = eval_expression(p, s, c, fuel, x);
                match v {
                    Err(err) => (Err(err), c1),
                    Ok(Val::Array(items)) => eval_array(p, s, c1, fuel, elements, k + 1, acc + items),
                    Ok(_) => (Err(CompilerError::TypeMismatch), c1),
                }
            } else {
                (Err(CompilerError::TypeMismatch), c)
            },
            SpreadOrExpression::Expression(x) => {
                let (v, c1) = eval_expression(p, s, c, fuel, x);
                match v {
                    Err(err) => (Err(err), c1),
                    Ok(v) => eval_array(p, s, c1, fuel, elements, k + 1, acc.push(v)),
                }
            },
        }
    }
}

/// The values of expressions from the `k`-th on, after `acc`.
pub open spec fn eval_arguments(
    p: Program,
    s: ScopeView,
    c: CircuitView,
    fuel: nat,
    args: Vec<Expression>,
    k: int,
    acc: Seq<Val>,
) -> (Result<Seq<Val>, CompilerError>, CircuitView)
    decreases fuel, 1nat, args, args.len() - k,
{
    if k < 0 || k >= args.len() {
        (Ok(acc), c)
    } else {
        let (v, c1) = eval_expression(p, s, c, fuel, args[k]);
        match v {
            Err(err) => (Err(err), c1),
            Ok(v) => eval_arguments(p, s, c1, fuel, args, k + 1, acc.push(v)),
        }
    }
}

/// The values of struct literal members from the `k`-th on, after `acc`.
pub open spec fn eval_members(
    p: Program,
    s: ScopeView,
    c: CircuitView,
    fuel: nat,
    members: Vec<StructMember>,
    k: int,
    acc: Seq<Val>,
) -> (Result<Seq<Val>, CompilerError>, CircuitView)
    decreases fuel, 1nat, members, members.len() - k,
{
    if k < 0 || k >= members.len() {
        (Ok(acc), c)
    } else {
        let (v, c1) = eval_expression(p, s, c, fuel, members[k].expression);
        match v {
            Err(err) => (Err(err), c1),
            Ok(v) => eval_members(p, s, c1, fuel, members, k + 1, acc.push(v)),
        }
    }
}

/// An index expression, which must evaluate to an integer.
pub open spec fn eval_index(p: Program, s: ScopeView, c: CircuitView, fuel: nat, x: Expression) -> (
    Result<usize, CompilerError>,
    CircuitView,
)
    decreases fuel, 1nat, x, 2nat,
{
    let (v, c1) = eval_expression(p, s, c, fuel, x);
    match v {
        Err(err) => (Err(err), c1),
        Ok(Val::U32(n, _)) => (Ok(n as usize), c1),
        Ok(_) => (Err(CompilerError::TypeMismatch), c1),
    }
}

/// An element or a slice of an evaluated array.
pub open spec fn eval_array_access(
    p: Program,
    s: ScopeView,
    c: CircuitView,
    fuel: nat,
    av: Val,
    index: RangeOrExpression,
) -> (Result<Val, CompilerError>, CircuitView)
    decreases fuel, 1nat, index, 3nat,
{
    match av {
        Val::Array(items) => match index {
            RangeOrExpression::Range(from, to) => (slice(items, from, to), c),
            RangeOrExpression::Expression(x) => {
                let (i, c1) = eval_index(p, s, c, fuel, x);
                match i {
                    Err(err) => (Err(err), c1),
                    Ok(i) => if i < items.len() {
                        (Ok(items[i as int]), c1)
                    } else {
                        (Err(CompilerError::OutOfBounds), c1)
                    },
                }
            },
        },
        _ => (Err(CompilerError::TypeMismatch), c),
    }
}

/// One activation of `f` on evaluated arguments.
pub open spec fn eval_call(p: Program, c: CircuitView, fuel: nat, f: Function, args: Seq<Val>) -> (
    Result<Val, CompilerError>,
    CircuitView,
)
    decreases fuel, 4nat, f, 0nat,
{
    if args.len() != f.parameters@.len() {
        (Err(CompilerError::TypeMismatch), c)
    } else {
        let s = bind_parameters(f.parameters@, args);
        let (r, _, c1) = eval_statements(p, s, c, fuel, f.statements, 0);
        match r {
            Err(err) => (Err(err), c1),
            Ok(Some(vals)) => (Ok(return_value(vals)), c1),
            Ok(None) => (Ok(return_value(Seq::empty())), c1),
        }
    }
}

/// The path of a definition's target, its indices evaluated from the root out.
pub open spec fn eval_assignee(p: Program, s: ScopeView, c: CircuitView, fuel: nat, a: Assignee) -> (
    Result<(Seq<char>, Seq<AccessStep>), CompilerError>,
    CircuitView,
)
    decreases fuel, 2nat, a, 3nat,
{
    match a {
        Assignee::Variable(v) => (Ok((v.name@, Seq::empty())), c),
        Assignee::Array(inner, index) => {
            let (path, c1) = eval_assignee(p, s, c, fuel, *inner);
            match path {
                Err(err) => (Err(err), c1),
                Ok((root, steps)) => match index {
                    RangeOrExpression::Range(from, to) => (
                        Ok((root, steps.push(AccessStep::Range(from, to)))),
                        c1,
                    ),
                    RangeOrExpression::Expression(x) => {
                        let (i, c2) = eval_index(p, s, c1, fuel, x);
                        match i {
                            Err(err) => (Err(err), c2),
                            Ok(i) => (Ok((root, steps.push(AccessStep::Index(i)))), c2),
                        }
                    },
                },
            }
        },
        Assignee::StructMember(inner, member) => {
            let (path, c1) = eval_assignee(p, s, c, fuel, *inner);
            match path {
                Err(err) => (Err(err), c1),
                Ok((root, steps)) => (Ok((root, steps.push(AccessStep::Member(member.name)))), c1),
            }
        },
    }
}

/// `old` with the part at `steps[k..]` replaced by `v`.
pub open spec fn update_value(old: Val, steps: Seq<AccessStep>, k: int, v: Val) -> Result<Val, CompilerError>
    decreases steps.len() - k,
{
    if k < 0 || k >= steps.len() {
        Ok(v)
    } else {
        match steps[k] {
            AccessStep::Index(i) => match old {
                Val::Array(items) => if i < items.len() {
                    match update_value(items[i as int], steps, k + 1, v) {
                        Ok(x) => Ok(Val::Array(items.update(i as int, x))),
                        Err(err) => Err(err),
                    }
                } else {
                    Err(CompilerError::OutOfBounds)
                },
                _ => Err(CompilerError::TypeMismatch),
            },
            AccessStep::Range(from, to) => if k + 1 < steps.len() {
                Err(CompilerError::UnsupportedConstruct)
            } else {
                match old {
                    Val::Array(items) => {
                        let f = bound_or(from, 0);
                        let t = bound_or(to, items.len() as int);
                        if f <= t && t <= items.len() {
                            match v {
                                Val::Array(new_items) => if new_items.len() == t - f {
                                    Ok(Val::Array(items.subrange(0, f) + new_items + items.subrange(t, items.len() as int)))
                                } else {
                                    Err(CompilerError::TypeMismatch)
                                },
                                _ => Err(CompilerError::TypeMismatch),
                            }
                        } else {
                            Err(CompilerError::OutOfBounds)
                        }
                    },
                    _ => Err(CompilerError::TypeMismatch),
                }
            },
            AccessStep::Member(m) => match old {
                Val::StructInstance(name, names, vals) => {
                    let j = first_name(names, m@, 0);
                    if 0 <= j < vals.len() {
                        match update_value(vals[j], steps, k + 1, v) {
                            Ok(x) => Ok(Val::StructInstance(name, names, vals.update(j, x))),
                            Err(err) => Err(err),
                        }
                    } else {
                        Err(CompilerError::StructShapeMismatch)
                    }
                },
                _ => Err(CompilerError::TypeMismatch),
            },
        }
    }
}

/// Stores `v` at the path: a bare variable is bound or overwritten; a path
/// into a value needs the variable bound in the activation.
pub open spec fn assign(s: ScopeView, root: Seq<char>, steps: Seq<AccessStep>, v: Val) -> Result<ScopeView, CompilerError> {
    if steps.len() == 0 {
        Ok(s.store(root, v))
    } else {
        match s.lookup(root) {
            None => Err(CompilerError::UnresolvedVariable),
            Some(old) => match update_value(old, steps, 0, v) {
                Ok(x) => Ok(s.store(root, x)),
                Err(err) => Err(err),
            },
        }
    }
}

/// The outcome of statements: an error, the values of a `Return`, or `None`
/// when the statements ran to their end; with the scope and circuit after them.
pub open spec fn eval_statement(p: Program, s: ScopeView, c: CircuitView, fuel: nat, st: Statement) -> (
    Result<Option<Seq<Val>>, CompilerError>,
    ScopeView,
    CircuitView,
)
    decreases fuel, 3nat, st, 0nat,
{
    match st {
        Statement::Definition(a, e) => {
            let (v, c1) = eval_expression(p, s, c, fuel, e);
            match v {
                Err(err) => (Err(err), s, c1),
                Ok(v) => {
                    let (path, c2) = eval_assignee(p, s, c1, fuel, a);
                    match path {
                        Err(err) => (Err(err), s, c2),
                        Ok((root, steps)) => match assign(s, root, steps, v) {
                            Err(err) => (Err(err), s, c2),
                            Ok(s2) => (Ok(None), s2, c2),
                        },
                    }
                },
            }
        },
        Statement::Return(es) => {
            let (vals, c1) = eval_arguments(p, s, c, fuel, es, 0, Seq::empty());
            match vals {
                Err(err) => (Err(err), s, c1),
                Ok(vals) => (Ok(Some(vals)), s, c1),
            }
        },
        Statement::Conditional(cond) => eval_conditional(p, s, c, fuel, cond),
        Statement::For(index, from, to, body) => eval_for(
            p,
            s,
            c,
            fuel,
            index.name@,
            from.spec_value() as int,
            to.spec_value() as int,
            body,
        ),
    }
}

/// Statements from the `k`-th on, stopping at the first `Return` or error.
pub open spec fn eval_statements(
    p: Program,
    s: ScopeView,
    c: CircuitView,
    fuel: nat,
    stmts: Vec<Statement>,
    k: int,
) -> (Result<Option<Seq<Val>>, CompilerError>, ScopeView, CircuitView)
    decreases fuel, 3nat, stmts, stmts.len() - k,
{
    if k < 0 || k >= stmts.len() {
        (Ok(None), s, c)
    } else {
        let (r, s1, c1) = eval_statement(p, s, c, fuel, stmts[k]);
        match r {
            Ok(None) => eval_statements(p, s1, c1, fuel, stmts, k + 1),
            _ => (r, s1, c1),
        }
    }
}

/// A block runs in a frame of its own, dropped when it ends.
pub open spec fn eval_block(p: Program, s: ScopeView, c: CircuitView, fuel: nat, stmts: Vec<Statement>) -> (
    Result<Option<Seq<Val>>, CompilerError>,
    ScopeView,
    CircuitView,
)
    decreases fuel, 3nat, stmts, stmts.len() + 1,
{
    let (r, s1, c1) = eval_statements(p, s.push_frame(), c, fuel, stmts, 0);
    (r, s1.pop_frame(), c1)
}

/// The condition must be a constant Boolean, known before proving; a Boolean
/// that lives on an input or a gate is refused, since letting a witness pick
/// the constrained branch would leave the choice unconstrained. Only the
/// selected branch is evaluated: a circuit that branches on a witness would
/// need both branches and a boolean multiplexer, which this engine does not
/// build.
pub open spec fn eval_conditional(
    p: Program,
    s: ScopeView,
    c: CircuitView,
    fuel: nat,
    cond: ConditionalStatement,
) -> (Result<Option<Seq<Val>>, CompilerError>, ScopeView, CircuitView)
    decreases fuel, 3nat, cond, 0nat,
{
    let (cv, c1) = eval_expression(p, s, c, fuel, cond.condition);
    match cv {
        Err(err) => (Err(err), s, c1),
        Ok(Val::Boolean(t, Wire::Constant)) => if t {
            eval_block(p, s, c1, fuel, cond.block.statements)
        } else {
            match cond.next {
                None => (Ok(None), s, c1),
                Some(ConditionalNestedOrEndStatement::Nested(next)) => eval_conditional(p, s, c1, fuel, *next),
                Some(ConditionalNestedOrEndStatement::End(block)) => eval_block(p, s, c1, fuel, block.statements),
            }
        },
        Ok(_) => (Err(CompilerError::TypeMismatch), s, c1),
    }
}

/// The iterations `i..to` of a loop, unrolled; each runs the body in a fresh
/// frame holding only the index.
pub open spec fn eval_for(
    p: Program,
    s: ScopeView,
    c: CircuitView,
    fuel: nat,
    index: Seq<char>,
    i: int,
    to: int,
    body: Vec<Statement>,
) -> (Result<Option<Seq<Val>>, CompilerError>, ScopeView, CircuitView)
    decreases fuel, 3nat, body, body.len() + 1 + (if i < to { to - i } else { 0 }),
{
    if i >= to {
        (Ok(None), s, c)
    } else {
        let s1 = s.push_frame().bind(index, Val::U32(i as u32, Wire::Constant));
        let (r, s2, c1) = eval_statements(p, s1, c, fuel, body, 0);
        let s3 = s2.pop_frame();
        match r {
            Ok(None) => eval_for(p, s3, c1, fuel, index, i + 1, to, body),
            _ => (r, s3, c1),
        }
    }
}

} // verus!
