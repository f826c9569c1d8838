//! Lowering untyped statements into typed statements.
use crate::ast;
use crate::errors::CompilerError;
use crate::lowering::{index_model, lower, lower_all, lower_index, lower_typed, lowered, model, models, ExprModel, IndexModel};
use crate::types::{
    Assignee, Block, ConditionalNestedOrEndStatement, ConditionalStatement, Expression, Integer,
    RangeOrExpression, Statement, Variable,
};
use vstd::prelude::*;

verus! {

pub ghost enum AssigneeModel {
    Variable(Seq<char>),
    Array(Box<AssigneeModel>, IndexModel),
    StructMember(Box<AssigneeModel>, Seq<char>),
}

/// The model of a typed statement.
pub ghost enum StmtModel {
    Definition(AssigneeModel, ExprModel),
    Return(Seq<ExprModel>),
    Conditional(CondModel),
    For(Seq<char>, u32, u32, Seq<StmtModel>),
}

pub ghost struct CondModel {
    pub condition: ExprModel,
    pub block: Seq<StmtModel>,
    pub next: Option<NextModel>,
}

pub ghost enum NextModel {
    Nested(Box<CondModel>),
    End(Seq<StmtModel>),
}

pub open spec fn assignee_model(a: Assignee) -> AssigneeModel
    decreases a,
{
    match a {
        Assignee::Variable(v) => AssigneeModel::Variable(v.name@),
        Assignee::Array(inner, i) => AssigneeModel::Array(Box::new(assignee_model(*inner)), index_model(i)),
        Assignee::StructMember(inner, m) => AssigneeModel::StructMember(Box::new(assignee_model(*inner)), m.name@),
    }
}

pub open spec fn stmt_model(s: Statement) -> StmtModel
    decreases s,
{
    match s {
        Statement::Definition(a, e) => StmtModel::Definition(assignee_model(a), model(e)),
        Statement::Return(es) => StmtModel::Return(models(es@)),
        Statement::Conditional(c) => StmtModel::Conditional(cond_model(c)),
        Statement::For(v, from, to, body) => StmtModel::For(v.name@, from.spec_value(), to.spec_value(), stmt_models(body@)),
    }
}

pub open spec fn stmt_models(s: Seq<Statement>) -> Seq<StmtModel>
    decreases s,
{
    if s.len() == 0 {
        Seq::empty()
    } else {
        stmt_models(s.drop_last()).push(stmt_model(s.last()))
    }
}

pub open spec fn cond_model(c: ConditionalStatement) -> CondModel
    decreases c,
{
    CondModel {
        condition: model(c.condition),
        block: stmt_models(c.block.statements@),
        next: match c.next {
            None => None,
            Some(ConditionalNestedOrEndStatement::Nested(n)) => Some(NextModel::Nested(Box::new(cond_model(*n)))),
            Some(ConditionalNestedOrEndStatement::End(b)) => Some(NextModel::End(stmt_models(b.statements@))),
        },
    }
}

/// Applies assignment steps from the `k`-th on to `acc`.
pub open spec fn lower_assignee_accesses(accesses: Seq<ast::AssigneeAccess>, k: int, acc: AssigneeModel) -> Option<AssigneeModel>
    decreases accesses.len() - k,
{
    if k < 0 || k >= accesses.len() {
        Some(acc)
    } else {
        match accesses[k] {
            ast::AssigneeAccess::Array(r) => match lower_index(r) {
                Some(im) => lower_assignee_accesses(accesses, k + 1, AssigneeModel::Array(Box::new(acc), im)),
                None => None,
            },
            ast::AssigneeAccess::Member(m) => lower_assignee_accesses(
                accesses,
                k + 1,
                AssigneeModel::StructMember(Box::new(acc), m.value@),
            ),
        }
    }
}

pub open spec fn lower_assignee(a: ast::Assignee) -> Option<AssigneeModel> {
    lower_assignee_accesses(a.accesses@, 0, AssigneeModel::Variable(a.variable.value@))
}

/// A loop bound must be an integer literal.
pub open spec fn lower_loop_bound(e: ast::Expression) -> Option<u32> {
    match lower(e) {
        Some(ExprModel::Integer(n)) => Some(n),
        _ => None,
    }
}

pub open spec fn lower_statement(s: ast::Statement) -> Option<StmtModel>
    decreases s, 0nat,
{
    match s {
        ast::Statement::Assign(a, e) => match (lower_assignee(a), lower(e)) {
            (Some(am), Some(em)) => Some(StmtModel::Definition(am, em)),
            _ => None,
        },
        ast::Statement::Definition(v, ty, e) => match lower_typed(ty, e) {
            Some(em) => Some(StmtModel::Definition(AssigneeModel::Variable(v.value@), em)),
            None => None,
        },
        ast::Statement::Return(es) => match lower_all(es, 0, Seq::empty()) {
            Some(ms) => Some(StmtModel::Return(ms)),
            None => None,
        },
        ast::Statement::Iteration(index, start, stop, body) => match (
            lower_loop_bound(start),
            lower_loop_bound(stop),
            lower_statements(body, 0, Seq::empty()),
        ) {
            (Some(from), Some(to), Some(bm)) => Some(StmtModel::For(index.value@, from, to, bm)),
            _ => None,
        },
        ast::Statement::Conditional(c) => match lower_conditional(c) {
            Some(cm) => Some(StmtModel::Conditional(cm)),
            None => None,
        },
    }
}

pub open spec fn lower_statements(s: Vec<ast::Statement>, k: int, acc: Seq<StmtModel>) -> Option<Seq<StmtModel>>
    decreases s, s.len() - k,
{
    if k < 0 || k >= s.len() {
        Some(acc)
    } else {
        match lower_statement(s[k]) {
            Some(m) => lower_statements(s, k + 1, acc.push(m)),
            None => None,
        }
    }
}

pub open spec fn lower_conditional(c: ast::ConditionalStatement) -> Option<CondModel>
    decreases c, 0nat,
{
    match (lower(c.condition), lower_statements(c.block.statements, 0, Seq::empty())) {
        (Some(cm), Some(bm)) => match c.next {
            None => Some(CondModel { condition: cm, block: bm, next: None }),
            Some(ast::ConditionalNestedOrEndStatement::Nested(n)) => match lower_conditional(*n) {
                Some(nm) => Some(CondModel { condition: cm, block: bm, next: Some(NextModel::Nested(Box::new(nm))) }),
                None => None,
            },
            Some(ast::ConditionalNestedOrEndStatement::End(b)) => match lower_statements(b.statements, 0, Seq::empty()) {
                Some(em) => Some(CondModel { condition: cm, block: bm, next: Some(NextModel::End(em)) }),
                None => None,
            },
        },
        _ => None,
    }
}

proof fn lemma_stmt_models_push(s: Seq<Statement>, x: Statement)
    ensures
        stmt_models(s.push(x)) == stmt_models(s).push(stmt_model(x)),
{
    assert(s.push(x).drop_last() =~= s);
}

impl Assignee {
    /// The target of an assignment, its steps applied from left to right.
    pub fn from_ast(a: &ast::Assignee) -> (r: Result<Assignee, CompilerError>)
        ensures
            match r {
                Ok(t) => lower_assignee(*a) == Some(assignee_model(t)),
                Err(e) => lower_assignee(*a) is None && e == CompilerError::MalformedTree,
            },
    {
        let mut acc = Assignee::Variable(Variable { name: a.variable.value.clone() });
        let mut k: usize = 0;
        while k < a.accesses.len()
            invariant
                k <= a.accesses@.len(),
                lower_assignee(*a) == lower_assignee_accesses(a.accesses@, k as int, assignee_model(acc)),
            decreases a.accesses.len() - k,
        {
            match &a.accesses[k] {
                ast::AssigneeAccess::Array(r) => match Expression::index_from_ast(r) {
                    Ok(i) => {
                        acc = Assignee::Array(Box::new(acc), i);
                    },
                    Err(e) => {
                        return Err(e);
                    },
                },
                ast::AssigneeAccess::Member(m) => {
                    acc = Assignee::StructMember(Box::new(acc), Variable { name: m.value.clone() });
                },
            }
            k = k + 1;
        }
        Ok(acc)
    }
}

fn loop_bound_from_ast(e: &ast::Expression) -> (r: Result<u32, CompilerError>)
    ensures
        match r {
            Ok(n) => lower_loop_bound(*e) == Some(n),
            Err(err) => lower_loop_bound(*e) is None && err == CompilerError::MalformedTree,
        },
{
    match Expression::from_ast(e) {
        Ok(Expression::Integer(Integer::U32(n))) => Ok(n),
        _ => Err(CompilerError::MalformedTree),
    }
}

impl Statement {
    /// Lowers a statement; an assignment and a definition both become a
    /// `Definition`.
    pub fn from_ast(s: &ast::Statement) -> (r: Result<Statement, CompilerError>)
        ensures
            match r {
                Ok(t) => lower_statement(*s) == Some(stmt_model(t)),
                Err(e) => lower_statement(*s) is None && e == CompilerError::MalformedTree,
            },
        decreases s, 0nat,
    {
        match s {
            ast::Statement::Assign(a, e) => {
                let at = match Assignee::from_ast(a) {
                    Ok(t) => t,
                    Err(err) => {
                        return Err(err);
                    },
                };
                match Expression::from_ast(e) {
                    Ok(et) => Ok(Statement::Definition(at, et)),
                    Err(err) => Err(err),
                }
            },
            ast::Statement::Definition(v, ty, e) => match Expression::from_type(ty, e) {
                Ok(et) => Ok(Statement::Definition(Assignee::Variable(Variable { name: v.value.clone() }), et)),
                Err(err) => Err(err),
            },
            ast::Statement::Return(es) => match Expression::all_from_ast(es) {
                Ok(ts) => Ok(Statement::Return(ts)),
                Err(err) => Err(err),
            },
            ast::Statement::Iteration(index, start, stop, body) => {
                let from = match loop_bound_from_ast(start) {
                    Ok(n) => n,
                    Err(err) => {
                        return Err(err);
                    },
                };
                let to = match loop_bound_from_ast(stop) {
                    Ok(n) => n,
                    Err(err) => {
                        return Err(err);
                    },
                };
                match Self::all_from_ast(body) {
                    Ok(bt) => Ok(Statement::For(Variable { name: index.value.clone() }, Integer::U32(from), Integer::U32(to), bt)),
                    Err(err) => Err(err),
                }
            },
            ast::Statement::Conditional(c) => match ConditionalStatement::from_ast(c) {
                Ok(ct) => Ok(Statement::Conditional(ct)),
                Err(err) => Err(err),
            },
        }
    }

    /// Lowers statements in order.
    pub fn all_from_ast(s: &Vec<ast::Statement>) -> (r: Result<Vec<Statement>, CompilerError>)
        ensures
            match r {
                Ok(v) => lower_statements(*s, 0, Seq::empty()) == Some(stmt_models(v@)),
                Err(e) => lower_statements(*s, 0, Seq::empty()) is None && e == CompilerError::MalformedTree,
            },
        decreases s, 0nat,
    {
        let mut out: Vec<Statement> = Vec::new();
        let mut k: usize = 0;
        while k < s.len()
            invariant
                k <= s@.len(),
                lower_statements(*s, 0, Seq::empty()) == lower_statements(*s, k as int, stmt_models(out@)),
            decreases s.len() - k,
        {
            match Self::from_ast(&s[k]) {
                Ok(t) => {
                    proof {
                        lemma_stmt_models_push(out@, t);
                    }
                    out.push(t);
                },
                Err(e) => {
                    return Err(e);
                },
            }
            k = k + 1;
        }
        Ok(out)
    }
}

impl ConditionalStatement {
    /// Lowers `if (condition) block` and its `else` continuation.
    pub fn from_ast(c: &ast::ConditionalStatement) -> (r: Result<ConditionalStatement, CompilerError>)
        ensures
            match r {
                Ok(t) => lower_conditional(*c) == Some(cond_model(t)),
                Err(e) => lower_conditional(*c) is None && e == CompilerError::MalformedTree,
            },
        decreases c, 0nat,
    {
        let condition = match Expression::from_ast(&c.condition) {
            Ok(t) => t,
            Err(e) => {
                return Err(e);
            },
        };
        let statements = match Statement::all_from_ast(&c.block.statements) {
            Ok(v) => v,
            Err(e) => {
                return Err(e);
            },
        };
        let next = match &c.next {
            None => None,
            Some(ast::ConditionalNestedOrEndStatement::Nested(n)) => match Self::from_ast(n) {
                Ok(nt) => Some(ConditionalNestedOrEndStatement::Nested(Box::new(nt))),
                Err(e) => {
                    return Err(e);
                },
            },
            Some(ast::ConditionalNestedOrEndStatement::End(b)) => match Statement::all_from_ast(&b.statements) {
                Ok(v) => Some(ConditionalNestedOrEndStatement::End(Block { statements: v })),
                Err(e) => {
                    return Err(e);
                },
            },
        };
        Ok(ConditionalStatement { condition, block: Block { statements }, next })
    }
}

} // verus!
