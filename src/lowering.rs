//! Lowering the untyped tree into the typed tree. The only decisions taken
//! here are reading literals and rejecting trees with no typed counterpart.
use crate::ast;
use crate::errors::CompilerError;
use crate::field_element::{modulus, FIELD_MODULUS};
use crate::literal::{decimal_value, is_decimal, parse_boolean, parse_decimal, DECIMAL_CAP};
use crate::types::{
    BinaryOperator, Expression, Integer, Parameter, RangeOrExpression, SpreadOrExpression, StructMember,
    Type, Variable,
};
use vstd::prelude::*;

verus! {

/// The model of a typed expression.
pub ghost enum ExprModel {
    Variable(Seq<char>),
    Integer(u32),
    FieldElement(u64),
    Boolean(bool),
    Binary(BinaryOperator, Box<ExprModel>, Box<ExprModel>),
    Not(Box<ExprModel>),
    IfElse(Box<ExprModel>, Box<ExprModel>, Box<ExprModel>),
    Array(Seq<ElementModel>),
    ArrayAccess(Box<ExprModel>, Box<IndexModel>),
    Struct(Seq<char>, Seq<MemberModel>),
    StructMemberAccess(Box<ExprModel>, Seq<char>),
    FunctionCall(Box<ExprModel>, Seq<ExprModel>),
}

pub ghost enum ElementModel {
    Spread(ExprModel),
    Expression(ExprModel),
}

pub ghost enum IndexModel {
    Range(Option<u32>, Option<u32>),
    Expression(ExprModel),
}

pub ghost struct MemberModel {
    pub name: Seq<char>,
    pub value: ExprModel,
}

pub open spec fn model(e: Expression) -> ExprModel
    decreases e,
{
    match e {
        Expression::Variable(v) => ExprModel::Variable(v.name@),
        Expression::Integer(n) => ExprModel::Integer(n.spec_value()),
        Expression::FieldElement(f) => ExprModel::FieldElement(f),
        Expression::Boolean(b) => ExprModel::Boolean(b),
        Expression::Binary(op, l, r) => ExprModel::Binary(op, Box::new(model(*l)), Box::new(model(*r))),
        Expression::Not(x) => ExprModel::Not(Box::new(model(*x))),
        Expression::IfElse(c, y, n) => ExprModel::IfElse(Box::new(model(*c)), Box::new(model(*y)), Box::new(model(*n))),
        Expression::Array(es) => ExprModel::Array(element_models(es@)),
        Expression::ArrayAccess(a, i) => ExprModel::ArrayAccess(Box::new(model(*a)), Box::new(index_model(*i))),
        Expression::Struct(name, members) => ExprModel::Struct(name.name@, member_models(members@)),
        Expression::StructMemberAccess(x, m) => ExprModel::StructMemberAccess(Box::new(model(*x)), m.name@),
        Expression::FunctionCall(f, args) => ExprModel::FunctionCall(Box::new(model(*f)), models(args@)),
    }
}

pub open spec fn element_model(s: SpreadOrExpression) -> ElementModel
    decreases s,
{
    match s {
        SpreadOrExpression::Spread(x) => ElementModel::Spread(model(x)),
        SpreadOrExpression::Expression(x) => ElementModel::Expression(model(x)),
    }
}

pub open spec fn index_model(i: RangeOrExpression) -> IndexModel
    decreases i,
{
    match i {
        RangeOrExpression::Range(f, t) => IndexModel::Range(
            match f {
                Some(n) => Some(n.spec_value()),
                None => None,
            },
            match t {
                Some(n) => Some(n.spec_value()),
                None => None,
            },
        ),
        RangeOrExpression::Expression(x) => IndexModel::Expression(model(x)),
    }
}

pub open spec fn element_models(s: Seq<SpreadOrExpression>) -> Seq<ElementModel>
    decreases s,
{
    if s.len() == 0 {
        Seq::empty()
    } else {
        element_models(s.drop_last()).push(element_model(s.last()))
    }
}

pub open spec fn member_models(s: Seq<StructMember>) -> Seq<MemberModel>
    decreases s,
{
    if s.len() == 0 {
        Seq::empty()
    } else {
        member_models(s.drop_last()).push(MemberModel { name: s.last().variable.name@, value: model(s.last().expression) })
    }
}

pub open spec fn models(s: Seq<Expression>) -> Seq<ExprModel>
    decreases s,
{
    if s.len() == 0 {
        Seq::empty()
    } else {
        models(s.drop_last()).push(model(s.last()))
    }
}

/// The model of a lowering result; `None` for an error.
pub open spec fn lowered(r: Result<Expression, CompilerError>) -> Option<ExprModel> {
    match r {
        Ok(t) => Some(model(t)),
        Err(_) => None,
    }
}

pub open spec fn typed_operator(op: ast::BinaryOperator) -> BinaryOperator {
    match op {
        ast::BinaryOperator::Or => BinaryOperator::Or,
        ast::BinaryOperator::And => BinaryOperator::And,
        ast::BinaryOperator::Geq => BinaryOperator::Geq,
        ast::BinaryOperator::Gt => BinaryOperator::Gt,
        ast::BinaryOperator::Leq => BinaryOperator::Leq,
        ast::BinaryOperator::Lt => BinaryOperator::Lt,
        ast::BinaryOperator::Add => BinaryOperator::Add,
        ast::BinaryOperator::Sub => BinaryOperator::Sub,
        ast::BinaryOperator::Mul => BinaryOperator::Mul,
        ast::BinaryOperator::Div => BinaryOperator::Div,
        ast::BinaryOperator::Pow => BinaryOperator::Pow,
        _ => BinaryOperator::Eq,
    }
}

/// A literal: an integer or a field element in decimal below its bound, or
/// `true` or `false`.
pub open spec fn lower_value(v: ast::Value) -> Option<ExprModel> {
    match v {
        ast::Value::U32(t) => if is_decimal(t@) && decimal_value(t@) <= u32::MAX {
            Some(ExprModel::Integer(decimal_value(t@) as u32))
        } else {
            None
        },
        ast::Value::Field(t) => if is_decimal(t@) && decimal_value(t@) < modulus() {
            Some(ExprModel::FieldElement(decimal_value(t@) as u64))
        } else {
            None
        },
        ast::Value::Boolean(t) => if t@ == seq!['t', 'r', 'u', 'e'] {
            Some(ExprModel::Boolean(true))
        } else if t@ == seq!['f', 'a', 'l', 's', 'e'] {
            Some(ExprModel::Boolean(false))
        } else {
            None
        },
    }
}

/// The element count of an array type or initializer: an integer literal
/// that is a `usize` below the decimal reader's cap (`DECIMAL_CAP`).
pub open spec fn count_of(v: ast::Value) -> Option<nat> {
    match v {
        ast::Value::U32(t) => if is_decimal(t@) && decimal_value(t@) <= usize::MAX && decimal_value(t@) < DECIMAL_CAP {
            Some(decimal_value(t@) as nat)
        } else {
            None
        },
        _ => None,
    }
}

/// `n` copies of `m`.
pub open spec fn repeated(m: ElementModel, n: nat) -> Seq<ElementModel> {
    Seq::new(n, |i: int| m)
}

pub open spec fn lower(a: ast::Expression) -> Option<ExprModel>
    decreases a, 0nat,
{
    match a {
        ast::Expression::Value(v) => lower_value(v),
        ast::Expression::Variable(x) => Some(ExprModel::Variable(x.value@)),
        ast::Expression::Not(x) => match lower(*x) {
            Some(m) => Some(ExprModel::Not(Box::new(m))),
            None => None,
        },
        ast::Expression::Binary(op, l, r) => match (lower(*l), lower(*r)) {
            (Some(lm), Some(rm)) => if op == ast::BinaryOperator::Neq {
                Some(ExprModel::Not(Box::new(ExprModel::Binary(BinaryOperator::Eq, Box::new(lm), Box::new(rm)))))
            } else {
                Some(ExprModel::Binary(typed_operator(op), Box::new(lm), Box::new(rm)))
            },
            _ => None,
        },
        ast::Expression::Ternary(c, y, n) => match (lower(*c), lower(*y), lower(*n)) {
            (Some(cm), Some(ym), Some(nm)) => Some(ExprModel::IfElse(Box::new(cm), Box::new(ym), Box::new(nm))),
            _ => None,
        },
        ast::Expression::ArrayInline(es) => match lower_elements(es, 0, Seq::empty()) {
            Some(ms) => Some(ExprModel::Array(ms)),
            None => None,
        },
        ast::Expression::ArrayInitializer(x, count) => match (lower_element(*x), count_of(count)) {
            (Some(m), Some(n)) => Some(ExprModel::Array(repeated(m, n))),
            _ => None,
        },
        ast::Expression::StructInline(_, _) => None,
        ast::Expression::Postfix(x, accesses) => lower_postfix(accesses, 0, ExprModel::Variable(x.value@)),
    }
}

pub open spec fn lower_element(s: ast::SpreadOrExpression) -> Option<ElementModel>
    decreases s, 0nat,
{
    match s {
        ast::SpreadOrExpression::Spread(x) => match lower(x) {
            Some(m) => Some(ElementModel::Spread(m)),
            None => None,
        },
        ast::SpreadOrExpression::Expression(x) => match lower(x) {
            Some(m) => Some(ElementModel::Expression(m)),
            None => None,
        },
    }
}

pub open spec fn lower_elements(s: Vec<ast::SpreadOrExpression>, k: int, acc: Seq<ElementModel>) -> Option<Seq<ElementModel>>
    decreases s, s.len() - k,
{
    if k < 0 || k >= s.len() {
        Some(acc)
    } else {
        match lower_element(s[k]) {
            Some(m) => lower_elements(s, k + 1, acc.push(m)),
            None => None,
        }
    }
}

pub open spec fn lower_all(s: Vec<ast::Expression>, k: int, acc: Seq<ExprModel>) -> Option<Seq<ExprModel>>
    decreases s, s.len() - k,
{
    if k < 0 || k >= s.len() {
        Some(acc)
    } else {
        match lower(s[k]) {
            Some(m) => lower_all(s, k + 1, acc.push(m)),
            None => None,
        }
    }
}

/// A range bound must be an integer literal.
pub open spec fn lower_bound(b: Option<ast::Expression>) -> Option<Option<u32>>
    decreases b, 0nat,
{
    match b {
        None => Some(None),
        Some(x) => match lower(x) {
            Some(ExprModel::Integer(n)) => Some(Some(n)),
            _ => None,
        },
    }
}

pub open spec fn lower_index(r: ast::RangeOrExpression) -> Option<IndexModel>
    decreases r, 0nat,
{
    match r {
        ast::RangeOrExpression::Range(f, t) => match (lower_bound(f), lower_bound(t)) {
            (Some(fm), Some(tm)) => Some(IndexModel::Range(fm, tm)),
            _ => None,
        },
        ast::RangeOrExpression::Expression(x) => match lower(x) {
            Some(m) => Some(IndexModel::Expression(m)),
            None => None,
        },
    }
}

/// Applies the accesses from the `k`-th on to `acc`; only a bare name can be called.
pub open spec fn lower_postfix(accesses: Vec<ast::Access>, k: int, acc: ExprModel) -> Option<ExprModel>
    decreases accesses, accesses.len() - k,
{
    if k < 0 || k >= accesses.len() {
        Some(acc)
    } else {
        match accesses[k] {
            ast::Access::Call(args) => if k == 0 {
                match lower_all(args, 0, Seq::empty()) {
                    Some(ms) => lower_postfix(accesses, k + 1, ExprModel::FunctionCall(Box::new(acc), ms)),
                    None => None,
                }
            } else {
                None
            },
            ast::Access::Member(m) => lower_postfix(
                accesses,
                k + 1,
                ExprModel::StructMemberAccess(Box::new(acc), m.value@),
            ),
            ast::Access::Array(r) => match lower_index(r) {
                Some(im) => lower_postfix(accesses, k + 1, ExprModel::ArrayAccess(Box::new(acc), Box::new(im))),
                None => None,
            },
        }
    }
}

pub open spec fn lower_members(s: Seq<ast::InlineStructMember>, k: int, acc: Seq<MemberModel>) -> Option<Seq<MemberModel>>
    decreases s.len() - k,
{
    if k < 0 || k >= s.len() {
        Some(acc)
    } else {
        match lower(s[k].expression) {
            Some(m) => lower_members(s, k + 1, acc.push(MemberModel { name: s[k].variable.value@, value: m })),
            None => None,
        }
    }
}

/// A definition of a struct type must hold a literal of that very struct.
pub open spec fn lower_struct(ty: ast::StructType, a: ast::Expression) -> Option<ExprModel> {
    match a {
        ast::Expression::StructInline(name, members) => if name.value@ == ty.variable.value@ {
            match lower_members(members@, 0, Seq::empty()) {
                Some(ms) => Some(ExprModel::Struct(name.value@, ms)),
                None => None,
            }
        } else {
            None
        },
        _ => None,
    }
}

pub open spec fn lower_typed(ty: ast::Type, a: ast::Expression) -> Option<ExprModel> {
    match ty {
        ast::Type::Struct(st) => lower_struct(st, a),
        _ => lower(a),
    }
}

proof fn lemma_element_models_push(s: Seq<SpreadOrExpression>, x: SpreadOrExpression)
    ensures
        element_models(s.push(x)) == element_models(s).push(element_model(x)),
{
    assert(s.push(x).drop_last() =~= s);
}

proof fn lemma_models_push(s: Seq<Expression>, x: Expression)
    ensures
        models(s.push(x)) == models(s).push(model(x)),
{
    assert(s.push(x).drop_last() =~= s);
}

proof fn lemma_member_models_push(s: Seq<StructMember>, x: StructMember)
    ensures
        member_models(s.push(x)) == member_models(s).push(MemberModel { name: x.variable.name@, value: model(x.expression) }),
{
    assert(s.push(x).drop_last() =~= s);
}

impl Expression {
    /// The element count of an array type or initializer: an integer literal.
    pub fn get_count(count: &ast::Value) -> (r: Result<usize, CompilerError>)
        ensures
            match count_of(*count) {
                Some(n) => r == Ok::<usize, CompilerError>(n as usize),
                None => r == Err::<usize, CompilerError>(CompilerError::MalformedTree),
            },
            r matches Ok(n) ==> count_of(*count) == Some(n as nat),
    {
        let bound: u64 = if (usize::MAX as u128) < (DECIMAL_CAP as u128) {
            usize::MAX as u64
        } else {
            DECIMAL_CAP - 1
        };
        match count {
            ast::Value::U32(t) => match parse_decimal(t.as_str(), bound) {
                Some(n) => Ok(n as usize),
                None => Err(CompilerError::MalformedTree),
            },
            _ => Err(CompilerError::MalformedTree),
        }
    }

    fn from_value(v: &ast::Value) -> (r: Result<Expression, CompilerError>)
        ensures
            lowered(r) == lower_value(*v),
            r is Err ==> r == Err::<Expression, CompilerError>(CompilerError::MalformedTree),
    {
        match v {
            ast::Value::U32(t) => match parse_decimal(t.as_str(), u32::MAX as u64) {
                Some(n) => Ok(Expression::Integer(Integer::U32(n as u32))),
                None => Err(CompilerError::MalformedTree),
            },
            ast::Value::Field(t) => match parse_decimal(t.as_str(), FIELD_MODULUS - 1) {
                Some(f) => Ok(Expression::FieldElement(f)),
                None => Err(CompilerError::MalformedTree),
            },
            ast::Value::Boolean(t) => match parse_boolean(t.as_str()) {
                Some(b) => Ok(Expression::Boolean(b)),
                None => Err(CompilerError::MalformedTree),
            },
        }
    }

    fn operator(op: ast::BinaryOperator) -> (r: BinaryOperator)
        ensures
            r == typed_operator(op),
    {
        match op {
            ast::BinaryOperator::Or => BinaryOperator::Or,
            ast::BinaryOperator::And => BinaryOperator::And,
            ast::BinaryOperator::Geq => BinaryOperator::Geq,
            ast::BinaryOperator::Gt => BinaryOperator::Gt,
            ast::BinaryOperator::Leq => BinaryOperator::Leq,
            ast::BinaryOperator::Lt => BinaryOperator::Lt,
            ast::BinaryOperator::Add => BinaryOperator::Add,
            ast::BinaryOperator::Sub => BinaryOperator::Sub,
            ast::BinaryOperator::Mul => BinaryOperator::Mul,
            ast::BinaryOperator::Div => BinaryOperator::Div,
            ast::BinaryOperator::Pow => BinaryOperator::Pow,
            _ => BinaryOperator::Eq,
        }
    }

    /// Lowers an untyped expression; `a != b` becomes `!(a == b)`.
    pub fn from_ast(a: &ast::Expression) -> (r: Result<Expression, CompilerError>)
        ensures
            lowered(r) == lower(*a),
            r is Err ==> r == Err::<Expression, CompilerError>(CompilerError::MalformedTree),
        decreases a, 0nat,
    {
        match a {
            ast::Expression::Value(v) => Self::from_value(v),
            ast::Expression::Variable(x) => Ok(Expression::Variable(Variable { name: x.value.clone() })),
            ast::Expression::Not(x) => match Self::from_ast(x) {
                Ok(t) => Ok(Expression::Not(Box::new(t))),
                Err(e) => Err(e),
            },
            ast::Expression::Binary(op, l, r) => {
                let lt = match Self::from_ast(l) {
                    Ok(t) => t,
                    Err(e) => {
                        return Err(e);
                    },
                };
                let rt = match Self::from_ast(r) {
                    Ok(t) => t,
                    Err(e) => {
                        return Err(e);
                    },
                };
                if *op == ast::BinaryOperator::Neq {
                    let ghost lm = model(lt);
                    let ghost rm = model(rt);
                    let inner = Expression::Binary(BinaryOperator::Eq, Box::new(lt), Box::new(rt));
                    assert(model(inner) == ExprModel::Binary(BinaryOperator::Eq, Box::new(lm), Box::new(rm)));
                    Ok(Expression::Not(Box::new(inner)))
                } else {
                    Ok(Expression::Binary(Self::operator(*op), Box::new(lt), Box::new(rt)))
                }
            },
            ast::Expression::Ternary(c, y, n) => {
                let ct = match Self::from_ast(c) {
                    Ok(t) => t,
                    Err(e) => {
                        return Err(e);
                    },
                };
                let yt = match Self::from_ast(y) {
                    Ok(t) => t,
                    Err(e) => {
                        return Err(e);
                    },
                };
                let nt = match Self::from_ast(n) {
                    Ok(t) => t,
                    Err(e) => {
                        return Err(e);
                    },
                };
                Ok(Expression::IfElse(Box::new(ct), Box::new(yt), Box::new(nt)))
            },
            ast::Expression::ArrayInline(es) => match Self::elements_from_ast(es) {
                Ok(v) => Ok(Expression::Array(v)),
                Err(e) => Err(e),
            },
            ast::Expression::ArrayInitializer(x, count) => {
                let first = match Self::element_from_ast(x) {
                    Ok(t) => t,
                    Err(e) => {
                        return Err(e);
                    },
                };
                let ghost m = element_model(first);
                let n = match Self::get_count(count) {
                    Ok(n) => n,
                    Err(e) => {
                        return Err(e);
                    },
                };
                match Self::repeat_element(x, n) {
                    Ok(out) => {
                        assert(count_of(*count) == Some(n as nat));
                        Ok(Expression::Array(out))
                    },
                    Err(e) => Err(e),
                }
            },
            ast::Expression::StructInline(_, _) => Err(CompilerError::MalformedTree),
            ast::Expression::Postfix(x, accesses) => Self::postfix_from_ast(x, accesses),
        }
    }

    /// `n` lowerings of one element.
    fn repeat_element(x: &ast::SpreadOrExpression, n: usize) -> (r: Result<Vec<SpreadOrExpression>, CompilerError>)
        requires
            lower_element(*x) is Some,
        ensures
            match r {
                Ok(v) => element_models(v@) == repeated(lower_element(*x)->Some_0, n as nat),
                Err(_) => false,
            },
        decreases x, 1nat,
    {
        let ghost m = lower_element(*x)->Some_0;
        let mut out: Vec<SpreadOrExpression> = Vec::new();
        let mut i: usize = 0;
        assert(element_models(out@) =~= Seq::new(0 as nat, |j: int| m));
        while i < n
            invariant
                i <= n,
                lower_element(*x) == Some(m),
                element_models(out@) == Seq::new(i as nat, |j: int| m),
            decreases n - i,
        {
            match Self::element_from_ast(x) {
                Ok(t) => {
                    proof {
                        lemma_element_models_push(out@, t);
                    }
                    out.push(t);
                    assert(element_models(out@) =~= Seq::new((i + 1) as nat, |j: int| m));
                },
                Err(e) => {
                    return Err(e);
                },
            }
            i = i + 1;
        }
        assert(element_models(out@) =~= repeated(m, n as nat));
        Ok(out)
    }

    fn element_from_ast(s: &ast::SpreadOrExpression) -> (r: Result<SpreadOrExpression, CompilerError>)
        ensures
            match r {
                Ok(t) => lower_element(*s) == Some(element_model(t)),
                Err(e) => lower_element(*s) is None && e == CompilerError::MalformedTree,
            },
        decreases s, 0nat,
    {
        match s {
            ast::SpreadOrExpression::Spread(x) => match Self::from_ast(x) {
                Ok(t) => Ok(SpreadOrExpression::Spread(t)),
                Err(e) => Err(e),
            },
            ast::SpreadOrExpression::Expression(x) => match Self::from_ast(x) {
                Ok(t) => Ok(SpreadOrExpression::Expression(t)),
                Err(e) => Err(e),
            },
        }
    }

    fn elements_from_ast(s: &Vec<ast::SpreadOrExpression>) -> (r: Result<Vec<SpreadOrExpression>, CompilerError>)
        ensures
            match r {
                Ok(v) => lower_elements(*s, 0, Seq::empty()) == Some(element_models(v@)),
                Err(e) => lower_elements(*s, 0, Seq::empty()) is None && e == CompilerError::MalformedTree,
            },
        decreases s, 0nat,
    {
        let mut out: Vec<SpreadOrExpression> = Vec::new();
        let mut k: usize = 0;
        while k < s.len()
            invariant
                k <= s@.len(),
                lower_elements(*s, 0, Seq::empty()) == lower_elements(*s, k as int, element_models(out@)),
            decreases s.len() - k,
        {
            match Self::element_from_ast(&s[k]) {
                Ok(t) => {
                    proof {
                        lemma_element_models_push(out@, t);
                    }
                    out.push(t);
                },
                Err(e) => {
                    return Err(e);
                },
            }
            k = k + 1;
        }
        Ok(out)
    }

    pub fn all_from_ast(s: &Vec<ast::Expression>) -> (r: Result<Vec<Expression>, CompilerError>)
        ensures
            match r {
                Ok(v) => lower_all(*s, 0, Seq::empty()) == Some(models(v@)),
                Err(e) => lower_all(*s, 0, Seq::empty()) is None && e == CompilerError::MalformedTree,
            },
        decreases s, 0nat,
    {
        let mut out: Vec<Expression> = Vec::new();
        let mut k: usize = 0;
        while k < s.len()
            invariant
                k <= s@.len(),
                lower_all(*s, 0, Seq::empty()) == lower_all(*s, k as int, models(out@)),
            decreases s.len() - k,
        {
            match Self::from_ast(&s[k]) {
                Ok(t) => {
                    proof {
                        lemma_models_push(out@, t);
                    }
                    out.push(t);
                },
                Err(e) => {
                    return Err(e);
                },
            }
            k = k + 1;
        }
        Ok(out)
    }

    fn bound_from_ast(b: &Option<ast::Expression>) -> (r: Result<Option<Integer>, CompilerError>)
        ensures
            match r {
                Ok(bm) => lower_bound(*b) == Some(
                    match bm {
                        Some(n) => Some(n.spec_value()),
                        None => None::<u32>,
                    },
                ),
                Err(e) => lower_bound(*b) is None && e == CompilerError::MalformedTree,
            },
        decreases b, 0nat,
    {
        match b {
            None => Ok(None),
            Some(x) => match Self::from_ast(x) {
                Ok(Expression::Integer(n)) => Ok(Some(n)),
                _ => Err(CompilerError::MalformedTree),
            },
        }
    }

    pub fn index_from_ast(r: &ast::RangeOrExpression) -> (res: Result<RangeOrExpression, CompilerError>)
        ensures
            match res {
                Ok(t) => lower_index(*r) == Some(index_model(t)),
                Err(e) => lower_index(*r) is None && e == CompilerError::MalformedTree,
            },
        decreases r, 0nat,
    {
        match r {
            ast::RangeOrExpression::Range(f, t) => {
                let fb = match Self::bound_from_ast(f) {
                    Ok(b) => b,
                    Err(e) => {
                        return Err(e);
                    },
                };
                let tb = match Self::bound_from_ast(t) {
                    Ok(b) => b,
                    Err(e) => {
                        return Err(e);
                    },
                };
                Ok(RangeOrExpression::Range(fb, tb))
            },
            ast::RangeOrExpression::Expression(x) => match Self::from_ast(x) {
                Ok(t) => Ok(RangeOrExpression::Expression(t)),
                Err(e) => Err(e),
            },
        }
    }

    fn postfix_from_ast(x: &ast::Variable, accesses: &Vec<ast::Access>) -> (r: Result<Expression, CompilerError>)
        ensures
            lowered(r) == lower_postfix(*accesses, 0, ExprModel::Variable(x.value@)),
            r is Err ==> r == Err::<Expression, CompilerError>(CompilerError::MalformedTree),
        decreases accesses, 0nat,
    {
        let mut acc = Expression::Variable(Variable { name: x.value.clone() });
        let mut k: usize = 0;
        while k < accesses.len()
            invariant
                k <= accesses@.len(),
                lower_postfix(*accesses, 0, ExprModel::Variable(x.value@)) == lower_postfix(*accesses, k as int, model(acc)),
            decreases accesses.len() - k,
        {
            match &accesses[k] {
                ast::Access::Call(args) => {
                    if k != 0 {
                        return Err(CompilerError::MalformedTree);
                    }
                    match Self::all_from_ast(args) {
                        Ok(ts) => {
                            acc = Expression::FunctionCall(Box::new(acc), ts);
                        },
                        Err(e) => {
                            return Err(e);
                        },
                    }
                },
                ast::Access::Member(m) => {
                    acc = Expression::StructMemberAccess(Box::new(acc), Variable { name: m.value.clone() });
                },
                ast::Access::Array(r) => match Self::index_from_ast(r) {
                    Ok(i) => {
                        acc = Expression::ArrayAccess(Box::new(acc), Box::new(i));
                    },
                    Err(e) => {
                        return Err(e);
                    },
                },
            }
            k = k + 1;
        }
        Ok(acc)
    }

    fn members_from_ast(s: &Vec<ast::InlineStructMember>) -> (r: Result<Vec<StructMember>, CompilerError>)
        ensures
            match r {
                Ok(v) => lower_members(s@, 0, Seq::empty()) == Some(member_models(v@)),
                Err(e) => lower_members(s@, 0, Seq::empty()) is None && e == CompilerError::MalformedTree,
            },
    {
        let mut out: Vec<StructMember> = Vec::new();
        let mut k: usize = 0;
        while k < s.len()
            invariant
                k <= s@.len(),
                lower_members(s@, 0, Seq::empty()) == lower_members(s@, k as int, member_models(out@)),
            decreases s.len() - k,
        {
            match Self::from_ast(&s[k].expression) {
                Ok(t) => {
                    let member = StructMember { variable: Variable { name: s[k].variable.value.clone() }, expression: t };
                    proof {
                        lemma_member_models_push(out@, member);
                    }
                    out.push(member);
                },
                Err(e) => {
                    return Err(e);
                },
            }
            k = k + 1;
        }
        Ok(out)
    }

    /// A definition of a struct type: its expression must be a literal of that
    /// very struct.
    pub fn from_struct(ty: &ast::StructType, expression: &ast::Expression) -> (r: Result<Expression, CompilerError>)
        ensures
            lowered(r) == lower_struct(*ty, *expression),
            r is Err ==> r == Err::<Expression, CompilerError>(CompilerError::MalformedTree),
    {
        match expression {
            ast::Expression::StructInline(name, members) => {
                if name.value != ty.variable.value {
                    return Err(CompilerError::MalformedTree);
                }
                match Self::members_from_ast(members) {
                    Ok(ms) => Ok(Expression::Struct(Variable { name: name.value.clone() }, ms)),
                    Err(e) => Err(e),
                }
            },
            _ => Err(CompilerError::MalformedTree),
        }
    }

    /// The expression of a definition, lowered against its declared type.
    pub fn from_type(ty: &ast::Type, expression: &ast::Expression) -> (r: Result<Expression, CompilerError>)
        ensures
            lowered(r) == lower_typed(*ty, *expression),
            r is Err ==> r == Err::<Expression, CompilerError>(CompilerError::MalformedTree),
    {
        match ty {
            ast::Type::Struct(st) => Self::from_struct(st, expression),
            _ => Self::from_ast(expression),
        }
    }
}

/// The typed counterpart of a declared type; array sizes are integer literals.
pub open spec fn lower_type(t: ast::Type) -> Option<Type>
    decreases t,
{
    match t {
        ast::Type::Basic(ast::BasicType::U32) => Some(Type::U32),
        ast::Type::Basic(ast::BasicType::Field) => Some(Type::FieldElement),
        ast::Type::Basic(ast::BasicType::Boolean) => Some(Type::Boolean),
        ast::Type::Array(inner, count) => match (lower_type(*inner), count_of(count)) {
            (Some(it), Some(n)) => Some(Type::Array(Box::new(it), n as usize)),
            _ => None,
        },
        ast::Type::Struct(st) => Some(Type::Struct(Variable { name: st.variable.value })),
    }
}

/// A parameter is private unless it is declared `public`.
pub open spec fn lower_parameter(p: ast::Parameter) -> Option<Parameter> {
    match lower_type(p.ty) {
        Some(ty) => Some(
            Parameter {
                private: p.visibility != Some(ast::Visibility::Public),
                ty,
                variable: Variable { name: p.variable.value },
            },
        ),
        None => None,
    }
}

impl Type {
    pub fn from_ast(t: &ast::Type) -> (r: Result<Type, CompilerError>)
        ensures
            match lower_type(*t) {
                Some(x) => r == Ok::<Type, CompilerError>(x),
                None => r == Err::<Type, CompilerError>(CompilerError::MalformedTree),
            },
        decreases t,
    {
        match t {
            ast::Type::Basic(ast::BasicType::U32) => Ok(Type::U32),
            ast::Type::Basic(ast::BasicType::Field) => Ok(Type::FieldElement),
            ast::Type::Basic(ast::BasicType::Boolean) => Ok(Type::Boolean),
            ast::Type::Array(inner, count) => {
                let it = match Type::from_ast(inner) {
                    Ok(it) => it,
                    Err(e) => {
                        return Err(e);
                    },
                };
                match Expression::get_count(count) {
                    Ok(n) => Ok(Type::Array(Box::new(it), n)),
                    Err(e) => Err(e),
                }
            },
            ast::Type::Struct(st) => Ok(Type::Struct(Variable { name: st.variable.value.clone() })),
        }
    }
}

impl Parameter {
    pub fn from_ast(p: &ast::Parameter) -> (r: Result<Parameter, CompilerError>)
        ensures
            match lower_parameter(*p) {
                Some(x) => r == Ok::<Parameter, CompilerError>(x),
                None => r == Err::<Parameter, CompilerError>(CompilerError::MalformedTree),
            },
    {
        let ty = match Type::from_ast(&p.ty) {
            Ok(ty) => ty,
            Err(e) => {
                return Err(e);
            },
        };
        let private = match p.visibility {
            Some(ast::Visibility::Public) => false,
            _ => true,
        };
        Ok(Parameter { private, ty, variable: Variable { name: p.variable.value.clone() } })
    }
}

} // verus!
