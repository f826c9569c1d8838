//! The runtime values that evaluation produces, and their mathematical model.
use crate::circuit::Wire;
use crate::errors::CompilerError;
use vstd::prelude::*;

verus! {

/// A value produced by evaluation. Every scalar carries its concrete witness
/// and the wire it lives on.
#[derive(Debug)]
pub enum ResolvedValue {
    Boolean(bool, Wire),
    U32(u32, Wire),
    /// A field element, below the field modulus.
    FieldElement(u64, Wire),
    Array(Vec<ResolvedValue>),
    /// A struct instance: its type name, member names and member values, in
    /// declaration order.
    StructInstance(String, Vec<String>, Vec<ResolvedValue>),
    /// A reference to the declared struct of that name.
    StructDefinition(String),
    /// A reference to the declared function of that name.
    Function(String),
    /// The values that a function returned, in order.
    Return(Vec<ResolvedValue>),
}

/// The model of a [`ResolvedValue`].
pub ghost enum Val {
    Boolean(bool, Wire),
    U32(u32, Wire),
    FieldElement(u64, Wire),
    Array(Seq<Val>),
    StructInstance(Seq<char>, Seq<Seq<char>>, Seq<Val>),
    StructDefinition(Seq<char>),
    Function(Seq<char>),
    Return(Seq<Val>),
}

/// The model of an evaluation result.
pub open spec fn view_result(r: Result<ResolvedValue, CompilerError>) -> Result<Val, CompilerError> {
    match r {
        Ok(v) => Ok(v.view()),
        Err(e) => Err(e),
    }
}

/// The models of a sequence of values.
pub open spec fn view_values(s: Seq<ResolvedValue>) -> Seq<Val>
    decreases s,
{
    if s.len() == 0 {
        Seq::empty()
    } else {
        view_values(s.drop_last()).push(s.last().view())
    }
}

/// The views of a sequence of strings.
pub open spec fn view_names(s: Seq<String>) -> Seq<Seq<char>> {
    s.map_values(|n: String| n@)
}

impl ResolvedValue {
    pub open spec fn view(&self) -> Val
        decreases self,
    {
        match self {
            ResolvedValue::Boolean(b, w) => Val::Boolean(*b, *w),
            ResolvedValue::U32(n, w) => Val::U32(*n, *w),
            ResolvedValue::FieldElement(f, w) => Val::FieldElement(*f, *w),
            ResolvedValue::Array(v) => Val::Array(view_values(v@)),
            ResolvedValue::StructInstance(name, names, v) => Val::StructInstance(
                name@,
                view_names(names@),
                view_values(v@),
            ),
            ResolvedValue::StructDefinition(name) => Val::StructDefinition(name@),
            ResolvedValue::Function(name) => Val::Function(name@),
            ResolvedValue::Return(v) => Val::Return(view_values(v@)),
        }
    }

    /// A copy with the same model.
    pub fn duplicate(&self) -> (r: ResolvedValue)
        ensures
            r.view() == self.view(),
        decreases self,
    {
        match self {
            ResolvedValue::Boolean(b, w) => ResolvedValue::Boolean(*b, *w),
            ResolvedValue::U32(n, w) => ResolvedValue::U32(*n, *w),
            ResolvedValue::FieldElement(f, w) => ResolvedValue::FieldElement(*f, *w),
            ResolvedValue::Array(v) => ResolvedValue::Array(duplicate_values(v)),
            ResolvedValue::StructInstance(name, names, v) => {
                let copied = duplicate_values(v);
                ResolvedValue::StructInstance(name.clone(), duplicate_names(names), copied)
            },
            ResolvedValue::StructDefinition(name) => ResolvedValue::StructDefinition(name.clone()),
            ResolvedValue::Function(name) => ResolvedValue::Function(name.clone()),
            ResolvedValue::Return(v) => ResolvedValue::Return(duplicate_values(v)),
        }
    }
}

/// `view_values` is taken element by element.
pub proof fn lemma_view_values(s: Seq<ResolvedValue>)
    ensures
        view_values(s).len() == s.len(),
        forall|i: int| 0 <= i < s.len() ==> #[trigger] view_values(s)[i] == s[i].view(),
    decreases s.len(),
{
    if s.len() > 0 {
        lemma_view_values(s.drop_last());
    }
}

/// Appending a value appends its model.
pub proof fn lemma_view_values_push(s: Seq<ResolvedValue>, v: ResolvedValue)
    ensures
        view_values(s.push(v)) == view_values(s).push(v.view()),
{
    assert(s.push(v).drop_last() =~= s);
}

/// Two sequences with the same models element by element have the same model.
pub proof fn lemma_view_values_ext(a: Seq<ResolvedValue>, b: Seq<ResolvedValue>)
    requires
        a.len() == b.len(),
        forall|i: int| 0 <= i < a.len() ==> #[trigger] a[i].view() == b[i].view(),
    ensures
        view_values(a) == view_values(b),
{
    lemma_view_values(a);
    lemma_view_values(b);
    assert(view_values(a) =~= view_values(b));
}

/// The model of a concatenation is the concatenation of the models.
pub proof fn lemma_view_values_concat(a: Seq<ResolvedValue>, b: Seq<ResolvedValue>)
    ensures
        view_values(a + b) == view_values(a) + view_values(b),
{
    lemma_view_values(a);
    lemma_view_values(b);
    lemma_view_values(a + b);
    assert(view_values(a + b) =~= view_values(a) + view_values(b));
}

/// Appends copies of `items[from..to]` to `out`.
pub fn extend_copies(out: &mut Vec<ResolvedValue>, items: &Vec<ResolvedValue>, from: usize, to: usize)
    requires
        from <= to <= items@.len(),
    ensures
        view_values(final(out)@) == view_values(old(out)@) + view_values(items@).subrange(
            from as int,
            to as int,
        ),
{
    let ghost start = out@;
    let mut i = from;
    while i < to
        invariant
            from <= i <= to,
            to <= items@.len(),
            out@.len() == start.len() + (i - from),
            forall|j: int| 0 <= j < start.len() ==> #[trigger] out@[j].view() == start[j].view(),
            forall|j: int|
                from <= j < i ==> #[trigger] items@[j].view() == out@[start.len() + j - from].view(),
        decreases to - i,
    {
        let c = items[i].duplicate();
        out.push(c);
        i = i + 1;
    }
    proof {
        lemma_view_values(out@);
        lemma_view_values(start);
        lemma_view_values(items@);
        let lhs = view_values(out@);
        let rhs = view_values(start) + view_values(items@).subrange(from as int, to as int);
        assert forall|j: int| 0 <= j < lhs.len() implies lhs[j] == rhs[j] by {
            if j >= start.len() {
                let t = j - start.len() + from;
                assert(items@[t].view() == out@[start.len() + t - from].view());
            }
        }
        assert(lhs =~= rhs);
    }
}

/// Copies a sequence of values.
pub fn duplicate_values(v: &Vec<ResolvedValue>) -> (r: Vec<ResolvedValue>)
    ensures
        view_values(r@) == view_values(v@),
    decreases v,
{
    let mut out: Vec<ResolvedValue> = Vec::new();
    let mut i: usize = 0;
    while i < v.len()
        invariant
            i <= v.len(),
            out@.len() == i,
            forall|j: int| 0 <= j < i ==> #[trigger] out@[j].view() == v@[j].view(),
        decreases v.len() - i,
    {
        let c = v[i].duplicate();
        out.push(c);
        i = i + 1;
    }
    proof {
        lemma_view_values_ext(out@, v@);
    }
    out
}

/// The first index of `name` in `names`, or -1.
pub open spec fn first_name(names: Seq<Seq<char>>, name: Seq<char>, k: int) -> int
    decreases names.len() - k,
{
    if k < 0 || k >= names.len() {
        -1
    } else if names[k] == name {
        k
    } else {
        first_name(names, name, k + 1)
    }
}

/// The position of the first `name` in `names`.
pub fn find_name(names: &Vec<String>, name: &String) -> (r: Option<usize>)
    ensures
        match r {
            Some(i) => first_name(view_names(names@), name@, 0) == i && i < names@.len(),
            None => first_name(view_names(names@), name@, 0) == -1,
        },
{
    let mut i: usize = 0;
    while i < names.len()
        invariant
            i <= names@.len(),
            first_name(view_names(names@), name@, 0) == first_name(view_names(names@), name@, i as int),
        decreases names.len() - i,
    {
        assert(view_names(names@)[i as int] == names@[i as int]@);
        if names[i] == *name {
            return Some(i);
        }
        i = i + 1;
    }
    None
}

/// Copies a sequence of names.
pub fn duplicate_names(v: &Vec<String>) -> (r: Vec<String>)
    ensures
        view_names(r@) == view_names(v@),
{
    let mut out: Vec<String> = Vec::new();
    let mut i: usize = 0;
    while i < v.len()
        invariant
            i <= v.len(),
            out@.len() == i,
            forall|j: int| 0 <= j < i ==> #[trigger] out@[j]@ == v@[j]@,
        decreases v.len() - i,
    {
        out.push(v[i].clone());
        i = i + 1;
    }
    assert(view_names(out@) =~= view_names(v@));
    out
}

} // verus!
