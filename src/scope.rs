//! The variable environment of one activation: a stack of frames.
use crate::value::{lemma_view_values, lemma_view_values_push, view_names, view_values, ResolvedValue, Val};
use vstd::prelude::*;

verus! {

/// The bindings of one activation. Bindings are kept in order of creation;
/// `marks` holds, for each open block, the number of bindings that existed
/// when it was entered. Lookup goes from the newest binding to the oldest, so
/// the innermost frame is searched first.
#[derive(Debug)]
pub struct Scope {
    pub names: Vec<String>,
    pub values: Vec<ResolvedValue>,
    pub marks: Vec<usize>,
}

/// The model of a [`Scope`].
pub ghost struct ScopeView {
    pub names: Seq<Seq<char>>,
    pub values: Seq<Val>,
    pub marks: Seq<int>,
}

/// The newest index below `k` that binds `name`, or -1.
pub open spec fn find_binding(names: Seq<Seq<char>>, name: Seq<char>, k: int) -> int
    decreases k,
{
    if k <= 0 {
        -1
    } else if names[k - 1] == name {
        k - 1
    } else {
        find_binding(names, name, k - 1)
    }
}

pub proof fn lemma_find_binding(names: Seq<Seq<char>>, name: Seq<char>, k: int)
    requires
        0 <= k <= names.len(),
    ensures
        -1 <= find_binding(names, name, k) < k,
        find_binding(names, name, k) >= 0 ==> names[find_binding(names, name, k)] == name,
    decreases k,
{
    if k > 0 {
        lemma_find_binding(names, name, k - 1);
    }
}

impl ScopeView {
    pub open spec fn empty() -> ScopeView {
        ScopeView { names: Seq::empty(), values: Seq::empty(), marks: Seq::empty() }
    }

    pub open spec fn wf(self) -> bool {
        &&& self.names.len() == self.values.len()
        &&& forall|i: int| 0 <= i < self.marks.len() ==> 0 <= #[trigger] self.marks[i] <= self.names.len()
        &&& forall|i: int, j: int|
            0 <= i <= j < self.marks.len() ==> #[trigger] self.marks[i] <= #[trigger] self.marks[j]
    }

    pub open spec fn find(self, name: Seq<char>) -> int {
        find_binding(self.names, name, self.names.len() as int)
    }

    /// The value of the innermost binding of `name`, if any.
    pub open spec fn lookup(self, name: Seq<char>) -> Option<Val> {
        if self.find(name) >= 0 {
            Some(self.values[self.find(name)])
        } else {
            None
        }
    }

    /// A new binding in the innermost frame, whether or not the name is bound.
    pub open spec fn bind(self, name: Seq<char>, v: Val) -> ScopeView {
        ScopeView { names: self.names.push(name), values: self.values.push(v), marks: self.marks }
    }

    /// Overwrites the innermost binding of `name`, or binds it when it is unbound.
    pub open spec fn store(self, name: Seq<char>, v: Val) -> ScopeView {
        if self.find(name) >= 0 {
            ScopeView { values: self.values.update(self.find(name), v), ..self }
        } else {
            self.bind(name, v)
        }
    }

    pub proof fn lemma_push_frame_wf(self)
        requires
            self.wf(),
        ensures
            self.push_frame().wf(),
            self.push_frame().marks.last() == self.names.len(),
    {
        let t = self.push_frame();
        assert forall|i: int, j: int| 0 <= i <= j < t.marks.len() implies #[trigger] t.marks[i] <= #[trigger] t.marks[j] by {
            if j == t.marks.len() - 1 {
                assert(0 <= t.marks[i] <= self.names.len());
            }
        }
    }

    pub open spec fn push_frame(self) -> ScopeView {
        ScopeView { marks: self.marks.push(self.names.len() as int), ..self }
    }

    /// Drops the innermost frame and every binding made in it.
    pub open spec fn pop_frame(self) -> ScopeView {
        if self.marks.len() == 0 {
            self
        } else {
            let m = self.marks.last();
            ScopeView {
                names: self.names.subrange(0, m),
                values: self.values.subrange(0, m),
                marks: self.marks.drop_last(),
            }
        }
    }
}

impl Scope {
    pub open spec fn view(&self) -> ScopeView {
        ScopeView {
            names: view_names(self.names@),
            values: view_values(self.values@),
            marks: self.marks@.map_values(|m: usize| m as int),
        }
    }

    pub open spec fn wf(&self) -> bool {
        self.view().wf() && self.names@.len() == self.values@.len()
    }

    /// An empty scope, for a new activation.
    pub fn new() -> (r: Scope)
        ensures
            r.wf(),
            r.view() == ScopeView::empty(),
    {
        let r = Scope { names: Vec::new(), values: Vec::new(), marks: Vec::new() };
        assert(r.view().names =~= Seq::<Seq<char>>::empty());
        assert(r.view().marks =~= Seq::<int>::empty());
        r
    }

    /// The index of the innermost binding of `name`.
    pub fn find(&self, name: &String) -> (r: Option<usize>)
        requires
            self.wf(),
        ensures
            match r {
                Some(i) => self.view().find(name@) == i as int,
                None => self.view().find(name@) == -1,
            },
    {
        let mut j = self.names.len();
        while j > 0
            invariant
                j <= self.names@.len(),
                self.wf(),
                self.view().find(name@) == find_binding(self.view().names, name@, j as int),
            decreases j,
        {
            if self.names[j - 1] == *name {
                return Some(j - 1);
            }
            j = j - 1;
        }
        None
    }

    /// Whether `name` is bound in this activation.
    pub fn contains_name(&self, name: &String) -> (r: bool)
        requires
            self.wf(),
        ensures
            r == self.view().lookup(name@).is_some(),
    {
        self.find(name).is_some()
    }

    /// A copy of the value of the innermost binding of `name`.
    pub fn get(&self, name: &String) -> (r: Option<ResolvedValue>)
        requires
            self.wf(),
        ensures
            match r {
                Some(v) => self.view().lookup(name@) == Some(v.view()),
                None => self.view().lookup(name@).is_none(),
            },
    {
        match self.find(name) {
            Some(i) => {
                proof {
                    lemma_find_binding(self.view().names, name@, self.view().names.len() as int);
                    lemma_view_values(self.values@);
                }
                Some(self.values[i].duplicate())
            },
            None => None,
        }
    }

    /// Binds `name` anew in the innermost frame.
    pub fn bind(&mut self, name: String, v: ResolvedValue)
        requires
            old(self).wf(),
        ensures
            final(self).wf(),
            final(self).view() == old(self).view().bind(name@, v.view()),
    {
        proof {
            lemma_view_values_push(self.values@, v);
        }
        self.names.push(name);
        self.values.push(v);
        proof {
            lemma_view_values(self.values@);
            lemma_view_values(old(self).values@);
        }
        assert(self.view().names =~= old(self).view().names.push(name@));
        assert(self.view().values =~= old(self).view().values.push(v.view()));
        assert(self.view().marks == old(self).view().marks);
        assert(self.view().wf());
    }

    /// Overwrites the innermost binding of `name`, or binds it.
    pub fn store(&mut self, name: String, v: ResolvedValue)
        requires
            old(self).wf(),
        ensures
            final(self).wf(),
            final(self).view() == old(self).view().store(name@, v.view()),
    {
        match self.find(&name) {
            Some(i) => {
                proof {
                    lemma_find_binding(self.view().names, name@, self.view().names.len() as int);
                    lemma_view_values(self.values@);
                }
                let ghost before = self.values@;
                let ghost vv = v.view();
                self.values.set(i, v);
                proof {
                    lemma_view_values(self.values@);
                    lemma_view_values(before);
                    assert(view_values(self.values@) =~= view_values(before).update(i as int, vv));
                    assert(self.view().marks == old(self).view().marks);
                    assert(self.view().names == old(self).view().names);
                    assert(self.view().wf());
                }
            },
            None => {
                self.bind(name, v);
            },
        }
    }

    pub fn push_frame(&mut self)
        requires
            old(self).wf(),
        ensures
            final(self).wf(),
            final(self).view() == old(self).view().push_frame(),
    {
        let n = self.names.len();
        self.marks.push(n);
        proof {
            lemma_view_values(self.values@);
        }
        assert(self.view().marks =~= old(self).view().marks.push(n as int));
    }

    pub fn pop_frame(&mut self)
        requires
            old(self).wf(),
        ensures
            final(self).wf(),
            final(self).view() == old(self).view().pop_frame(),
    {
        match self.marks.pop() {
            Some(m) => {
                proof {
                    lemma_view_values(old(self).values@);
                    assert(old(self).marks@.len() > 0);
                    assert(m == old(self).marks@[old(self).marks@.len() - 1]);
                    assert(old(self).view().marks[old(self).marks@.len() - 1] <= old(self).view().names.len());
                }
                self.names.truncate(m);
                self.values.truncate(m);
                proof {
                    lemma_view_values(self.values@);
                    lemma_view_values(old(self).values@);
                    assert(self.view().names =~= old(self).view().names.subrange(0, m as int));
                    assert(view_values(self.values@) =~= old(self).view().values.subrange(0, m as int));
                    assert(self.view().marks =~= old(self).view().marks.drop_last());
                }
            },
            None => {},
        }
    }
}

} // verus!
