//! The global table of a program: its declared structs and functions.
use crate::types::{Function, Program, Struct};
use crate::value::{ResolvedValue, Val};
use vstd::prelude::*;

verus! {

/// A program ready for constraint generation.
#[derive(Debug)]
pub struct ResolvedProgram {
    pub program: Program,
}

/// The last index below `k` of a struct named `name`, or -1.
pub open spec fn last_struct(s: Seq<Struct>, name: Seq<char>, k: int) -> int
    decreases k,
{
    if k <= 0 || k > s.len() {
        -1
    } else if s[k - 1].variable.name@ == name {
        k - 1
    } else {
        last_struct(s, name, k - 1)
    }
}

/// The last index below `k` of a function named `name`, or -1.
pub open spec fn last_function(s: Seq<Function>, name: Seq<char>, k: int) -> int
    decreases k,
{
    if k <= 0 || k > s.len() {
        -1
    } else if s[k - 1].function_name.0@ == name {
        k - 1
    } else {
        last_function(s, name, k - 1)
    }
}

pub proof fn lemma_last_struct(s: Seq<Struct>, name: Seq<char>, k: int)
    requires
        0 <= k <= s.len(),
    ensures
        last_struct(s, name, k) == -1 || (0 <= last_struct(s, name, k) < k
            && s[last_struct(s, name, k)].variable.name@ == name),
    decreases k,
{
    if k > 0 && s[k - 1].variable.name@ != name {
        lemma_last_struct(s, name, k - 1);
    }
}

pub proof fn lemma_last_function(s: Seq<Function>, name: Seq<char>, k: int)
    requires
        0 <= k <= s.len(),
    ensures
        last_function(s, name, k) == -1 || (0 <= last_function(s, name, k) < k
            && s[last_function(s, name, k)].function_name.0@ == name),
    decreases k,
{
    if k > 0 && s[k - 1].function_name.0@ != name {
        lemma_last_function(s, name, k - 1);
    }
}

/// The index of the struct declaration named `name`, or -1. Declarations
/// form a table keyed by name: a later declaration of a name replaces an
/// earlier one.
pub open spec fn struct_index(p: Program, name: Seq<char>) -> int {
    last_struct(p.structs@, name, p.structs@.len() as int)
}

/// The index of the function declaration named `name`, or -1; as for
/// structs, the last declaration of a name is the one that counts.
pub open spec fn function_index(p: Program, name: Seq<char>) -> int {
    last_function(p.functions@, name, p.functions@.len() as int)
}

/// What a global name resolves to: a struct declaration first, then a function.
pub open spec fn lookup_global(p: Program, name: Seq<char>) -> Option<Val> {
    if struct_index(p, name) >= 0 {
        Some(Val::StructDefinition(name))
    } else if function_index(p, name) >= 0 {
        Some(Val::Function(name))
    } else {
        None
    }
}

impl ResolvedProgram {
    pub fn new(program: Program) -> (r: ResolvedProgram)
        ensures
            r.program == program,
    {
        ResolvedProgram { program }
    }

    /// The index of the struct declaration named `name`.
    pub fn find_struct(&self, name: &String) -> (r: Option<usize>)
        ensures
            match r {
                Some(i) => struct_index(self.program, name@) == i,
                None => struct_index(self.program, name@) == -1,
            },
    {
        let structs = &self.program.structs;
        let mut i: usize = structs.len();
        while i > 0
            invariant
                i <= structs@.len(),
                structs == &self.program.structs,
                struct_index(self.program, name@) == last_struct(structs@, name@, i as int),
            decreases i,
        {
            if structs[i - 1].variable.name == *name {
                return Some(i - 1);
            }
            i = i - 1;
        }
        None
    }

    /// The index of the function declaration named `name`.
    pub fn find_function(&self, name: &String) -> (r: Option<usize>)
        ensures
            match r {
                Some(i) => function_index(self.program, name@) == i,
                None => function_index(self.program, name@) == -1,
            },
    {
        let functions = &self.program.functions;
        let mut i: usize = functions.len();
        while i > 0
            invariant
                i <= functions@.len(),
                functions == &self.program.functions,
                function_index(self.program, name@) == last_function(functions@, name@, i as int),
            decreases i,
        {
            if functions[i - 1].function_name.0 == *name {
                return Some(i - 1);
            }
            i = i - 1;
        }
        None
    }

    /// Whether `name` is a global struct or function name.
    pub fn contains_variable(&self, name: &String) -> (r: bool)
        ensures
            r == lookup_global(self.program, name@).is_some(),
    {
        self.find_struct(name).is_some() || self.find_function(name).is_some()
    }

    /// The value that a global name resolves to.
    pub fn get_global(&self, name: &String) -> (r: Option<ResolvedValue>)
        ensures
            match r {
                Some(v) => lookup_global(self.program, name@) == Some(v.view()),
                None => lookup_global(self.program, name@).is_none(),
            },
    {
        if self.find_struct(name).is_some() {
            Some(ResolvedValue::StructDefinition(name.clone()))
        } else if self.find_function(name).is_some() {
            Some(ResolvedValue::Function(name.clone()))
        } else {
            None
        }
    }
}

} // verus!
