//! Binding contexts.
//!
//! A binding context maps names to values and may have a parent context.
//! Contexts live in an arena owned by the evaluator and refer to their parent
//! by index, so that a function value can capture the context that in turn
//! binds the function, without an ownership cycle.  New bindings are appended
//! and the newest binding for a name wins, which gives `set` its
//! overwrite-in-place meaning.

use vstd::prelude::*;
use crate::object::{Object, ObjectV, obj_view};

verus! {

/// A binding context: its own bindings and an optional parent, as an index
/// into the evaluator's context arena.
pub struct Environment {
    pub store: Vec<(String, Object)>,
    pub parent: Option<usize>,
}

/// Mathematical view of a binding context.
#[verifier::ext_equal]
pub struct EnvironmentV {
    pub store: Seq<(Seq<char>, ObjectV)>,
    pub parent: Option<int>,
}

pub open spec fn bindings_view_from(s: Seq<(String, Object)>, i: int) -> Seq<(Seq<char>, ObjectV)>
    decreases s, s.len() - i,
{
    if 0 <= i < s.len() {
        seq![(s[i].0@, obj_view(s[i].1))] + bindings_view_from(s, i + 1)
    } else {
        seq![]
    }
}

/// `bindings_view_from(s, i)` lists the views of `s[i..]`, pairwise.
pub proof fn lemma_bindings_view_from(s: Seq<(String, Object)>, i: int)
    requires
        0 <= i <= s.len(),
    ensures
        bindings_view_from(s, i).len() == s.len() - i,
        forall|j: int|
            0 <= j < s.len() - i ==> bindings_view_from(s, i)[j] == (
                s[i + j].0@,
                obj_view(s[i + j].1),
            ),
    decreases s.len() - i,
{
    if i < s.len() {
        lemma_bindings_view_from(s, i + 1);
    }
}

pub open spec fn env_view(e: Environment) -> EnvironmentV {
    EnvironmentV {
        store: bindings_view_from(e.store@, 0),
        parent: match e.parent {
            Some(p) => Some(p as int),
            None => None,
        },
    }
}

impl View for Environment {
    type V = EnvironmentV;

    open spec fn view(&self) -> EnvironmentV {
        env_view(*self)
    }
}

/// Views of the contexts `s[i..]` of an arena, elementwise.
pub open spec fn envs_view_from(s: Seq<Environment>, i: int) -> Seq<EnvironmentV>
    decreases s.len() - i,
{
    if 0 <= i < s.len() {
        seq![env_view(s[i])] + envs_view_from(s, i + 1)
    } else {
        seq![]
    }
}

/// `envs_view_from(s, i)` lists the views of `s[i..]`, elementwise.
pub proof fn lemma_envs_view_from(s: Seq<Environment>, i: int)
    requires
        0 <= i <= s.len(),
    ensures
        envs_view_from(s, i).len() == s.len() - i,
        forall|j: int| 0 <= j < s.len() - i ==> envs_view_from(s, i)[j] == env_view(s[i + j]),
    decreases s.len() - i,
{
    if i < s.len() {
        lemma_envs_view_from(s, i + 1);
    }
}

/// The value bound to `name` in one store, if any; the newest binding wins.
pub open spec fn store_get(s: Seq<(Seq<char>, ObjectV)>, name: Seq<char>) -> Option<ObjectV>
    decreases s.len(),
{
    if s.len() == 0 {
        None
    } else if s.last().0 == name {
        Some(s.last().1)
    } else {
        store_get(s.drop_last(), name)
    }
}

/// View of an optional value.
pub open spec fn opt_obj_view(r: Option<Object>) -> Option<ObjectV> {
    match r {
        Some(o) => Some(obj_view(o)),
        None => None,
    }
}

impl Environment {
    /// A fresh context with no bindings and no parent: the seed context.
    pub fn new() -> (r: Environment)
        ensures
            r@.store == Seq::<(Seq<char>, ObjectV)>::empty(),
            r@.parent is None,
    {
        Environment { store: Vec::new(), parent: None }
    }

    /// A fresh context with no bindings whose parent is the context at
    /// `parent` in the evaluator's arena.
    pub fn with_parent(parent: usize) -> (r: Environment)
        ensures
            r@.store == Seq::<(Seq<char>, ObjectV)>::empty(),
            r@.parent == Some(parent as int),
    {
        Environment { store: Vec::new(), parent: Some(parent) }
    }

    /// Binds `name` to `value` in this context alone.
    pub fn set(&mut self, name: String, value: Object)
        ensures
            final(self)@.store == old(self)@.store.push((name@, value@)),
            final(self)@.parent == old(self)@.parent,
    {
        let ghost old_store = self.store@;
        self.store.push((name, value));
        proof {
            lemma_bindings_view_from(old_store, 0);
            lemma_bindings_view_from(self.store@, 0);
            assert(bindings_view_from(self.store@, 0) =~= bindings_view_from(old_store, 0).push(
                (self.store@.last().0@, obj_view(self.store@.last().1)),
            ));
        }
    }

    /// The value bound to `name` in this context alone (the parent chain is
    /// walked by the evaluator).
    pub fn get_local(&self, name: &String) -> (r: Option<Object>)
        ensures
            opt_obj_view(r) == store_get(self@.store, name@),
    {
        let ghost pv = self@.store;
        proof {
            lemma_bindings_view_from(self.store@, 0);
            assert(pv.take(pv.len() as int) =~= pv);
        }
        let mut i: usize = self.store.len();
        while i > 0
            invariant
                i <= self.store@.len(),
                pv == self@.store,
                pv.len() == self.store@.len(),
                forall|j: int|
                    0 <= j < pv.len() ==> pv[j] == (self.store@[j].0@, obj_view(self.store@[j].1)),
                store_get(pv, name@) == store_get(pv.take(i as int), name@),
            decreases i,
        {
            let entry = &self.store[i - 1];
            proof {
                assert(pv.take(i as int).last() == pv[i - 1]);
                assert(pv.take(i as int).drop_last() =~= pv.take(i - 1));
            }
            if entry.0.eq(name) {
                return Some(entry.1.duplicate());
            }
            i = i - 1;
        }
        proof {
            assert(pv.take(0) =~= Seq::<(Seq<char>, ObjectV)>::empty());
        }
        None
    }
}

} // verus!
