//! Insertion-ordered association lists.
//!
//! They hold named children (arguments, nested actions) in the order the
//! document gave them. Duplicate keys are kept, never merged; lookup is
//! linear and returns the first match. `AssocList` is the generic list;
//! `ArgList` and `ActionList` are its concrete counterparts for the
//! recursive schema entities.

use vstd::prelude::*;
use crate::schema::{Argument, Action};

verus! {

/// An insertion-ordered key/value store that tolerates duplicate keys.
///
/// Verus does not let a ground variant of a recursive datatype instantiate a
/// default generic parameter with the recursive type itself, so the schema
/// entities use the concrete `ArgList` and `ActionList` below; this generic
/// list serves every non-recursive pairing and shares its lookup model with
/// them.
#[derive(Debug)]
pub struct AssocList<K, V> {
    elems: Vec<(K, V)>,
}

impl<K, V> View for AssocList<K, V> {
    type V = Seq<(K, V)>;

    closed spec fn view(&self) -> Seq<(K, V)> {
        self.elems@
    }
}

/// The first value stored under `key`, scanning left to right.
pub open spec fn find_first<V>(s: Seq<(String, V)>, key: Seq<char>) -> Option<V>
    decreases s,
{
    if s.len() == 0 {
        None
    } else if s[0].0@ == key {
        Some(s[0].1)
    } else {
        find_first(s.drop_first(), key)
    }
}

impl<K, V> AssocList<K, V> {
    /// An empty list.
    pub fn new() -> (r: AssocList<K, V>)
        ensures
            r@ == Seq::<(K, V)>::empty(),
    {
        AssocList { elems: Vec::new() }
    }

    /// All pairs, in insertion order.
    pub fn as_slice(&self) -> (r: &[(K, V)])
        ensures
            r@ == self@,
    {
        self.elems.as_slice()
    }

    /// Appends a pair; an existing pair under the same key stays.
    pub fn insert(&mut self, k: K, v: V)
        ensures
            final(self)@ == old(self)@.push((k, v)),
    {
        self.elems.push((k, v));
    }

    /// How many pairs the list holds, duplicates counted.
    pub fn len(&self) -> (r: usize)
        ensures
            r == self@.len(),
    {
        self.elems.len()
    }

    /// The pair at position `i` in insertion order.
    pub fn get(&self, i: usize) -> (r: &(K, V))
        requires
            i < self@.len(),
        ensures
            *r == self@[i as int],
    {
        &self.elems[i]
    }
}

impl<V> AssocList<String, V> {
    /// Linear lookup: the first value stored under `key`, if any.
    pub fn find_str(&self, key: &str) -> (r: Option<&V>)
        ensures
            match r {
                Some(v) => find_first(self@, key@) == Some(*v),
                None => find_first(self@, key@) is None,
            },
    {
        let n = self.elems.len();
        proof {
            assert(self@.subrange(0, n as int) =~= self@);
        }
        let mut i: usize = 0;
        while i < n
            invariant
                n == self@.len(),
                i <= n,
                find_first(self@, key@) == find_first(self@.subrange(i as int, n as int), key@),
            decreases n - i,
        {
            proof {
                assert(self@.subrange(i as int, n as int)[0] == self@[i as int]);
            }
            if crate::node::str_eq(&self.elems[i].0, key) {
                return Some(&self.elems[i].1);
            }
            proof {
                assert(self@.subrange(i as int, n as int).drop_first() =~= self@.subrange(
                    i + 1 as int,
                    n as int,
                ));
            }
            i = i + 1;
        }
        None
    }
}

/// Insertion-ordered list of named arguments; duplicate names are kept.
#[derive(Debug)]
pub struct ArgList {
    elems: Vec<(String, Argument)>,
}

/// Insertion-ordered list of named actions; duplicate names are kept.
#[derive(Debug)]
pub struct ActionList {
    elems: Vec<(String, Action)>,
}

impl View for ArgList {
    type V = Seq<(String, Argument)>;

    closed spec fn view(&self) -> Seq<(String, Argument)> {
        self.elems@
    }
}

impl View for ActionList {
    type V = Seq<(String, Action)>;

    closed spec fn view(&self) -> Seq<(String, Action)> {
        self.elems@
    }
}

/// Structural descent: the pairs an argument list holds stand below the
/// list itself, so recursive definitions may step through the view.
pub broadcast proof fn lemma_arg_list_decreases_to_view(l: ArgList)
    ensures
        #[trigger] (decreases_to!(l => l@)),
{
    assert(decreases_to!(l => l.elems));
    assert(decreases_to!(l.elems => l.elems@));
}

/// Structural descent for action lists, as for argument lists.
pub broadcast proof fn lemma_action_list_decreases_to_view(l: ActionList)
    ensures
        #[trigger] (decreases_to!(l => l@)),
{
    assert(decreases_to!(l => l.elems));
    assert(decreases_to!(l.elems => l.elems@));
}

impl ArgList {
    /// An empty list.
    pub fn new() -> (r: ArgList)
        ensures
            r@ == Seq::<(String, Argument)>::empty(),
    {
        ArgList { elems: Vec::new() }
    }

    /// Appends a pair; an existing pair under the same name stays.
    pub fn insert(&mut self, k: String, v: Argument)
        ensures
            final(self)@ == old(self)@.push((k, v)),
    {
        self.elems.push((k, v));
    }

    /// All pairs, in insertion order.
    pub fn as_slice(&self) -> (r: &[(String, Argument)])
        ensures
            r@ == self@,
    {
        self.elems.as_slice()
    }

    /// How many pairs the list holds, duplicates counted.
    pub fn len(&self) -> (r: usize)
        ensures
            r == self@.len(),
    {
        self.elems.len()
    }

    /// The pair at position `i` in insertion order.
    pub fn get(&self, i: usize) -> (r: &(String, Argument))
        requires
            i < self@.len(),
        ensures
            *r == self@[i as int],
    {
        &self.elems[i]
    }

    /// Linear lookup: the first argument stored under `key`, if any.
    pub fn find_str(&self, key: &str) -> (r: Option<&Argument>)
        ensures
            match r {
                Some(v) => find_first(self@, key@) == Some(*v),
                None => find_first(self@, key@) is None,
            },
    {
        let n = self.elems.len();
        proof {
            assert(self@.subrange(0, n as int) =~= self@);
        }
        let mut i: usize = 0;
        while i < n
            invariant
                n == self@.len(),
                i <= n,
                find_first(self@, key@) == find_first(self@.subrange(i as int, n as int), key@),
            decreases n - i,
        {
            proof {
                assert(self@.subrange(i as int, n as int)[0] == self@[i as int]);
            }
            if crate::node::str_eq(&self.elems[i].0, key) {
                return Some(&self.elems[i].1);
            }
            proof {
                assert(self@.subrange(i as int, n as int).drop_first() =~= self@.subrange(
                    i + 1 as int,
                    n as int,
                ));
            }
            i = i + 1;
        }
        None
    }
}

impl ActionList {
    /// An empty list.
    pub fn new() -> (r: ActionList)
        ensures
            r@ == Seq::<(String, Action)>::empty(),
    {
        ActionList { elems: Vec::new() }
    }

    /// Appends a pair; an existing pair under the same name stays.
    pub fn insert(&mut self, k: String, v: Action)
        ensures
            final(self)@ == old(self)@.push((k, v)),
    {
        self.elems.push((k, v));
    }

    /// All pairs, in insertion order.
    pub fn as_slice(&self) -> (r: &[(String, Action)])
        ensures
            r@ == self@,
    {
        self.elems.as_slice()
    }

    /// How many pairs the list holds, duplicates counted.
    pub fn len(&self) -> (r: usize)
        ensures
            r == self@.len(),
    {
        self.elems.len()
    }

    /// The pair at position `i` in insertion order.
    pub fn get(&self, i: usize) -> (r: &(String, Action))
        requires
            i < self@.len(),
        ensures
            *r == self@[i as int],
    {
        &self.elems[i]
    }

    /// Linear lookup: the first action stored under `key`, if any.
    pub fn find_str(&self, key: &str) -> (r: Option<&Action>)
        ensures
            match r {
                Some(v) => find_first(self@, key@) == Some(*v),
                None => find_first(self@, key@) is None,
            },
    {
        let n = self.elems.len();
        proof {
            assert(self@.subrange(0, n as int) =~= self@);
        }
        let mut i: usize = 0;
        while i < n
            invariant
                n == self@.len(),
                i <= n,
                find_first(self@, key@) == find_first(self@.subrange(i as int, n as int), key@),
            decreases n - i,
        {
            proof {
                assert(self@.subrange(i as int, n as int)[0] == self@[i as int]);
            }
            if crate::node::str_eq(&self.elems[i].0, key) {
                return Some(&self.elems[i].1);
            }
            proof {
                assert(self@.subrange(i as int, n as int).drop_first() =~= self@.subrange(
                    i + 1 as int,
                    n as int,
                ));
            }
            i = i + 1;
        }
        None
    }
}

} // verus!
