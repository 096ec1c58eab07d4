//! The values of the variables of a function.

use crate::domain::value::{ValueState, ValueStateView};
use crate::model::{Dup, SameView};
use std::collections::BTreeMap;
use vstd::prelude::*;

verus! {

broadcast use {vstd::laws_cmp::group_laws_cmp, vstd::std_specs::btree::group_btree_axioms};

/// The values of some variables, by the places of the variables.
#[derive(Clone, Debug, PartialEq, Eq)]
pub struct Locals {
    pub map: BTreeMap<usize, ValueState>,
}

impl View for Locals {
    type V = Map<usize, ValueStateView>;

    open spec fn view(&self) -> Map<usize, ValueStateView> {
        self.map@.map_values(|v: ValueState| v@)
    }
}

/// The joins of the values that both sides have, and the values that only one side has.
pub open spec fn join_locals(
    a: Map<usize, ValueStateView>,
    b: Map<usize, ValueStateView>,
) -> Map<usize, ValueStateView> {
    Map::new(
        |k: usize| a.contains_key(k) || b.contains_key(k),
        |k: usize|
            if a.contains_key(k) && b.contains_key(k) {
                a[k].join_spec(b[k])
            } else if a.contains_key(k) {
                a[k]
            } else {
                b[k]
            },
    )
}

impl Locals {
    pub fn new() -> (r: Self)
        ensures
            r@ == Map::<usize, ValueStateView>::empty(),
    {
        let r = Locals { map: BTreeMap::new() };
        assert(r@ =~= Map::<usize, ValueStateView>::empty());
        r
    }

    pub fn get(&self, k: usize) -> (r: Option<&ValueState>)
        ensures
            match r {
                Some(v) => self@.contains_key(k) && v@ == self@[k],
                None => !self@.contains_key(k),
            },
    {
        self.map.get(&k)
    }

    pub fn insert(&mut self, k: usize, v: ValueState)
        ensures
            final(self)@ == old(self)@.insert(k, v@),
    {
        self.map.insert(k, v);
        assert(self@ =~= old(self)@.insert(k, v@));
    }

    pub fn join(&self, other: &Self) -> (r: Self)
        ensures
            r@ == join_locals(self@, other@),
    {
        let mut r = Locals::new();
        for kv in it: self.map.iter()
            invariant
                forall|i: int|
                    0 <= i < it.seq().len() ==> self.map@.contains_key(
                        *(#[trigger] it.seq()[i]).0,
                    ) && self.map@[*it.seq()[i].0] == *it.seq()[i].1,
                forall|k: usize| #[trigger]
                    self.map@.contains_key(k) ==> it.seq().contains((&k, &self.map@[k])),
                forall|i: int|
                    0 <= i < it.index() ==> r@.contains_key(*(#[trigger] it.seq()[i]).0),
                forall|k: usize| #[trigger]
                    r@.contains_key(k) ==> self@.contains_key(k) && r@[k] == join_locals(
                        self@,
                        other@,
                    )[k],
        {
            let (k, v) = kv;
            let joined = match other.get(*k) {
                Some(w) => v.join(w),
                None => v.dup(),
            };
            assert(self@.contains_key(*k) && self@[*k] == v@);
            r.insert(*k, joined);
        }
        assert forall|k: usize| #[trigger] self@.contains_key(k) implies r@.contains_key(k) by {
            assert(self.map@.contains_key(k));
        }
        let ghost first = r@;
        for kv in it: other.map.iter()
            invariant
                forall|i: int|
                    0 <= i < it.seq().len() ==> other.map@.contains_key(
                        *(#[trigger] it.seq()[i]).0,
                    ) && other.map@[*it.seq()[i].0] == *it.seq()[i].1,
                forall|k: usize| #[trigger]
                    other.map@.contains_key(k) ==> it.seq().contains((&k, &other.map@[k])),
                forall|k: usize| #[trigger] self@.contains_key(k) ==> r@.contains_key(k),
                forall|i: int|
                    0 <= i < it.index() ==> r@.contains_key(*(#[trigger] it.seq()[i]).0),
                forall|k: usize| #[trigger]
                    r@.contains_key(k) ==> join_locals(self@, other@).contains_key(k) && r@[k]
                        == join_locals(self@, other@)[k],
        {
            let (k, v) = kv;
            if self.get(*k).is_none() {
                assert(other@.contains_key(*k) && other@[*k] == v@);
                r.insert(*k, v.dup());
            }
        }
        assert forall|k: usize| #[trigger] other@.contains_key(k) implies r@.contains_key(k) by {
            assert(other.map@.contains_key(k));
        }
        assert(r@ =~= join_locals(self@, other@));
        r
    }
}

impl SameView for Locals {
    fn same(&self, other: &Self) -> (r: bool) {
        for kv in it: self.map.iter()
            invariant
                forall|i: int|
                    0 <= i < it.seq().len() ==> self.map@.contains_key(
                        *(#[trigger] it.seq()[i]).0,
                    ) && self.map@[*it.seq()[i].0] == *it.seq()[i].1,
                forall|k: usize| #[trigger]
                    self.map@.contains_key(k) ==> it.seq().contains((&k, &self.map@[k])),
                forall|i: int|
                    0 <= i < it.index() ==> other@.contains_key(*(#[trigger] it.seq()[i]).0)
                        && other@[*it.seq()[i].0] == it.seq()[i].1@,
        {
            let (k, v) = kv;
            assert(self@.contains_key(*k) && self@[*k] == v@);
            match other.get(*k) {
                Some(w) => {
                    if !v.same(w) {
                        return false;
                    }
                },
                None => {
                    return false;
                },
            }
        }
        assert forall|k: usize| #[trigger] self@.contains_key(k) implies other@.contains_key(k)
            && other@[k] == self@[k] by {
            assert(self.map@.contains_key(k));
        }
        for kv in it: other.map.iter()
            invariant
                forall|i: int|
                    0 <= i < it.seq().len() ==> other.map@.contains_key(
                        *(#[trigger] it.seq()[i]).0,
                    ) && other.map@[*it.seq()[i].0] == *it.seq()[i].1,
                forall|k: usize| #[trigger]
                    other.map@.contains_key(k) ==> it.seq().contains((&k, &other.map@[k])),
                forall|k: usize| #[trigger]
                    self@.contains_key(k) ==> other@.contains_key(k) && other@[k] == self@[k],
                forall|i: int|
                    0 <= i < it.index() ==> self@.contains_key(*(#[trigger] it.seq()[i]).0),
        {
            let (k, v) = kv;
            assert(other@.contains_key(*k));
            if self.get(*k).is_none() {
                return false;
            }
        }
        assert forall|k: usize| #[trigger] other@.contains_key(k) implies self@.contains_key(k) by {
            assert(other.map@.contains_key(k));
        }
        assert(self@ =~= other@);
        true
    }
}

impl Dup for Locals {
    fn dup(&self) -> (r: Self) {
        let mut r = Locals::new();
        for kv in it: self.map.iter()
            invariant
                forall|i: int|
                    0 <= i < it.seq().len() ==> self.map@.contains_key(
                        *(#[trigger] it.seq()[i]).0,
                    ) && self.map@[*it.seq()[i].0] == *it.seq()[i].1,
                forall|k: usize| #[trigger]
                    self.map@.contains_key(k) ==> it.seq().contains((&k, &self.map@[k])),
                forall|i: int|
                    0 <= i < it.index() ==> r@.contains_key(*(#[trigger] it.seq()[i]).0),
                forall|k: usize| #[trigger]
                    r@.contains_key(k) ==> self@.contains_key(k) && r@[k] == self@[k],
        {
            let (k, v) = kv;
            r.insert(*k, v.dup());
        }
        assert forall|k: usize| #[trigger] self@.contains_key(k) implies r@.contains_key(k) by {
            assert(self.map@.contains_key(k));
        }
        assert(r@ =~= self@);
        r
    }
}

} // verus!
