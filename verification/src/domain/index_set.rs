//! Sets of positions.

use crate::model::{Dup, SameView};
use vstd::prelude::*;

verus! {

/// A set of positions; its view is the set.
#[derive(Clone, Debug, PartialEq, Eq)]
pub struct IndexSet {
    pub flags: Vec<bool>,
}

impl View for IndexSet {
    type V = Set<usize>;

    open spec fn view(&self) -> Set<usize> {
        Set::new(|i: usize| i < self.flags@.len() && self.flags@[i as int])
    }
}

/// The one element of a set that has just one.
pub open spec fn single_spec(s: Set<usize>) -> Option<usize> {
    if exists|i: usize| s == #[trigger] set![i] {
        Some(choose|i: usize| s == #[trigger] set![i])
    } else {
        None
    }
}

/// A set that is `{i}` has `i` as its one element.
pub proof fn lemma_single(s: Set<usize>, i: usize)
    requires
        s == set![i],
    ensures
        single_spec(s) == Some(i),
{
    let j = choose|j: usize| s == #[trigger] set![j];
    assert(s.contains(i));
    assert(set![j].contains(i));
}

/// A set with no element, or with two, has no single element.
pub proof fn lemma_not_single(s: Set<usize>)
    requires
        s == Set::<usize>::empty() || exists|i: usize, j: usize|
            i != j && #[trigger] s.contains(i) && #[trigger] s.contains(j),
    ensures
        single_spec(s) is None,
{
    assert forall|k: usize| s != #[trigger] set![k] by {
        assert(set![k].contains(k));
    }
}

impl IndexSet {
    pub fn new() -> (r: Self)
        ensures
            r@ == Set::<usize>::empty(),
    {
        let r = IndexSet { flags: Vec::new() };
        assert(r@ =~= Set::<usize>::empty());
        r
    }

    pub fn contains(&self, i: usize) -> (r: bool)
        ensures
            r == self@.contains(i),
    {
        i < self.flags.len() && self.flags[i]
    }

    pub fn insert(&mut self, i: usize)
        requires
            i < usize::MAX,
        ensures
            final(self)@ == old(self)@.insert(i),
    {
        while self.flags.len() <= i
            invariant
                self@ =~= old(self)@,
                i < usize::MAX,
            decreases i + 1 - self.flags@.len(),
        {
            self.flags.push(false);
        }
        self.flags.set(i, true);
        assert(self@ =~= old(self)@.insert(i));
    }

    /// Adds all elements of another set.
    pub fn extend(&mut self, other: &IndexSet)
        ensures
            final(self)@ == old(self)@.union(other@),
    {
        let ghost start = self@;
        let mut i: usize = 0;
        while i < other.flags.len()
            invariant
                i <= other.flags@.len(),
                self@ =~= start.union(other@.filter(|k: usize| k < i)),
            decreases other.flags@.len() - i,
        {
            if other.flags[i] {
                self.insert(i);
            }
            i = i + 1;
        }
        assert(self@ =~= start.union(other@));
    }

    /// The one element, where there is just one.
    pub fn single(&self) -> (r: Option<usize>)
        ensures
            r == single_spec(self@),
    {
        let mut found: Option<usize> = None;
        let mut i: usize = 0;
        while i < self.flags.len()
            invariant
                i <= self.flags@.len(),
                match found {
                    Some(k) => k < i && self@.filter(|j: usize| j < i) =~= set![k],
                    None => self@.filter(|j: usize| j < i) =~= Set::<usize>::empty(),
                },
            decreases self.flags@.len() - i,
        {
            if self.flags[i] {
                match found {
                    Some(k) => {
                        proof {
                            assert(set![k].contains(k));
                            assert(self@.filter(|j: usize| j < i).contains(k));
                            assert(self@.contains(k) && self@.contains(i));
                            lemma_not_single(self@);
                        }
                        return None;
                    },
                    None => {
                        found = Some(i);
                    },
                }
            }
            i = i + 1;
        }
        assert(self@.filter(|j: usize| j < i) =~= self@);
        proof {
            match found {
                Some(k) => lemma_single(self@, k),
                None => lemma_not_single(self@),
            }
        }
        found
    }
}

impl Dup for IndexSet {
    fn dup(&self) -> (r: Self) {
        let mut r = IndexSet::new();
        r.extend(self);
        assert(r@ =~= self@);
        r
    }
}

impl SameView for IndexSet {
    fn same(&self, other: &Self) -> (r: bool) {
        let mut i: usize = 0;
        while i < self.flags.len()
            invariant
                i <= self.flags@.len(),
                forall|j: usize| j < i && self@.contains(j) ==> other@.contains(j),
            decreases self.flags@.len() - i,
        {
            if self.flags[i] && !other.contains(i) {
                assert(self@.contains(i));
                return false;
            }
            i = i + 1;
        }
        let mut i: usize = 0;
        while i < other.flags.len()
            invariant
                i <= other.flags@.len(),
                forall|j: usize| j < i && other@.contains(j) ==> self@.contains(j),
            decreases other.flags@.len() - i,
        {
            if other.flags[i] && !self.contains(i) {
                assert(other@.contains(i));
                return false;
            }
            i = i + 1;
        }
        assert(self@ =~= other@);
        true
    }
}

} // verus!
