//! What is known at a program point.

use crate::domain::locals::{join_locals, Locals};
use crate::domain::risk::{PathFact, PathFactView};
use crate::domain::value::{join_admits_both, ValueStateView};
use crate::model::{dup_all, holds, same_all, views, Dup, SameView};
use crate::u256::U256;
use vstd::prelude::*;

verus! {

#[derive(Clone, Debug, PartialEq, Eq)]
pub struct AbstractState {
    pub locals: Locals,
    pub path_facts: Vec<PathFact>,
    pub unreachable: bool,
}

#[verifier::ext_equal]
pub struct AbstractStateView {
    pub locals: Map<usize, ValueStateView>,
    pub path_facts: Seq<PathFactView>,
    pub unreachable: bool,
}

impl View for AbstractState {
    type V = AbstractStateView;

    open spec fn view(&self) -> AbstractStateView {
        AbstractStateView {
            locals: self.locals@,
            path_facts: views(self.path_facts@),
            unreachable: self.unreachable,
        }
    }
}

impl Dup for AbstractState {
    fn dup(&self) -> (r: Self) {
        AbstractState {
            locals: self.locals.dup(),
            path_facts: dup_all(&self.path_facts),
            unreachable: self.unreachable,
        }
    }
}

impl SameView for AbstractState {
    fn same(&self, other: &Self) -> (r: bool) {
        self.unreachable == other.unreachable && same_all(&self.path_facts, &other.path_facts)
            && self.locals.same(&other.locals)
    }
}

impl AbstractStateView {
    pub open spec fn new_spec() -> AbstractStateView {
        AbstractStateView {
            locals: Map::empty(),
            path_facts: Seq::empty(),
            unreachable: false,
        }
    }

    pub open spec fn join_spec(self, other: AbstractStateView) -> AbstractStateView {
        if self.unreachable {
            other
        } else if other.unreachable {
            self
        } else {
            AbstractStateView {
                locals: join_locals(self.locals, other.locals),
                path_facts: self.path_facts.filter(
                    |fact: PathFactView| other.path_facts.contains(fact),
                ),
                unreachable: false,
            }
        }
    }

    /// The texts of the path facts.
    pub open spec fn fact_texts(self) -> Seq<Seq<char>> {
        Seq::new(self.path_facts.len(), |i: int| self.path_facts[i].text)
    }
}

impl AbstractState {
    pub fn new() -> (r: Self)
        ensures
            r@ == AbstractStateView::new_spec(),
    {
        let r = AbstractState { locals: Locals::new(), path_facts: Vec::new(), unreachable: false };
        assert(r@ =~= AbstractStateView::new_spec());
        r
    }

    pub fn bottom() -> (r: Self)
        ensures
            r@ == (AbstractStateView { unreachable: true, ..AbstractStateView::new_spec() }),
    {
        let mut r = AbstractState::new();
        r.unreachable = true;
        r
    }

    pub fn join(&self, other: &Self) -> (r: Self)
        ensures
            r@ == self@.join_spec(other@),
    {
        if self.unreachable {
            return other.dup();
        }
        if other.unreachable {
            return self.dup();
        }
        let ghost shared = |fact: PathFactView| other@.path_facts.contains(fact);
        let ghost all = self@.path_facts;
        let mut path_facts: Vec<PathFact> = Vec::new();
        let mut i: usize = 0;
        assert(views(path_facts@) =~= all.take(0).filter(shared)) by {
            reveal(Seq::filter);
        }
        while i < self.path_facts.len()
            invariant
                i <= self.path_facts@.len(),
                all == views(self.path_facts@),
                shared == (|fact: PathFactView| other@.path_facts.contains(fact)),
                views(path_facts@) == all.take(i as int).filter(shared),
            decreases self.path_facts@.len() - i,
        {
            let ghost before = path_facts@;
            assert(all.take(i + 1).drop_last() =~= all.take(i as int));
            proof {
                reveal(Seq::filter);
            }
            if holds(&other.path_facts, &self.path_facts[i]) {
                path_facts.push(self.path_facts[i].dup());
                assert(views(path_facts@) =~= views(before).push(all[i as int]));
            }
            i = i + 1;
        }
        assert(all.take(i as int) =~= all);
        AbstractState { locals: self.locals.join(&other.locals), path_facts, unreachable: false }
    }

    /// The texts of the path facts.
    pub fn path_fact_texts(&self) -> (r: Vec<String>)
        ensures
            views(r@) == self@.fact_texts(),
    {
        let mut r: Vec<String> = Vec::new();
        let mut i: usize = 0;
        while i < self.path_facts.len()
            invariant
                i <= self.path_facts@.len(),
                views(r@) =~= self@.fact_texts().take(i as int),
            decreases self.path_facts@.len() - i,
        {
            let ghost before = r@;
            r.push(self.path_facts[i].text.clone());
            assert(views(r@) =~= views(before).push(self.path_facts@[i as int].text@));
            i = i + 1;
        }
        assert(self@.fact_texts().take(i as int) =~= self@.fact_texts());
        r
    }
}

/// After a join, a variable that has a value on both sides stands for every number that it stands
/// for on either, and a path fact holds exactly where it holds on both.
pub proof fn join_keeps_both_sides(
    a: AbstractStateView,
    b: AbstractStateView,
    k: usize,
    x: U256,
    fact: PathFactView,
)
    requires
        !a.unreachable,
        !b.unreachable,
    ensures
        a.locals.contains_key(k) && b.locals.contains_key(k) && a.locals[k].valid()
            && b.locals[k].valid() && (a.locals[k].admits(x) || b.locals[k].admits(x))
            ==> a.join_spec(b).locals.contains_key(k) && a.join_spec(b).locals[k].admits(x),
        a.join_spec(b).path_facts.contains(fact) <==> a.path_facts.contains(fact)
            && b.path_facts.contains(fact),
        !a.join_spec(b).unreachable,
{
    if a.locals.contains_key(k) && b.locals.contains_key(k) && a.locals[k].valid()
        && b.locals[k].valid() && (a.locals[k].admits(x) || b.locals[k].admits(x)) {
        join_admits_both(a.locals[k], b.locals[k], x);
    }
    let shared = |f: PathFactView| b.path_facts.contains(f);
    let kept = a.path_facts.filter(shared);
    if kept.contains(fact) {
        a.path_facts.lemma_filter_contains_rev(shared, fact);
        a.path_facts.lemma_filter_pred(shared, choose|i: int| 0 <= i < kept.len() && kept[i] == fact);
    }
    if a.path_facts.contains(fact) && b.path_facts.contains(fact) {
        a.path_facts.lemma_filter_contains(
            shared,
            choose|i: int| 0 <= i < a.path_facts.len() && a.path_facts[i] == fact,
        );
    }
}

/// An unreachable state adds nothing to a join.
pub proof fn unreachable_is_neutral(a: AbstractStateView, b: AbstractStateView)
    requires
        a.unreachable || b.unreachable,
    ensures
        a.unreachable ==> a.join_spec(b) == b,
        !a.unreachable ==> a.join_spec(b) == a,
{
}

} // verus!
