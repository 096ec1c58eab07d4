//! Small proofs about products, shifts and bounds.

pub mod bounds;
pub mod product;
pub mod shift;

use crate::ast::Var;
use crate::domain::risk::{PathFact, PathFactView};
use crate::domain::state::{AbstractState, AbstractStateView};
use crate::model::{views, Dup};
use vstd::prelude::*;

verus! {

/// The path facts about a variable, in order.
pub open spec fn facts_for_var(st: AbstractStateView, var: Var) -> Seq<PathFactView> {
    st.path_facts.filter(|fact: PathFactView| fact.var == Some(var))
}

pub fn path_facts_for_var(state: &AbstractState, var: Var) -> (r: Vec<PathFact>)
    ensures
        views(r@) == facts_for_var(state@, var),
{
    let ghost all = state@.path_facts;
    let ghost about = |fact: PathFactView| fact.var == Some(var);
    let mut r: Vec<PathFact> = Vec::new();
    let mut i: usize = 0;
    assert(views(r@) =~= all.take(0).filter(about)) by {
        reveal(Seq::filter);
    }
    while i < state.path_facts.len()
        invariant
            i <= state.path_facts@.len(),
            all == views(state.path_facts@),
            about == (|fact: PathFactView| fact.var == Some(var)),
            views(r@) == all.take(i as int).filter(about),
        decreases state.path_facts@.len() - i,
    {
        let ghost start = r@;
        assert(all.take(i + 1).drop_last() =~= all.take(i as int));
        proof {
            reveal(Seq::filter);
        }
        if state.path_facts[i].var == Some(var) {
            r.push(state.path_facts[i].dup());
            assert(views(r@) =~= views(start).push(all[i as int]));
        }
        i = i + 1;
    }
    assert(all.take(i as int) =~= all);
    r
}

} // verus!
