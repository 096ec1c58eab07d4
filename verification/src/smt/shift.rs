//! Operands of left shifts.

use crate::domain::risk::{ConstraintOp, PathFact, PathFactView};
use crate::model::views;
use crate::u256::{lemma_u256_of, lemma_u256_view, U256};
use vstd::prelude::*;

verus! {

/// The largest value that a path fact leaves to its variable.
pub open spec fn implied_upper_spec(fact: PathFactView) -> Option<U256> {
    match fact.op {
        ConstraintOp::Lt => match fact.bound {
            Some(bound) => bound.sub_spec(U256::one_spec()),
            None => None,
        },
        ConstraintOp::Le | ConstraintOp::Eq => fact.bound,
        _ => None,
    }
}

/// Whether a path fact keeps its variable at or below the threshold.
pub open spec fn fact_proves_safe(fact: PathFactView, threshold: U256) -> bool {
    implied_upper_spec(fact) is Some && implied_upper_spec(fact)->0@ <= threshold@
}

pub open spec fn path_proves_safe_spec(threshold: U256, facts: Seq<PathFactView>) -> bool {
    exists|i: int| 0 <= i < facts.len() && fact_proves_safe(#[trigger] facts[i], threshold)
}

fn proves_safe(fact: &PathFact, threshold: U256) -> (r: bool)
    ensures
        r == fact_proves_safe(fact@, threshold),
{
    let implied_upper: Option<U256> = match fact.op {
        ConstraintOp::Lt => match fact.bound {
            Some(bound) => bound.checked_sub(U256::one()),
            None => None,
        },
        ConstraintOp::Le | ConstraintOp::Eq => fact.bound,
        _ => None,
    };
    match implied_upper {
        Some(upper) => upper.le(threshold),
        None => false,
    }
}

/// Whether one of the facts about a variable keeps it at or below the threshold.
pub fn path_proves_safe(threshold: U256, var_facts: &Vec<PathFact>) -> (r: bool)
    ensures
        r == path_proves_safe_spec(threshold, views(var_facts@)),
{
    let mut i: usize = 0;
    while i < var_facts.len()
        invariant
            i <= var_facts@.len(),
            forall|j: int|
                0 <= j < i ==> !fact_proves_safe(#[trigger] views(var_facts@)[j], threshold),
        decreases var_facts@.len() - i,
    {
        if proves_safe(&var_facts[i], threshold) {
            assert(fact_proves_safe(views(var_facts@)[i as int], threshold));
            return true;
        }
        assert(!fact_proves_safe(views(var_facts@)[i as int], threshold));
        i = i + 1;
    }
    false
}

/// Whether the range of the operand, or one of the facts about it, keeps it at or below the
/// threshold.
pub fn proven_safe(lhs_upper: Option<U256>, threshold: U256, var_facts: &Vec<PathFact>) -> (r: bool)
    ensures
        r == ((lhs_upper is Some && lhs_upper->0@ <= threshold@) || path_proves_safe_spec(
            threshold,
            views(var_facts@),
        )),
{
    if let Some(upper) = lhs_upper {
        if upper.le(threshold) {
            return true;
        }
    }
    path_proves_safe(threshold, var_facts)
}

/// A value that meets all facts about its variable does not exceed a threshold that they prove.
pub proof fn safe_operands_stay_below(threshold: U256, facts: Seq<PathFactView>, x: U256)
    requires
        path_proves_safe_spec(threshold, facts),
        forall|i: int|
            0 <= i < facts.len() && (#[trigger] facts[i]).bound is Some ==> facts[i].op.holds(
                x@,
                facts[i].bound->0@,
            ),
    ensures
        x@ <= threshold@,
{
    let i = choose|i: int| 0 <= i < facts.len() && fact_proves_safe(#[trigger] facts[i], threshold);
    let bound = facts[i].bound->0;
    lemma_u256_view(bound);
    if bound@ >= 1 {
        lemma_u256_of((bound@ - 1) as nat);
    }
    assert(U256::one_spec()@ == 1);
}

} // verus!
