//! Bounds of single values.

use crate::domain::value::{ValueState, ValueStateView};
use crate::u256::U256;
use vstd::prelude::*;

verus! {

pub open spec fn proven_in_range_spec(value: ValueStateView, lo: U256, hi: U256) -> bool {
    value.interval.lower is Some && value.interval.lower->0@ >= lo@ && value.interval.at_most_spec(
        hi,
    )
}

/// Whether the value lies between the two bounds.
pub fn proven_in_range(value: &ValueState, lo: U256, hi: U256) -> (r: bool)
    ensures
        r == proven_in_range_spec(value@, lo, hi),
{
    let lower_ok: bool = match value.interval.lower {
        Some(lower) => lo.le(lower),
        None => false,
    };
    lower_ok && value.interval.at_most(hi)
}

pub open spec fn proven_non_zero_spec(value: ValueStateView) -> bool {
    value.interval.positive_spec() || (value.formula_facts is Some
        && value.formula_facts->0.all_factors_positive())
}

/// Whether the value, or each of its factors, is known to be above zero.
pub fn proven_non_zero(value: &ValueState) -> (r: bool)
    ensures
        r == proven_non_zero_spec(value@),
{
    if value.interval.positive() {
        return true;
    }
    match &value.formula_facts {
        Some(facts) => facts.all_factors_strict_positive(),
        None => false,
    }
}

/// A value that is proved to lie in a range stands for no number outside it.
pub proof fn range_claims_hold(value: ValueStateView, lo: U256, hi: U256, x: U256)
    requires
        value.interval.contains(x@),
        proven_in_range_spec(value, lo, hi),
    ensures
        lo@ <= x@ <= hi@,
{
}

} // verus!
