//! Guards that let through values that a shift will truncate.

use crate::u256::U256;
use vstd::prelude::*;

verus! {

/// Whether there is a guard, and it lets through more than the threshold.
pub open spec fn guard_is_weaker_spec(guard_upper_bound: Option<U256>, threshold: U256) -> bool {
    guard_upper_bound is Some && guard_upper_bound->0@ > threshold@
}

/// Whether a guard exists but lets through values above the threshold. No guard at all is not a
/// weak one.
pub fn guard_is_weaker_than_threshold(guard_upper_bound: Option<U256>, threshold: U256) -> (r: bool)
    ensures
        r == guard_is_weaker_spec(guard_upper_bound, threshold),
{
    match guard_upper_bound {
        Some(bound) => threshold.lt(bound),
        None => false,
    }
}

} // verus!
