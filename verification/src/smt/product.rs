//! Products of two values.

use crate::domain::value::{exact_value_is_unique, ValueState, ValueStateView};
use crate::u256::{lemma_u256_of, U256};
use vstd::prelude::*;

verus! {

pub open spec fn proven_strictly_positive_spec(lhs: ValueStateView, rhs: ValueStateView) -> bool {
    lhs.interval.positive_spec() && rhs.interval.positive_spec()
}

/// Whether the product of the two values is above zero.
pub fn proven_strictly_positive(lhs: &ValueState, rhs: &ValueState) -> (r: bool)
    ensures
        r == proven_strictly_positive_spec(lhs@, rhs@),
{
    lhs.interval.positive() && rhs.interval.positive()
}

pub open spec fn proven_lower_bound_spec(lhs: ValueStateView, rhs: ValueStateView) -> Option<U256> {
    if proven_strictly_positive_spec(lhs, rhs) {
        lhs.interval.lower->0.mul_spec(rhs.interval.lower->0)
    } else {
        None
    }
}

/// A bound that the product of the two values does not fall below, where both are above zero and
/// the bound is a number of 256 bits.
pub fn proven_lower_bound(lhs: &ValueState, rhs: &ValueState) -> (r: Option<U256>)
    ensures
        r == proven_lower_bound_spec(lhs@, rhs@),
{
    if !lhs.interval.positive() || !rhs.interval.positive() {
        return None;
    }
    match (lhs.interval.lower, rhs.interval.lower) {
        (Some(lhs_lower), Some(rhs_lower)) => lhs_lower.checked_mul(rhs_lower),
        _ => None,
    }
}

pub open spec fn definitely_zero_spec(lhs: ValueStateView, rhs: ValueStateView) -> bool {
    lhs.exact_value_spec() == Some(U256::zero_spec()) || rhs.exact_value_spec() == Some(
        U256::zero_spec(),
    )
}

/// Whether the product of the two values is zero.
pub fn definitely_zero(lhs: &ValueState, rhs: &ValueState) -> (r: bool)
    ensures
        r == definitely_zero_spec(lhs@, rhs@),
{
    lhs.exact_value() == Some(U256::zero()) || rhs.exact_value() == Some(U256::zero())
}

/// What is claimed of a product holds of the product of any two numbers that the values stand
/// for.
pub proof fn product_claims_hold(lhs: ValueStateView, rhs: ValueStateView, x: U256, y: U256)
    requires
        lhs.valid(),
        rhs.valid(),
        lhs.admits(x),
        rhs.admits(y),
    ensures
        proven_strictly_positive_spec(lhs, rhs) ==> x@ * y@ > 0,
        proven_lower_bound_spec(lhs, rhs) is Some ==> proven_lower_bound_spec(lhs, rhs)->0@ <= x@
            * y@,
        definitely_zero_spec(lhs, rhs) ==> x@ * y@ == 0,
{
    if proven_strictly_positive_spec(lhs, rhs) {
        let a = lhs.interval.lower->0@;
        let b = rhs.interval.lower->0@;
        let xn = x@;
        let yn = y@;
        assert(0 < xn * yn && a * b <= xn * yn) by (nonlinear_arith)
            requires
                0 < a <= xn,
                0 < b <= yn,
        ;
        if proven_lower_bound_spec(lhs, rhs) is Some {
            lemma_u256_of(a * b);
        }
    }
    if definitely_zero_spec(lhs, rhs) {
        if lhs.exact_value_spec() == Some(U256::zero_spec()) {
            exact_value_is_unique(lhs, x);
        } else {
            exact_value_is_unique(rhs, y);
        }
        let xn = x@;
        let yn = y@;
        assert(xn * yn == 0) by (nonlinear_arith)
            requires
                xn == 0 || yn == 0,
        ;
    }
}

} // verus!
