//! Right shifts that lose low bits.

use crate::domain::bit_facts::{
    discarded_bits_are_zero, lemma_bit_mask, lemma_fits_by_bits, low_bits_are_a_remainder,
};
use crate::domain::bits::{bit, lemma_bit_ones, lemma_bit_ops, lemma_bits_determine};
use crate::domain::formula::{ProofMode, RoundingMode};
use crate::domain::index_set::single_spec;
use crate::domain::risk::{
    origin_key, origin_key_spec, ObligationKind, RiskKind, RiskOrigin, RiskOriginView,
};
use crate::domain::value::{ValueState, ValueStateView};
use crate::domain::widths::{
    is_width, lemma_pow2_fits, low_mask, low_mask_spec, uint_max_spec, width_mask,
};
use crate::model::{dup_all, opt_view};
use crate::rules::{RuleCtx, RuleCtxView};
use crate::text::{decimal, write_u256};
use crate::u256::{lemma_u256_of, U256};
use vstd::arithmetic::power2::pow2;
use vstd::prelude::*;

verus! {

/// The bits that a right shift discards.
pub open spec fn discarded_mask_spec(width: u16, shift_amount: u8) -> U256 {
    low_mask_spec(shift_amount).and_spec(uint_max_spec(width))
}

pub fn discarded_mask(width: u16, shift_amount: u8) -> (r: U256)
    ensures
        r == discarded_mask_spec(width, shift_amount),
{
    low_mask(shift_amount).bitand(width_mask(width))
}

/// Whether a right shift may discard a bit that is one.
pub open spec fn is_lossy(lhs: ValueStateView, width: u16, shift_amount: u8) -> bool {
    let mask = discarded_mask_spec(width, shift_amount);
    mask != U256::zero_spec() && lhs.may_have_bits(mask)
}

/// That the discarded bits are zero, as messages show it.
pub open spec fn lossless_condition_spec(text: Seq<char>, mask: U256) -> Seq<char> {
    "("@ + text + " & "@ + decimal(mask@) + ") == 0"@
}

pub fn lossless_condition(text: &str, mask: U256) -> (r: String)
    ensures
        r@ == lossless_condition_spec(text@, mask),
{
    let mut r: String = "(".to_owned();
    r.append(text);
    r.append(" & ");
    r.append(write_u256(mask).as_str());
    r.append(") == 0");
    r
}

/// The risk of a right shift that may discard bits that are one.
pub open spec fn check_spec(
    ctx: RuleCtxView,
    lhs: ValueStateView,
    lhs_text: Seq<char>,
    width: u16,
    shift_amount: u8,
) -> Option<RiskOriginView> {
    if is_lossy(lhs, width, shift_amount) {
        Some(
            RiskOriginView {
                key: origin_key_spec(RiskKind::ReachableLossyRightShift, ctx.exp_loc),
                kind: RiskKind::ReachableLossyRightShift,
                loc: ctx.exp_loc,
                source_param_index: single_spec(lhs.parameter_dependencies),
                width: Some(width),
                shift_amount: Some(shift_amount),
                threshold: None,
                title: "Reachable lossy right shift on a value-bearing path"@,
                expr_text: lhs_text,
                failed_condition: lossless_condition_spec(
                    lhs_text,
                    discarded_mask_spec(width, shift_amount),
                ),
                path_facts: ctx.path_facts,
                source_interval: lhs.interval.describe_spec(),
                source_name: lhs_text,
                helper_name: Some(ctx.fn_name),
                helper_like: false,
                guard_mismatch: false,
                obligation_kind: ObligationKind::Absent,
                proof_mode: ProofMode::Abstract,
                rounding_mode: Some(RoundingMode::RoundDown),
            },
        )
    } else {
        None
    }
}

/// Whether `lhs >> shift_amount` may discard low bits that are one: `None` where no bit is
/// discarded, or the known bits show that all discarded ones are zero.
pub fn check(ctx: &RuleCtx, lhs: &ValueState, lhs_text: &str, width: u16, shift_amount: u8) -> (r:
    Option<RiskOrigin>)
    ensures
        opt_view(r) == check_spec(ctx@, lhs@, lhs_text@, width, shift_amount),
{
    let mask: U256 = discarded_mask(width, shift_amount);
    if mask == U256::zero() {
        return None;
    }
    if !lhs.may_have_non_zero_bits(mask) {
        return None;
    }
    Some(
        RiskOrigin {
            key: origin_key(RiskKind::ReachableLossyRightShift, ctx.exp_loc),
            kind: RiskKind::ReachableLossyRightShift,
            loc: ctx.exp_loc,
            source_param_index: lhs.parameter_dependencies.single(),
            width: Some(width),
            shift_amount: Some(shift_amount),
            threshold: None,
            title: "Reachable lossy right shift on a value-bearing path".to_owned(),
            expr_text: lhs_text.to_owned(),
            failed_condition: lossless_condition(lhs_text, mask),
            path_facts: dup_all(&ctx.path_facts),
            source_interval: lhs.interval.describe(),
            source_name: lhs_text.to_owned(),
            helper_name: Some(ctx.fn_name.clone()),
            helper_like: false,
            guard_mismatch: false,
            obligation_kind: ObligationKind::Absent,
            proof_mode: ProofMode::Abstract,
            rounding_mode: Some(RoundingMode::RoundDown),
        },
    )
}

/// A right shift of a value that stands for `x` is not reported only where it is exact: where
/// `2^shift` divides `x`.
pub proof fn unreported_right_shifts_are_exact(
    lhs: ValueStateView,
    width: u16,
    shift_amount: u8,
    x: U256,
)
    requires
        is_width(width),
        lhs.admits(x),
        x@ <= uint_max_spec(width)@,
        !is_lossy(lhs, width, shift_amount),
    ensures
        x@ % pow2(shift_amount as nat) == 0,
{
    let s = shift_amount as nat;
    let low = low_mask_spec(shift_amount);
    let mask = discarded_mask_spec(width, shift_amount);
    let zero = U256::zero_spec();
    lemma_pow2_fits(s);
    lemma_u256_of((pow2(s) - 1) as nat);
    assert forall|i: nat| i < 256 implies #[trigger] bit(mask@, i) == (i < s && i < width) by {
        lemma_bit_ops(low, uint_max_spec(width), i);
        lemma_bit_ones(s, i);
        lemma_bit_mask(width, i);
    }
    assert forall|i: nat| i < 256 implies !#[trigger] bit(zero@, i) by {
        vstd::arithmetic::power2::lemma_pow2_pos(i);
        vstd::arithmetic::div_mod::lemma_basic_div(0, pow2(i) as int);
    }
    if mask == zero {
        assert(bit(mask@, 0) == (0 < s && 0 < width));
        assert(!bit(zero@, 0));
    } else {
        discarded_bits_are_zero(lhs.bit_facts->0, mask, x);
    }
    lemma_fits_by_bits(x, width);
    let y = x.and_spec(low);
    assert forall|i: nat| i < 256 implies #[trigger] bit(y@, i) == bit(zero@, i) by {
        lemma_bit_ops(x, low, i);
        lemma_bit_ones(s, i);
        lemma_bit_ops(x, mask, i);
        assert(bit(mask@, i) == (i < s && i < width));
        assert(!bit(zero@, i));
    }
    lemma_bits_determine(y, zero);
    low_bits_are_a_remainder(x, shift_amount);
}

} // verus!
