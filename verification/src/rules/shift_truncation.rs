//! Left shifts that lose high bits.

use crate::domain::formula::ProofMode;
use crate::domain::index_set::single_spec;
use crate::domain::risk::{
    origin_key, origin_key_spec, ObligationKind, RiskKind, RiskOrigin, RiskOriginView,
};
use crate::domain::value::{ValueState, ValueStateView};
use crate::domain::widths::{is_width, uint_max, uint_max_spec};
use crate::model::{dup_all, opt_view};
use crate::rules::{RuleCtx, RuleCtxView};
use crate::rules::fake_checked_shift::{guard_is_weaker_spec, guard_is_weaker_than_threshold};
use crate::text::{decimal, write_u128, write_u256};
use crate::u256::{lemma_u256_of, lemma_u256_view, U256};
use vstd::arithmetic::power2::pow2;
use vstd::prelude::*;

verus! {

pub open spec fn no_truncation_threshold_spec(width: u16, shift: u8) -> U256 {
    uint_max_spec(width).shr_spec(shift as nat)
}

/// The largest value that can be shifted left by `shift` bits without losing any.
pub fn no_truncation_threshold(width: u16, shift: u8) -> (r: U256)
    ensures
        r == no_truncation_threshold_spec(width, shift),
{
    uint_max(width).shr(shift)
}

/// The bound that the operand of a left shift has to meet, as messages show it.
pub open spec fn truncation_condition_spec(
    text: Seq<char>,
    threshold: U256,
    width: u16,
    shift: u8,
) -> Seq<char> {
    text + " <= "@ + decimal(threshold@) + " (MAX_U"@ + decimal(width as nat) + " >> "@ + decimal(
        shift as nat,
    ) + ")"@
}

pub fn truncation_condition(text: &str, threshold: U256, width: u16, shift: u8) -> (r: String)
    ensures
        r@ == truncation_condition_spec(text@, threshold, width, shift),
{
    let mut r: String = text.to_owned();
    r.append(" <= ");
    r.append(write_u256(threshold).as_str());
    r.append(" (MAX_U");
    r.append(write_u128(width as u128).as_str());
    r.append(" >> ");
    r.append(write_u128(shift as u128).as_str());
    r.append(")");
    r
}

/// The risk of a left shift that may lose high bits.
pub open spec fn check_shl_spec(
    ctx: RuleCtxView,
    lhs: ValueStateView,
    lhs_text: Seq<char>,
    width: u16,
    shift_amount: u8,
    guard_upper_bound: Option<U256>,
) -> Option<RiskOriginView> {
    let threshold = no_truncation_threshold_spec(width, shift_amount);
    let weak = guard_is_weaker_spec(guard_upper_bound, threshold);
    let kind = if weak {
        RiskKind::FakeCheckedShift
    } else {
        RiskKind::ReachableShiftTruncation
    };
    if lhs.interval.at_most_spec(threshold) {
        None
    } else {
        Some(
            RiskOriginView {
                key: origin_key_spec(kind, ctx.exp_loc),
                kind,
                loc: ctx.exp_loc,
                source_param_index: single_spec(lhs.parameter_dependencies),
                width: Some(width),
                shift_amount: Some(shift_amount),
                threshold: Some(threshold),
                title: if weak {
                    "Custom checked-shift helper may be unsound on a reachable path"@
                } else {
                    "Reachable truncating left shift on a value-bearing path"@
                },
                expr_text: lhs_text,
                failed_condition: truncation_condition_spec(
                    lhs_text,
                    threshold,
                    width,
                    shift_amount,
                ),
                path_facts: ctx.path_facts,
                source_interval: lhs.interval.describe_spec(),
                source_name: lhs_text,
                helper_name: Some(ctx.fn_name),
                helper_like: false,
                guard_mismatch: weak,
                obligation_kind: ObligationKind::Absent,
                proof_mode: ProofMode::Abstract,
                rounding_mode: None,
            },
        )
    }
}

/// Whether `lhs << shift_amount` may lose high bits: `None` where the range of the operand shows
/// that it cannot, else a risk whose kind tells whether a guard exists that is too weak.
pub fn check_shl(
    ctx: &RuleCtx,
    lhs: &ValueState,
    lhs_text: &str,
    width: u16,
    shift_amount: u8,
    guard_upper_bound: Option<U256>,
) -> (r: Option<RiskOrigin>)
    ensures
        opt_view(r) == check_shl_spec(
            ctx@,
            lhs@,
            lhs_text@,
            width,
            shift_amount,
            guard_upper_bound,
        ),
{
    let threshold: U256 = no_truncation_threshold(width, shift_amount);
    if lhs.interval.at_most(threshold) {
        return None;
    }
    let guard_mismatch: bool = guard_is_weaker_than_threshold(guard_upper_bound, threshold);
    let kind: RiskKind = if guard_mismatch {
        RiskKind::FakeCheckedShift
    } else {
        RiskKind::ReachableShiftTruncation
    };
    let title: String = if guard_mismatch {
        "Custom checked-shift helper may be unsound on a reachable path".to_owned()
    } else {
        "Reachable truncating left shift on a value-bearing path".to_owned()
    };
    Some(
        RiskOrigin {
            key: origin_key(kind, ctx.exp_loc),
            kind,
            loc: ctx.exp_loc,
            source_param_index: lhs.parameter_dependencies.single(),
            width: Some(width),
            shift_amount: Some(shift_amount),
            threshold: Some(threshold),
            title,
            expr_text: lhs_text.to_owned(),
            failed_condition: truncation_condition(lhs_text, threshold, width, shift_amount),
            path_facts: dup_all(&ctx.path_facts),
            source_interval: lhs.interval.describe(),
            source_name: lhs_text.to_owned(),
            helper_name: Some(ctx.fn_name.clone()),
            helper_like: false,
            guard_mismatch,
            obligation_kind: ObligationKind::Absent,
            proof_mode: ProofMode::Abstract,
            rounding_mode: None,
        },
    )
}

/// A value is at most the threshold exactly where it can be shifted left without leaving the
/// type: where `x * 2^shift` is a value of the type.
pub proof fn threshold_is_exact(width: u16, shift: u8, x: U256)
    requires
        is_width(width),
    ensures
        x@ <= no_truncation_threshold_spec(width, shift)@ <==> x@ * pow2(shift as nat)
            <= uint_max_spec(width)@,
{
    let p = pow2(shift as nat);
    let max = uint_max_spec(width);
    vstd::arithmetic::power2::lemma_pow2_pos(shift as nat);
    lemma_u256_view(max);
    let q = max@ / p;
    assert(q <= max@) by {
        vstd::arithmetic::div_mod::lemma_div_is_ordered_by_denominator(max@ as int, 1, p as int);
    }
    lemma_u256_of(q);
    vstd::arithmetic::div_mod::lemma_fundamental_div_mod(max@ as int, p as int);
    vstd::arithmetic::div_mod::lemma_mod_bound(max@ as int, p as int);
    let n = x@;
    assert(n <= q <==> n * p <= max@) by (nonlinear_arith)
        requires
            p > 0,
            max@ == p * q + max@ % p,
            max@ % p < p,
    ;
}

/// A left shift of a value that stands for `x` is not reported only where the shifted value fits
/// the type.
pub proof fn unreported_shifts_are_exact(
    ctx: RuleCtxView,
    lhs: ValueStateView,
    lhs_text: Seq<char>,
    width: u16,
    shift_amount: u8,
    guard: Option<U256>,
    x: U256,
)
    requires
        is_width(width),
        lhs.interval.contains(x@),
        check_shl_spec(ctx, lhs, lhs_text, width, shift_amount, guard) is None,
    ensures
        x@ * pow2(shift_amount as nat) <= uint_max_spec(width)@,
{
    threshold_is_exact(width, shift_amount, x);
}

} // verus!
