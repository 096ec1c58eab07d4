//! Casts to a type that may be too narrow.

use crate::domain::formula::ProofMode;
use crate::domain::index_set::single_spec;
use crate::domain::risk::{
    origin_key, origin_key_spec, ObligationKind, RiskKind, RiskOrigin, RiskOriginView,
};
use crate::domain::value::{ValueState, ValueStateView};
use crate::domain::widths::{uint_max, uint_max_spec};
use crate::model::{dup_all, opt_view};
use crate::rules::{RuleCtx, RuleCtxView};
use crate::text::{decimal, write_u256};
use crate::u256::U256;
use vstd::prelude::*;

verus! {

/// The largest value of a type of `width` bits.
pub fn cast_max(width: u16) -> (r: U256)
    ensures
        r == uint_max_spec(width),
{
    uint_max(width)
}

/// The bound that the operand of a cast has to meet, as messages show it.
pub open spec fn cast_condition_spec(text: Seq<char>, max: U256) -> Seq<char> {
    text + " <= "@ + decimal(max@)
}

pub fn cast_condition(text: &str, max: U256) -> (r: String)
    ensures
        r@ == cast_condition_spec(text@, max),
{
    let mut r: String = text.to_owned();
    r.append(" <= ");
    r.append(write_u256(max).as_str());
    r
}

/// The risk of a cast whose operand may exceed the destination type.
pub open spec fn check_spec(
    ctx: RuleCtxView,
    source: ValueStateView,
    source_text: Seq<char>,
    dest_width: u16,
) -> Option<RiskOriginView> {
    let max_value = uint_max_spec(dest_width);
    if source.interval.at_most_spec(max_value) {
        None
    } else {
        Some(
            RiskOriginView {
                key: origin_key_spec(RiskKind::ReachableNarrowCast, ctx.exp_loc),
                kind: RiskKind::ReachableNarrowCast,
                loc: ctx.exp_loc,
                source_param_index: single_spec(source.parameter_dependencies),
                width: Some(dest_width),
                shift_amount: None,
                threshold: Some(max_value),
                title: "Reachable narrowing cast on value-bearing path"@,
                expr_text: source_text,
                failed_condition: cast_condition_spec(source_text, max_value),
                path_facts: ctx.path_facts,
                source_interval: source.interval.describe_spec(),
                source_name: source_text,
                helper_name: Some(ctx.fn_name),
                helper_like: false,
                guard_mismatch: false,
                obligation_kind: ObligationKind::Absent,
                proof_mode: ProofMode::Abstract,
                rounding_mode: None,
            },
        )
    }
}

/// Whether a cast to `dest_width` bits may fail: `None` where the range of the operand lies
/// within the destination type.
pub fn check(ctx: &RuleCtx, source: &ValueState, source_text: &str, dest_width: u16) -> (r: Option<
    RiskOrigin,
>)
    ensures
        opt_view(r) == check_spec(ctx@, source@, source_text@, dest_width),
{
    let max_value: U256 = cast_max(dest_width);
    if source.interval.at_most(max_value) {
        return None;
    }
    Some(
        RiskOrigin {
            key: origin_key(RiskKind::ReachableNarrowCast, ctx.exp_loc),
            kind: RiskKind::ReachableNarrowCast,
            loc: ctx.exp_loc,
            source_param_index: source.parameter_dependencies.single(),
            width: Some(dest_width),
            shift_amount: None,
            threshold: Some(max_value),
            title: "Reachable narrowing cast on value-bearing path".to_owned(),
            expr_text: source_text.to_owned(),
            failed_condition: cast_condition(source_text, max_value),
            path_facts: dup_all(&ctx.path_facts),
            source_interval: source.interval.describe(),
            source_name: source_text.to_owned(),
            helper_name: Some(ctx.fn_name.clone()),
            helper_like: false,
            guard_mismatch: false,
            obligation_kind: ObligationKind::Absent,
            proof_mode: ProofMode::Abstract,
            rounding_mode: None,
        },
    )
}

/// A cast of a value that stands for `x` is not reported only where `x` fits the destination.
pub proof fn unreported_casts_fit(
    ctx: RuleCtxView,
    source: ValueStateView,
    source_text: Seq<char>,
    dest_width: u16,
    x: U256,
)
    requires
        source.interval.contains(x@),
        check_spec(ctx, source, source_text, dest_width) is None,
    ensures
        x@ <= uint_max_spec(dest_width)@,
{
}

} // verus!
