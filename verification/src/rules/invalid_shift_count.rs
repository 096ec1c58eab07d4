//! Shifts by at least the width of the type.

use crate::domain::formula::ProofMode;
use crate::domain::index_set::single_spec;
use crate::domain::risk::{
    origin_key, origin_key_spec, ObligationKind, RiskKind, RiskOrigin, RiskOriginView,
};
use crate::domain::value::{ValueState, ValueStateView};
use crate::model::{dup_all, opt_view};
use crate::rules::{RuleCtx, RuleCtxView};
use crate::text::{decimal, write_u128};
use vstd::prelude::*;

verus! {

/// The bound that a shift count has to meet, as messages show it.
pub open spec fn count_condition_spec(shift_amount: u8, width: u16) -> Seq<char> {
    decimal(shift_amount as nat) + " < "@ + decimal(width as nat)
}

pub fn count_condition(shift_amount: u8, width: u16) -> (r: String)
    ensures
        r@ == count_condition_spec(shift_amount, width),
{
    let mut r: String = write_u128(shift_amount as u128);
    r.append(" < ");
    r.append(write_u128(width as u128).as_str());
    r
}

/// The risk of a shift count that is not below the width.
pub open spec fn check_spec(
    ctx: RuleCtxView,
    rhs: ValueStateView,
    width: u16,
    shift_amount: u8,
) -> Option<RiskOriginView> {
    if shift_amount < width {
        None
    } else {
        Some(
            RiskOriginView {
                key: origin_key_spec(RiskKind::InvalidShiftCount, ctx.exp_loc),
                kind: RiskKind::InvalidShiftCount,
                loc: ctx.exp_loc,
                source_param_index: single_spec(rhs.parameter_dependencies),
                width: Some(width),
                shift_amount: Some(shift_amount),
                threshold: None,
                title: "Reachable invalid shift count"@,
                expr_text: "shift by "@ + decimal(shift_amount as nat),
                failed_condition: count_condition_spec(shift_amount, width),
                path_facts: ctx.path_facts,
                source_interval: rhs.interval.describe_spec(),
                source_name: decimal(shift_amount as nat),
                helper_name: Some(ctx.fn_name),
                helper_like: false,
                guard_mismatch: false,
                obligation_kind: ObligationKind::Absent,
                proof_mode: ProofMode::Abstract,
                rounding_mode: None,
            },
        )
    }
}

/// Whether a shift by `shift_amount` bits of a type of `width` bits always fails: `None` where
/// the count is below the width.
pub fn check(ctx: &RuleCtx, rhs: &ValueState, width: u16, shift_amount: u8) -> (r: Option<
    RiskOrigin,
>)
    ensures
        opt_view(r) == check_spec(ctx@, rhs@, width, shift_amount),
{
    if (shift_amount as u16) < width {
        return None;
    }
    let mut expr_text: String = "shift by ".to_owned();
    expr_text.append(write_u128(shift_amount as u128).as_str());
    Some(
        RiskOrigin {
            key: origin_key(RiskKind::InvalidShiftCount, ctx.exp_loc),
            kind: RiskKind::InvalidShiftCount,
            loc: ctx.exp_loc,
            source_param_index: rhs.parameter_dependencies.single(),
            width: Some(width),
            shift_amount: Some(shift_amount),
            threshold: None,
            title: "Reachable invalid shift count".to_owned(),
            expr_text,
            failed_condition: count_condition(shift_amount, width),
            path_facts: dup_all(&ctx.path_facts),
            source_interval: rhs.interval.describe(),
            source_name: write_u128(shift_amount as u128),
            helper_name: Some(ctx.fn_name.clone()),
            helper_like: false,
            guard_mismatch: false,
            obligation_kind: ObligationKind::Absent,
            proof_mode: ProofMode::Abstract,
            rounding_mode: None,
        },
    )
}

} // verus!
