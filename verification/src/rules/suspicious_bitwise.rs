//! Results of bitwise operations that are not exact.

use crate::domain::formula::ProofMode;
use crate::domain::index_set::single_spec;
use crate::domain::risk::{
    origin_key, origin_key_spec, ObligationKind, RiskKind, RiskOrigin, RiskOriginView,
};
use crate::domain::value::{ValueState, ValueStateView};
use crate::model::{dup_all, opt_view};
use crate::rules::{RuleCtx, RuleCtxView};
use vstd::prelude::*;

verus! {

/// The risk of a bitwise result that is not exactly known.
pub open spec fn check_spec(
    ctx: RuleCtxView,
    result: ValueStateView,
    result_text: Seq<char>,
) -> Option<RiskOriginView> {
    if result.exact_value_spec() is Some {
        None
    } else {
        Some(
            RiskOriginView {
                key: origin_key_spec(RiskKind::SuspiciousBitwiseArithmetic, ctx.exp_loc),
                kind: RiskKind::SuspiciousBitwiseArithmetic,
                loc: ctx.exp_loc,
                source_param_index: single_spec(result.parameter_dependencies),
                width: result.width_spec(),
                shift_amount: None,
                threshold: None,
                title: "Suspicious bitwise result reaches downstream arithmetic"@,
                expr_text: result_text,
                failed_condition: "exact range of "@ + result_text + " is known"@,
                path_facts: ctx.path_facts,
                source_interval: result.interval.describe_spec(),
                source_name: result_text,
                helper_name: Some(ctx.fn_name),
                helper_like: false,
                guard_mismatch: false,
                obligation_kind: ObligationKind::Absent,
                proof_mode: ProofMode::Heuristic,
                rounding_mode: None,
            },
        )
    }
}

/// Whether a bitwise result whose range is not exact feeds arithmetic: `None` where the result
/// is exactly known.
pub fn check(ctx: &RuleCtx, result: &ValueState, result_text: &str) -> (r: Option<RiskOrigin>)
    ensures
        opt_view(r) == check_spec(ctx@, result@, result_text@),
{
    if result.exact_value().is_some() {
        return None;
    }
    let mut failed_condition: String = "exact range of ".to_owned();
    failed_condition.append(result_text);
    failed_condition.append(" is known");
    Some(
        RiskOrigin {
            key: origin_key(RiskKind::SuspiciousBitwiseArithmetic, ctx.exp_loc),
            kind: RiskKind::SuspiciousBitwiseArithmetic,
            loc: ctx.exp_loc,
            source_param_index: result.parameter_dependencies.single(),
            width: result.width(),
            shift_amount: None,
            threshold: None,
            title: "Suspicious bitwise result reaches downstream arithmetic".to_owned(),
            expr_text: result_text.to_owned(),
            failed_condition,
            path_facts: dup_all(&ctx.path_facts),
            source_interval: result.interval.describe(),
            source_name: result_text.to_owned(),
            helper_name: Some(ctx.fn_name.clone()),
            helper_like: false,
            guard_mismatch: false,
            obligation_kind: ObligationKind::Absent,
            proof_mode: ProofMode::Heuristic,
            rounding_mode: None,
        },
    )
}

} // verus!
