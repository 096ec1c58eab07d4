//! Quantities that different paths round in different directions.

use crate::ast::Loc;
use crate::domain::formula::{FormulaFactsView, ProofMode};
use crate::domain::index_set::single_spec;
use crate::domain::risk::{
    origin_key, origin_key_spec, ObligationKind, RiskKind, RiskOrigin, RiskOriginView,
};
use crate::domain::value::{ValueState, ValueStateView};
use crate::model::{dup_all, opt_view, views};
use crate::rules::{RuleCtx, RuleCtxView};
use crate::text::{decimal, join, joined, write_u128};
use vstd::prelude::*;

verus! {

/// What is said about the sink and the rounding steps on the way to it.
pub open spec fn mismatch_text_spec(trace: Seq<Seq<char>>, detail: Option<Seq<char>>) -> Seq<char> {
    let steps = "rounding trace: "@ + joined(trace, " -> "@);
    match detail {
        Some(detail) => if trace.len() == 0 {
            detail
        } else {
            detail + "; "@ + steps
        },
        None => if trace.len() == 0 {
            "value"@
        } else {
            steps
        },
    }
}

fn mismatch_text(trace: &Vec<String>, detail: Option<&str>) -> (r: String)
    ensures
        r@ == mismatch_text_spec(
            views(trace@),
            match detail {
                Some(detail) => Some(detail@),
                None => None,
            },
        ),
{
    let mut steps: String = "rounding trace: ".to_owned();
    steps.append(join(trace, " -> ").as_str());
    match detail {
        Some(detail) => {
            let mut r: String = detail.to_owned();
            if trace.len() > 0 {
                r.append("; ");
                r.append(steps.as_str());
            }
            r
        },
        None => if trace.len() == 0 {
            "value".to_owned()
        } else {
            steps
        },
    }
}

/// The risk of a value that was rounded in different directions and reaches a sink.
pub open spec fn check_spec(
    ctx: RuleCtxView,
    value: ValueStateView,
    sink_loc: Loc,
    sink_detail: Option<Seq<char>>,
) -> Option<RiskOriginView> {
    match value.formula_facts {
        Some(facts) => if facts.rounding_conflict && (facts.factors.len() > 0
            || facts.root_expr is Some) {
            Some(
                RiskOriginView {
                    key: origin_key_spec(RiskKind::ReachableRoundingMismatch, sink_loc) + ":"@
                        + decimal(
                        match facts.root_expr {
                            Some(root) => root.id as nat,
                            None => 0,
                        },
                    ),
                    kind: RiskKind::ReachableRoundingMismatch,
                    loc: sink_loc,
                    source_param_index: single_spec(value.parameter_dependencies),
                    width: value.width_spec(),
                    shift_amount: None,
                    threshold: None,
                    title:
                        "Semantically related value reaches sink with incompatible rounding modes"@,
                    expr_text: mismatch_text_spec(facts.rounding_trace, sink_detail),
                    failed_condition:
                        "consistent rounding mode across all reachable paths for this quantity"@,
                    path_facts: ctx.path_facts,
                    source_interval: value.interval.describe_spec(),
                    source_name: match facts.root_expr {
                        Some(root) => root.debug,
                        None => "value"@,
                    },
                    helper_name: Some(ctx.fn_name),
                    helper_like: false,
                    guard_mismatch: false,
                    obligation_kind: ObligationKind::RoundingConsistency,
                    proof_mode: ProofMode::Abstract,
                    rounding_mode: Some(facts.rounding_mode),
                },
            )
        } else {
            None
        },
        None => None,
    }
}

/// Whether a value that was rounded in different directions reaches the sink at `sink_loc`:
/// `None` where there is no conflict, or nothing is known of the formula.
pub fn check(ctx: &RuleCtx, value: &ValueState, sink_loc: Loc, sink_detail: Option<&str>) -> (r:
    Option<RiskOrigin>)
    ensures
        opt_view(r) == check_spec(
            ctx@,
            value@,
            sink_loc,
            match sink_detail {
                Some(detail) => Some(detail@),
                None => None,
            },
        ),
{
    let Some(facts) = &value.formula_facts else {
        return None;
    };
    if !facts.rounding_conflict {
        return None;
    }
    if facts.factors.len() == 0 && facts.root_expr.is_none() {
        return None;
    }
    let mut root_id: u64 = 0;
    let mut source_name: String = "value".to_owned();
    if let Some(root) = &facts.root_expr {
        root_id = root.id;
        source_name = root.debug.clone();
    }
    let mut key: String = origin_key(RiskKind::ReachableRoundingMismatch, sink_loc);
    key.append(":");
    key.append(write_u128(root_id as u128).as_str());
    Some(
        RiskOrigin {
            key,
            kind: RiskKind::ReachableRoundingMismatch,
            loc: sink_loc,
            source_param_index: value.parameter_dependencies.single(),
            width: value.width(),
            shift_amount: None,
            threshold: None,
            title: "Semantically related value reaches sink with incompatible rounding modes".to_owned(),
            expr_text: mismatch_text(&facts.rounding_trace, sink_detail),
            failed_condition: "consistent rounding mode across all reachable paths for this quantity".to_owned(),
            path_facts: dup_all(&ctx.path_facts),
            source_interval: value.interval.describe(),
            source_name,
            helper_name: Some(ctx.fn_name.clone()),
            helper_like: false,
            guard_mismatch: false,
            obligation_kind: ObligationKind::RoundingConsistency,
            proof_mode: ProofMode::Abstract,
            rounding_mode: Some(facts.rounding_mode),
        },
    )
}

/// A join of two formulas has a conflict exactly where one side has one already, or the two sides
/// were rounded in different directions.
pub proof fn conflicts_arise_at_joins(a: FormulaFactsView, b: FormulaFactsView)
    ensures
        a.join_spec(b) is Some ==> (a.join_spec(b)->0.rounding_conflict <==> a.rounding_conflict
            || b.rounding_conflict || (a.rounding_mode != b.rounding_mode
            && a.rounding_mode !is Exact && b.rounding_mode !is Exact)),
{
}

} // verus!
