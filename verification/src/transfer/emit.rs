//! From risks to findings.

use crate::ast::{Exp, Loc};
use crate::domain::denominator::{
    denominator_condition, denominator_condition_spec, denominator_factors,
    denominator_factors_spec, denominator_title, denominator_title_spec, is_clmm, is_clmm_spec,
    is_product, is_product_spec, needs_factor_proofs, needs_factor_proofs_spec, violated_obligation,
    violated_obligation_spec,
};
use crate::domain::formula::{
    FormulaFactor, FormulaFactorView, FormulaFactsView, ProofMode, RoundingMode,
};
use crate::domain::index_set::single_spec;
use crate::domain::risk::{
    origin_key, origin_key_spec, ObligationKind, RiskKind, RiskOrigin, RiskOriginView,
};
use crate::domain::state::{AbstractState, AbstractStateView};
use crate::domain::value::{ValueState, ValueStateView};
use crate::model::{add_missing, dup_all, dup_opt, extend_missing, opt_view, views};
use crate::report::{SecurityFinding, SecurityFindingView, Severity, SinkKind};
use crate::sinks::{sink_priority, sink_priority_spec};
use crate::text::{contains, contains_text, decimal, join, joined, lower, to_lower, write_u128};
use crate::transfer::context::{AnalysisMode, Ctx, FunctionAnalyzer};
use crate::transfer::describe::{describe, describe_spec};
use crate::u256::U256;
use vstd::prelude::*;

verus! {

/// A risk that arises where `exp` uses the value of `source_exp`.
#[verifier::opaque]
pub open spec fn make_origin_spec(
    c: Ctx,
    kind: RiskKind,
    exp: Exp,
    source_value: ValueStateView,
    source_exp: Exp,
    st: AbstractStateView,
    width: u16,
    shift_amount: Option<u8>,
    threshold: Option<U256>,
    failed_condition: Seq<char>,
    title: Seq<char>,
    guard_mismatch: bool,
    rounding_mode: Option<RoundingMode>,
) -> RiskOriginView {
    RiskOriginView {
        key: origin_key_spec(kind, exp.loc),
        kind,
        loc: exp.loc,
        source_param_index: single_spec(source_value.parameter_dependencies),
        width: Some(width),
        shift_amount,
        threshold,
        title,
        expr_text: describe_spec(c.function, exp),
        failed_condition,
        path_facts: st.fact_texts(),
        source_interval: source_value.interval.describe_spec(),
        source_name: describe_spec(c.function, source_exp),
        helper_name: Some(c.function.key.name@),
        helper_like: false,
        guard_mismatch,
        obligation_kind: ObligationKind::Absent,
        proof_mode: ProofMode::Abstract,
        rounding_mode,
    }
}

/// How a factor is called in messages.
pub open spec fn factor_label_spec(factor: FormulaFactorView) -> Seq<char> {
    if factor.name.len() > 0 {
        factor.name
    } else {
        "factor#"@ + decimal(factor.id as nat)
    }
}

pub open spec fn factor_labels_spec(factors: Seq<FormulaFactorView>) -> Seq<Seq<char>> {
    Seq::new(factors.len(), |i: int| factor_label_spec(factors[i]))
}

pub fn factor_label(factor: &FormulaFactor) -> (r: String)
    ensures
        r@ == factor_label_spec(factor@),
{
    let empty: String = String::new();
    if factor.name != empty {
        assert(factor.name@.len() > 0) by {
            if factor.name@.len() == 0 {
                assert(factor.name@ =~= empty@);
            }
        }
        factor.name.clone()
    } else {
        let mut r: String = "factor#".to_owned();
        r.append(write_u128(factor.id as u128).as_str());
        r
    }
}

pub fn factor_labels(factors: &Vec<FormulaFactor>) -> (r: Vec<String>)
    ensures
        views(r@) == factor_labels_spec(views(factors@)),
{
    let ghost wanted = factor_labels_spec(views(factors@));
    let mut r: Vec<String> = Vec::new();
    let mut i: usize = 0;
    while i < factors.len()
        invariant
            i <= factors@.len(),
            wanted == factor_labels_spec(views(factors@)),
            views(r@) =~= wanted.take(i as int),
        decreases factors@.len() - i,
    {
        let ghost start = r@;
        let label: String = factor_label(&factors[i]);
        r.push(label);
        assert(views(r@) =~= views(start).push(label@));
        i = i + 1;
    }
    assert(wanted.take(i as int) =~= wanted);
    r
}

/// Whether the function is a helper around divisions, by its name.
pub open spec fn is_denominator_helper_spec(c: Ctx) -> bool {
    let lowered = lower(c.function.key.name@);
    !c.function.is_entry && (contains_text(lowered, "div"@) || contains_text(lowered, "quotient"@)
        || contains_text(lowered, "checked"@) || contains_text(lowered, "mul_shr"@))
}

/// The risk of a division, where its denominator is not proved.
#[verifier::opaque]
pub open spec fn weak_denominator_spec(
    c: Ctx,
    exp: Exp,
    numerator: ValueStateView,
    denominator: ValueStateView,
    denominator_exp: Exp,
    st: AbstractStateView,
) -> Option<RiskOriginView> {
    let text = describe_spec(c.function, denominator_exp);
    let facts = denominator.formula_facts;
    let factors = denominator_factors_spec(
        denominator,
        text,
        c.function.key.name@,
        denominator_exp.loc,
    );
    let factor_proofs = is_product_spec(facts, factors) && needs_factor_proofs_spec(
        numerator,
        c.math_mode,
    );
    match violated_obligation_spec(denominator.interval, factors, factor_proofs) {
        Some(obligation) => Some(
            RiskOriginView {
                key: origin_key_spec(RiskKind::ReachableWeakDenominator, exp.loc),
                kind: RiskKind::ReachableWeakDenominator,
                loc: exp.loc,
                source_param_index: single_spec(denominator.parameter_dependencies),
                width: denominator.width_spec(),
                shift_amount: None,
                threshold: if obligation is NonZeroDivisor {
                    Some(U256::zero_spec())
                } else {
                    None
                },
                title: denominator_title_spec(obligation, is_clmm_spec(facts)),
                expr_text: describe_spec(c.function, exp),
                failed_condition: denominator_condition_spec(
                    obligation,
                    is_clmm_spec(facts),
                    text,
                    factor_labels_spec(factors),
                ),
                path_facts: st.fact_texts(),
                source_interval: denominator.interval.describe_spec(),
                source_name: text,
                helper_name: Some(c.function.key.name@),
                helper_like: is_denominator_helper_spec(c),
                guard_mismatch: false,
                obligation_kind: obligation,
                proof_mode: if facts is Some {
                    ProofMode::Abstract
                } else {
                    ProofMode::Heuristic
                },
                rounding_mode: match facts {
                    Some(facts) => Some(facts.rounding_mode),
                    None => None,
                },
            },
        ),
        None => None,
    }
}

/// How grave it is that a risk reaches a sink of this priority.
pub open spec fn severity_spec(origin: RiskOriginView, priority: nat) -> Severity {
    let grave = match origin.kind {
        RiskKind::SuspiciousBitwiseArithmetic | RiskKind::DynamicU256Shift => false,
        RiskKind::ReachableWeakDenominator => origin.threshold == Some(U256::zero_spec())
            && priority >= 3 && origin.proof_mode !is Heuristic,
        _ => priority >= 3,
    };
    if grave {
        Severity::NonblockingError
    } else {
        Severity::Warning
    }
}

/// The title of a finding.
pub open spec fn title_spec(origin: RiskOriginView) -> Seq<char> {
    match origin.kind {
        RiskKind::ReachableShiftTruncation =>
            "Reachable truncating left shift on a value-bearing path"@,
        RiskKind::FakeCheckedShift =>
            "Custom checked-shift helper may be unsound on a reachable path"@,
        RiskKind::ReachableNarrowCast =>
            "Reachable narrowing cast may fail on a value-bearing path"@,
        RiskKind::InvalidShiftCount => "Reachable invalid shift count"@,
        RiskKind::ReachableLossyRightShift =>
            "Reachable lossy right shift on a value-bearing path"@,
        RiskKind::DynamicU256Shift => "Dynamic u256 shift count on a value-bearing path"@,
        RiskKind::SuspiciousBitwiseArithmetic =>
            "Suspicious bitwise result reaches downstream arithmetic"@,
        RiskKind::ReachableWeakDenominator => origin.title,
        RiskKind::ReachableRoundingMismatch => origin.title,
    }
}

/// What to do about a finding.
pub open spec fn recommendation_spec(kind: RiskKind) -> Seq<char> {
    match kind {
        RiskKind::ReachableShiftTruncation | RiskKind::FakeCheckedShift =>
            "Enforce the canonical bound before shifting, or widen the intermediate and only narrow after an exact bound check."@,
        RiskKind::ReachableNarrowCast =>
            "Prove the destination range before casting, or keep the value in the wider type through value-sensitive math."@,
        RiskKind::InvalidShiftCount =>
            "Prove the shift amount is strictly smaller than the operand width on every reachable path."@,
        RiskKind::ReachableLossyRightShift =>
            "Prove the discarded low bits are zero before using right shift as arithmetic, or use an exact division path where rounding is explicit."@,
        RiskKind::DynamicU256Shift =>
            "Fix the shift amount, or bound it and the operand so that no significant bit can be shifted out."@,
        RiskKind::SuspiciousBitwiseArithmetic =>
            "Prove the masked or combined bit range before reusing the value in arithmetic or sink-bearing logic."@,
        RiskKind::ReachableWeakDenominator =>
            "Prove `divisor != 0` on all paths and, for product denominators, prove each independent factor is strictly positive."@,
        RiskKind::ReachableRoundingMismatch =>
            "Use one rounding policy for this quantity (all floor or all ceil), or add an explicit compensation invariant before the sink."@,
    }
}

/// The path facts in a message.
pub open spec fn facts_text_spec(path_facts: Seq<Seq<char>>) -> Seq<char> {
    if path_facts.len() == 0 {
        "none"@
    } else {
        joined(path_facts, ", "@)
    }
}

/// The message of a finding.
#[verifier::opaque]
pub open spec fn message_spec(
    origin: RiskOriginView,
    path_facts: Seq<Seq<char>>,
    detail: Option<Seq<char>>,
) -> Seq<char> {
    let base = origin.expr_text + ". The analyzer cannot prove `"@ + origin.failed_condition
        + "`. Current path facts: "@ + facts_text_spec(path_facts) + ". Source interval: "@
        + origin.source_interval + "."@ + " Obligation: "@ + origin.obligation_kind.describe_spec()
        + ". Evidence: "@ + origin.proof_mode.name_spec() + "."@;
    let rounding = match origin.rounding_mode {
        Some(mode) => base + " Rounding mode seen: "@ + mode.name_spec() + "."@,
        None => base,
    };
    let guard = if origin.guard_mismatch {
        rounding
            + " A dominating helper guard exists, but it is weaker than the true no-truncation bound."@
    } else {
        rounding
    };
    let dynamic = if origin.kind is DynamicU256Shift {
        guard + " Note that u256 shift counts are not runtime-checked."@
    } else {
        guard
    };
    match detail {
        Some(detail) => dynamic + " Sink evidence: "@ + detail + "."@,
        None => dynamic,
    }
}

/// Whether a risk that reaches this sink is reported.
pub open spec fn is_reported(c: Ctx, origin: RiskOriginView, sink_kind: SinkKind) -> bool {
    c.mode is Findings && !(origin.kind is ReachableWeakDenominator && origin.helper_like && (
    sink_kind is PublicReturn || sink_kind is ArithmeticUse))
}

/// The finding that a risk reaches a sink.
#[verifier::opaque]
pub open spec fn finding_spec(
    origin: RiskOriginView,
    sink_loc: Loc,
    sink_kind: SinkKind,
    financial: bool,
    st: AbstractStateView,
    detail: Option<Seq<char>>,
) -> SecurityFindingView {
    let texts = st.fact_texts();
    let path_facts = add_missing(origin.path_facts, texts, texts.len());
    SecurityFindingView {
        key: origin.key,
        kind: origin.kind,
        loc: origin.loc,
        sink_loc: Some(sink_loc),
        helper_loc: if origin.helper_name is Some {
            Some(origin.loc)
        } else {
            None
        },
        severity: severity_spec(origin, sink_priority_spec(sink_kind, financial)),
        title: title_spec(origin),
        message: message_spec(origin, path_facts, detail),
        failed_condition: origin.failed_condition,
        path_facts,
        recommendation: recommendation_spec(origin.kind),
        sink_kind,
        sink_detail: detail,
    }
}

/// What is reported when a risk reaches a sink: one finding or none.
pub open spec fn emit_sink_spec(
    c: Ctx,
    origin: RiskOriginView,
    sink_loc: Loc,
    sink_kind: SinkKind,
    financial: bool,
    st: AbstractStateView,
    detail: Option<Seq<char>>,
) -> Seq<SecurityFindingView> {
    if is_reported(c, origin, sink_kind) {
        seq![finding_spec(origin, sink_loc, sink_kind, financial, st, detail)]
    } else {
        Seq::empty()
    }
}

/// What is reported when the first `n` risks reach a sink.
pub open spec fn emit_origins_spec(
    c: Ctx,
    origins: Seq<RiskOriginView>,
    n: nat,
    sink_loc: Loc,
    sink_kind: SinkKind,
    financial: bool,
    st: AbstractStateView,
    detail: Option<Seq<char>>,
) -> Seq<SecurityFindingView>
    decreases n,
{
    if n == 0 || n > origins.len() {
        Seq::empty()
    } else {
        emit_origins_spec(c, origins, (n - 1) as nat, sink_loc, sink_kind, financial, st, detail)
            + emit_sink_spec(c, origins[n - 1], sink_loc, sink_kind, financial, st, detail)
    }
}

/// Whether a risk is reported where it reaches mere arithmetic.
pub open spec fn matters_in_arithmetic(kind: RiskKind, suppress_suspicious: bool) -> bool {
    kind is ReachableLossyRightShift || kind is ReachableWeakDenominator || (
    kind is SuspiciousBitwiseArithmetic && !suppress_suspicious)
}

/// What is reported when the first `n` risks reach arithmetic.
pub open spec fn emit_arithmetic_spec(
    c: Ctx,
    origins: Seq<RiskOriginView>,
    n: nat,
    sink_loc: Loc,
    st: AbstractStateView,
    detail: Option<Seq<char>>,
    suppress_suspicious: bool,
) -> Seq<SecurityFindingView>
    decreases n,
{
    if n == 0 || n > origins.len() {
        Seq::empty()
    } else {
        let before = emit_arithmetic_spec(
            c,
            origins,
            (n - 1) as nat,
            sink_loc,
            st,
            detail,
            suppress_suspicious,
        );
        if matters_in_arithmetic(origins[n - 1].kind, suppress_suspicious) {
            before + emit_sink_spec(
                c,
                origins[n - 1],
                sink_loc,
                SinkKind::ArithmeticUse,
                false,
                st,
                detail,
            )
        } else {
            before
        }
    }
}

/// What is said about the sink of a value that was rounded in different directions.
pub open spec fn rounding_detail_spec(
    facts: FormulaFactsView,
    detail: Option<Seq<char>>,
) -> Seq<char> {
    let given = match detail {
        Some(detail) => detail,
        None => Seq::empty(),
    };
    if facts.rounding_trace.len() == 0 {
        given
    } else if given.len() == 0 {
        "rounding trace: "@ + joined(facts.rounding_trace, " -> "@)
    } else {
        given + "; "@ + ("rounding trace: "@ + joined(facts.rounding_trace, " -> "@))
    }
}

/// Whether a value was rounded in different directions on different paths.
pub open spec fn has_rounding_conflict(value: ValueStateView) -> bool {
    value.formula_facts is Some && value.formula_facts->0.rounding_conflict && (
    value.formula_facts->0.factors.len() > 0 || value.formula_facts->0.root_expr is Some)
}

/// The key of a rounding mismatch at this sink.
pub open spec fn rounding_key_spec(facts: FormulaFactsView, sink_loc: Loc) -> Seq<char> {
    origin_key_spec(RiskKind::ReachableRoundingMismatch, sink_loc) + ":"@ + decimal(
        match facts.root_expr {
            Some(root) => root.id as nat,
            None => 0,
        },
    )
}

/// The risk of a value that was rounded in different directions.
#[verifier::opaque]
pub open spec fn rounding_origin_spec(
    c: Ctx,
    value: ValueStateView,
    sink_loc: Loc,
    st: AbstractStateView,
    expr_text: Seq<char>,
) -> RiskOriginView {
    let facts = value.formula_facts->0;
    RiskOriginView {
        key: rounding_key_spec(facts, sink_loc),
        kind: RiskKind::ReachableRoundingMismatch,
        loc: sink_loc,
        source_param_index: single_spec(value.parameter_dependencies),
        width: value.width_spec(),
        shift_amount: None,
        threshold: None,
        title: "Semantically related value reaches sink with incompatible rounding modes"@,
        expr_text,
        failed_condition:
            "consistent rounding mode across all reachable paths for this quantity"@,
        path_facts: st.fact_texts(),
        source_interval: value.interval.describe_spec(),
        source_name: match facts.root_expr {
            Some(root) => root.debug,
            None => "value"@,
        },
        helper_name: Some(c.function.key.name@),
        helper_like: false,
        guard_mismatch: false,
        obligation_kind: ObligationKind::RoundingConsistency,
        proof_mode: ProofMode::Abstract,
        rounding_mode: Some(facts.rounding_mode),
    }
}

/// What is reported when a value reaches a sink after it was rounded in different directions.
pub open spec fn emit_rounding_spec(
    c: Ctx,
    value: ValueStateView,
    sink_loc: Loc,
    sink_kind: SinkKind,
    financial: bool,
    st: AbstractStateView,
    detail: Option<Seq<char>>,
) -> Seq<SecurityFindingView> {
    if has_rounding_conflict(value) {
        let sink_detail = rounding_detail_spec(value.formula_facts->0, detail);
        let expr_text = if sink_detail.len() == 0 {
            "value"@
        } else {
            sink_detail
        };
        emit_sink_spec(
            c,
            rounding_origin_spec(c, value, sink_loc, st, expr_text),
            sink_loc,
            sink_kind,
            financial,
            st,
            if sink_detail.len() == 0 {
                None
            } else {
                Some(sink_detail)
            },
        )
    } else {
        Seq::empty()
    }
}

/// What is reported when a value, with its risks, reaches a sink.
pub open spec fn emit_value_spec(
    c: Ctx,
    value: ValueStateView,
    sink_loc: Loc,
    sink_kind: SinkKind,
    financial: bool,
    st: AbstractStateView,
    detail: Option<Seq<char>>,
) -> Seq<SecurityFindingView> {
    emit_origins_spec(
        c,
        value.risky_origins,
        value.risky_origins.len(),
        sink_loc,
        sink_kind,
        financial,
        st,
        detail,
    ) + emit_rounding_spec(c, value, sink_loc, sink_kind, financial, st, detail)
}

fn severity(origin: &RiskOrigin, priority: u8) -> (r: Severity)
    ensures
        r == severity_spec(origin@, priority as nat),
{
    let grave: bool = match origin.kind {
        RiskKind::SuspiciousBitwiseArithmetic | RiskKind::DynamicU256Shift => false,
        RiskKind::ReachableWeakDenominator => origin.threshold == Some(U256::zero()) && priority
            >= 3 && origin.proof_mode != ProofMode::Heuristic,
        _ => priority >= 3,
    };
    if grave {
        Severity::NonblockingError
    } else {
        Severity::Warning
    }
}

fn title(origin: &RiskOrigin) -> (r: String)
    ensures
        r@ == title_spec(origin@),
{
    match origin.kind {
        RiskKind::ReachableShiftTruncation => {
            "Reachable truncating left shift on a value-bearing path".to_owned()
        },
        RiskKind::FakeCheckedShift => {
            "Custom checked-shift helper may be unsound on a reachable path".to_owned()
        },
        RiskKind::ReachableNarrowCast => {
            "Reachable narrowing cast may fail on a value-bearing path".to_owned()
        },
        RiskKind::InvalidShiftCount => "Reachable invalid shift count".to_owned(),
        RiskKind::ReachableLossyRightShift => {
            "Reachable lossy right shift on a value-bearing path".to_owned()
        },
        RiskKind::DynamicU256Shift => {
            "Dynamic u256 shift count on a value-bearing path".to_owned()
        },
        RiskKind::SuspiciousBitwiseArithmetic => {
            "Suspicious bitwise result reaches downstream arithmetic".to_owned()
        },
        RiskKind::ReachableWeakDenominator => origin.title.clone(),
        RiskKind::ReachableRoundingMismatch => origin.title.clone(),
    }
}

fn recommendation(kind: RiskKind) -> (r: String)
    ensures
        r@ == recommendation_spec(kind),
{
    match kind {
        RiskKind::ReachableShiftTruncation | RiskKind::FakeCheckedShift => {
            "Enforce the canonical bound before shifting, or widen the intermediate and only narrow after an exact bound check.".to_owned()
        },
        RiskKind::ReachableNarrowCast => {
            "Prove the destination range before casting, or keep the value in the wider type through value-sensitive math.".to_owned()
        },
        RiskKind::InvalidShiftCount => {
            "Prove the shift amount is strictly smaller than the operand width on every reachable path.".to_owned()
        },
        RiskKind::ReachableLossyRightShift => {
            "Prove the discarded low bits are zero before using right shift as arithmetic, or use an exact division path where rounding is explicit.".to_owned()
        },
        RiskKind::DynamicU256Shift => {
            "Fix the shift amount, or bound it and the operand so that no significant bit can be shifted out.".to_owned()
        },
        RiskKind::SuspiciousBitwiseArithmetic => {
            "Prove the masked or combined bit range before reusing the value in arithmetic or sink-bearing logic.".to_owned()
        },
        RiskKind::ReachableWeakDenominator => {
            "Prove `divisor != 0` on all paths and, for product denominators, prove each independent factor is strictly positive.".to_owned()
        },
        RiskKind::ReachableRoundingMismatch => {
            "Use one rounding policy for this quantity (all floor or all ceil), or add an explicit compensation invariant before the sink.".to_owned()
        },
    }
}

fn facts_text(path_facts: &Vec<String>) -> (r: String)
    ensures
        r@ == facts_text_spec(views(path_facts@)),
{
    if path_facts.len() == 0 {
        "none".to_owned()
    } else {
        join(path_facts, ", ")
    }
}

fn message(origin: &RiskOrigin, path_facts: &Vec<String>, detail: &Option<String>) -> (r: String)
    ensures
        r@ == message_spec(origin@, views(path_facts@), opt_view(*detail)),
{
    reveal(message_spec);
    let mut r: String = origin.expr_text.clone();
    r.append(". The analyzer cannot prove `");
    r.append(origin.failed_condition.as_str());
    r.append("`. Current path facts: ");
    r.append(facts_text(path_facts).as_str());
    r.append(". Source interval: ");
    r.append(origin.source_interval.as_str());
    r.append(".");
    r.append(" Obligation: ");
    r.append(origin.obligation_kind.describe());
    r.append(". Evidence: ");
    r.append(origin.proof_mode.name());
    r.append(".");
    if let Some(mode) = origin.rounding_mode {
        r.append(" Rounding mode seen: ");
        r.append(mode.name());
        r.append(".");
    }
    if origin.guard_mismatch {
        r.append(
            " A dominating helper guard exists, but it is weaker than the true no-truncation bound.",
        );
    }
    if origin.kind == RiskKind::DynamicU256Shift {
        r.append(" Note that u256 shift counts are not runtime-checked.");
    }
    if let Some(detail) = detail {
        r.append(" Sink evidence: ");
        r.append(detail.as_str());
        r.append(".");
    }
    r
}

fn make_finding(
    origin: &RiskOrigin,
    sink_loc: Loc,
    sink_kind: SinkKind,
    financial: bool,
    state: &AbstractState,
    detail: &Option<String>,
) -> (r: SecurityFinding)
    ensures
        r@ == finding_spec(origin@, sink_loc, sink_kind, financial, state@, opt_view(*detail)),
{
    reveal(finding_spec);
    let mut path_facts: Vec<String> = dup_all(&origin.path_facts);
    extend_missing(&mut path_facts, &state.path_fact_texts());
    let helper_loc: Option<Loc> = if origin.helper_name.is_some() {
        Some(origin.loc)
    } else {
        None
    };
    SecurityFinding {
        key: origin.key.clone(),
        kind: origin.kind,
        loc: origin.loc,
        sink_loc: Some(sink_loc),
        helper_loc,
        severity: severity(origin, sink_priority(&sink_kind, financial)),
        title: title(origin),
        message: message(origin, &path_facts, detail),
        failed_condition: origin.failed_condition.clone(),
        path_facts,
        recommendation: recommendation(origin.kind),
        sink_kind,
        sink_detail: dup_opt(detail),
    }
}

impl<'a> FunctionAnalyzer<'a> {
    pub fn make_origin(
        &self,
        kind: RiskKind,
        exp: &Exp,
        source_value: &ValueState,
        source_exp: &Exp,
        state: &AbstractState,
        width: u16,
        shift_amount: Option<u8>,
        threshold: Option<U256>,
        failed_condition: String,
        title: &str,
        guard_mismatch: bool,
        rounding_mode: Option<RoundingMode>,
    ) -> (r: RiskOrigin)
        ensures
            r@ == make_origin_spec(
                self@,
                kind,
                *exp,
                source_value@,
                *source_exp,
                state@,
                width,
                shift_amount,
                threshold,
                failed_condition@,
                title@,
                guard_mismatch,
                rounding_mode,
            ),
    {
        reveal(make_origin_spec);
        RiskOrigin {
            key: origin_key(kind, exp.loc),
            kind,
            loc: exp.loc,
            source_param_index: source_value.parameter_dependencies.single(),
            width: Some(width),
            shift_amount,
            threshold,
            title: title.to_owned(),
            expr_text: describe(self.function, exp),
            failed_condition,
            path_facts: state.path_fact_texts(),
            source_interval: source_value.interval.describe(),
            source_name: describe(self.function, source_exp),
            helper_name: Some(self.function.key.name.clone()),
            helper_like: false,
            guard_mismatch,
            obligation_kind: ObligationKind::Absent,
            proof_mode: ProofMode::Abstract,
            rounding_mode,
        }
    }

    fn is_denominator_helper_context(&self) -> (r: bool)
        ensures
            r == is_denominator_helper_spec(self@),
    {
        if self.function.is_entry {
            return false;
        }
        let lowered: String = to_lower(self.function.key.name.as_str());
        contains(lowered.as_str(), "div") || contains(lowered.as_str(), "quotient") || contains(
            lowered.as_str(),
            "checked",
        ) || contains(lowered.as_str(), "mul_shr")
    }

    pub fn make_weak_denominator_origin(
        &self,
        exp: &Exp,
        numerator: &ValueState,
        denominator: &ValueState,
        denominator_exp: &Exp,
        state: &AbstractState,
    ) -> (r: Option<RiskOrigin>)
        ensures
            opt_view(r) == weak_denominator_spec(
                self@,
                *exp,
                numerator@,
                denominator@,
                *denominator_exp,
                state@,
            ),
    {
        reveal(weak_denominator_spec);
        let text: String = describe(self.function, denominator_exp);
        let factors: Vec<FormulaFactor> = denominator_factors(
            denominator,
            text.as_str(),
            self.function.key.name.as_str(),
            denominator_exp.loc,
        );
        let factor_proofs: bool = is_product(&denominator.formula_facts, &factors)
            && needs_factor_proofs(numerator, self.math_mode);
        let Some(obligation) = violated_obligation(
            &denominator.interval,
            &factors,
            factor_proofs,
        ) else {
            return None;
        };
        let clmm: bool = is_clmm(&denominator.formula_facts);
        let labels: Vec<String> = factor_labels(&factors);
        let failed_condition: String = denominator_condition(
            obligation,
            clmm,
            text.as_str(),
            &labels,
        );
        let proof_mode: ProofMode = if denominator.formula_facts.is_some() {
            ProofMode::Abstract
        } else {
            ProofMode::Heuristic
        };
        let rounding_mode: Option<RoundingMode> = match &denominator.formula_facts {
            Some(facts) => Some(facts.rounding_mode),
            None => None,
        };
        let threshold: Option<U256> = if obligation == ObligationKind::NonZeroDivisor {
            Some(U256::zero())
        } else {
            None
        };
        Some(
            RiskOrigin {
                key: origin_key(RiskKind::ReachableWeakDenominator, exp.loc),
                kind: RiskKind::ReachableWeakDenominator,
                loc: exp.loc,
                source_param_index: denominator.parameter_dependencies.single(),
                width: denominator.width(),
                shift_amount: None,
                threshold,
                title: denominator_title(obligation, clmm),
                expr_text: describe(self.function, exp),
                failed_condition,
                path_facts: state.path_fact_texts(),
                source_interval: denominator.interval.describe(),
                source_name: text,
                helper_name: Some(self.function.key.name.clone()),
                helper_like: self.is_denominator_helper_context(),
                guard_mismatch: false,
                obligation_kind: obligation,
                proof_mode,
                rounding_mode,
            },
        )
    }

    pub fn emit_sink(
        &self,
        origin: &RiskOrigin,
        sink_loc: Loc,
        sink_kind: SinkKind,
        financial: bool,
        state: &AbstractState,
        detail: &Option<String>,
        out: &mut Vec<SecurityFinding>,
    )
        ensures
            views(final(out)@) == views(old(out)@) + emit_sink_spec(
                self@,
                origin@,
                sink_loc,
                sink_kind,
                financial,
                state@,
                opt_view(*detail),
            ),
    {
        let reported: bool = self.mode == AnalysisMode::Findings && !(origin.kind
            == RiskKind::ReachableWeakDenominator && origin.helper_like && (sink_kind
            == SinkKind::PublicReturn || sink_kind == SinkKind::ArithmeticUse));
        if !reported {
            assert(views(out@) + Seq::<SecurityFindingView>::empty() =~= views(out@));
            return;
        }
        let finding = make_finding(origin, sink_loc, sink_kind, financial, state, detail);
        out.push(finding);
        assert(views(out@) =~= views(old(out)@) + seq![finding@]);
    }

    pub fn emit_origins(
        &self,
        origins: &Vec<RiskOrigin>,
        sink_loc: Loc,
        sink_kind: SinkKind,
        financial: bool,
        state: &AbstractState,
        detail: &Option<String>,
        out: &mut Vec<SecurityFinding>,
    )
        ensures
            views(final(out)@) == views(old(out)@) + emit_origins_spec(
                self@,
                views(origins@),
                origins@.len(),
                sink_loc,
                sink_kind,
                financial,
                state@,
                opt_view(*detail),
            ),
    {
        let ghost start = views(out@);
        let ghost all = views(origins@);
        let ghost text = opt_view(*detail);
        let mut i: usize = 0;
        assert(start + emit_origins_spec(
            self@,
            all,
            0,
            sink_loc,
            sink_kind,
            financial,
            state@,
            text,
        ) =~= start);
        while i < origins.len()
            invariant
                i <= origins@.len(),
                all == views(origins@),
                text == opt_view(*detail),
                views(out@) == start + emit_origins_spec(
                    self@,
                    all,
                    i as nat,
                    sink_loc,
                    sink_kind,
                    financial,
                    state@,
                    text,
                ),
            decreases origins@.len() - i,
        {
            self.emit_sink(&origins[i], sink_loc, sink_kind, financial, state, detail, out);
            i = i + 1;
            assert(views(out@) =~= start + emit_origins_spec(
                self@,
                all,
                i as nat,
                sink_loc,
                sink_kind,
                financial,
                state@,
                text,
            ));
        }
    }

    pub fn emit_arithmetic_use(
        &self,
        origins: &Vec<RiskOrigin>,
        sink_loc: Loc,
        state: &AbstractState,
        detail: &Option<String>,
        suppress_suspicious: bool,
        out: &mut Vec<SecurityFinding>,
    )
        ensures
            views(final(out)@) == views(old(out)@) + emit_arithmetic_spec(
                self@,
                views(origins@),
                origins@.len(),
                sink_loc,
                state@,
                opt_view(*detail),
                suppress_suspicious,
            ),
    {
        let ghost start = views(out@);
        let ghost all = views(origins@);
        let ghost text = opt_view(*detail);
        let mut i: usize = 0;
        assert(start + emit_arithmetic_spec(
            self@,
            all,
            0,
            sink_loc,
            state@,
            text,
            suppress_suspicious,
        ) =~= start);
        while i < origins.len()
            invariant
                i <= origins@.len(),
                all == views(origins@),
                text == opt_view(*detail),
                views(out@) == start + emit_arithmetic_spec(
                    self@,
                    all,
                    i as nat,
                    sink_loc,
                    state@,
                    text,
                    suppress_suspicious,
                ),
            decreases origins@.len() - i,
        {
            let kind: RiskKind = origins[i].kind;
            if kind == RiskKind::ReachableLossyRightShift || kind
                == RiskKind::ReachableWeakDenominator || (kind
                == RiskKind::SuspiciousBitwiseArithmetic && !suppress_suspicious) {
                self.emit_sink(
                    &origins[i],
                    sink_loc,
                    SinkKind::ArithmeticUse,
                    false,
                    state,
                    detail,
                    out,
                );
            }
            i = i + 1;
            assert(views(out@) =~= start + emit_arithmetic_spec(
                self@,
                all,
                i as nat,
                sink_loc,
                state@,
                text,
                suppress_suspicious,
            ));
        }
    }

    fn rounding_origin(
        &self,
        value: &ValueState,
        sink_loc: Loc,
        state: &AbstractState,
        expr_text: String,
    ) -> (r: RiskOrigin)
        requires
            value.formula_facts is Some,
        ensures
            r@ == rounding_origin_spec(self@, value@, sink_loc, state@, expr_text@),
    {
        reveal(rounding_origin_spec);
        let mut key: String = origin_key(RiskKind::ReachableRoundingMismatch, sink_loc);
        key.append(":");
        let mut root_id: u64 = 0;
        let mut source_name: String = "value".to_owned();
        let mut rounding_mode: RoundingMode = RoundingMode::Exact;
        if let Some(facts) = &value.formula_facts {
            rounding_mode = facts.rounding_mode;
            if let Some(root) = &facts.root_expr {
                root_id = root.id;
                source_name = root.debug.clone();
            }
        }
        key.append(write_u128(root_id as u128).as_str());
        RiskOrigin {
            key,
            kind: RiskKind::ReachableRoundingMismatch,
            loc: sink_loc,
            source_param_index: value.parameter_dependencies.single(),
            width: value.width(),
            shift_amount: None,
            threshold: None,
            title: "Semantically related value reaches sink with incompatible rounding modes".to_owned(),
            expr_text,
            failed_condition: "consistent rounding mode across all reachable paths for this quantity".to_owned(),
            path_facts: state.path_fact_texts(),
            source_interval: value.interval.describe(),
            source_name,
            helper_name: Some(self.function.key.name.clone()),
            helper_like: false,
            guard_mismatch: false,
            obligation_kind: ObligationKind::RoundingConsistency,
            proof_mode: ProofMode::Abstract,
            rounding_mode: Some(rounding_mode),
        }
    }

    pub fn emit_rounding_mismatch_sink(
        &self,
        value: &ValueState,
        sink_loc: Loc,
        sink_kind: SinkKind,
        financial: bool,
        state: &AbstractState,
        detail: &Option<String>,
        out: &mut Vec<SecurityFinding>,
    )
        ensures
            views(final(out)@) == views(old(out)@) + emit_rounding_spec(
                self@,
                value@,
                sink_loc,
                sink_kind,
                financial,
                state@,
                opt_view(*detail),
            ),
    {
        assert(views(out@) + Seq::<SecurityFindingView>::empty() =~= views(out@));
        let Some(facts) = &value.formula_facts else {
            return;
        };
        if !facts.rounding_conflict || (facts.factors.len() == 0 && facts.root_expr.is_none()) {
            return;
        }
        let sink_detail: String = rounding_detail(&facts.rounding_trace, detail);
        assert(sink_detail@ == rounding_detail_spec(facts@, opt_view(*detail)));
        let empty: bool = sink_detail == String::new();
        assert(empty == (sink_detail@.len() == 0)) by {
            if sink_detail@.len() == 0 {
                assert(sink_detail@ =~= Seq::<char>::empty());
            }
        }
        if empty {
            let origin = self.rounding_origin(value, sink_loc, state, "value".to_owned());
            self.emit_sink(&origin, sink_loc, sink_kind, financial, state, &None, out);
        } else {
            let origin = self.rounding_origin(value, sink_loc, state, sink_detail.clone());
            let detail: Option<String> = Some(sink_detail);
            self.emit_sink(&origin, sink_loc, sink_kind, financial, state, &detail, out);
        }
    }

    /// Reports a value, with its risks, that reaches a sink.
    pub fn emit_value(
        &self,
        value: &ValueState,
        sink_loc: Loc,
        sink_kind: SinkKind,
        financial: bool,
        state: &AbstractState,
        detail: &Option<String>,
        out: &mut Vec<SecurityFinding>,
    )
        ensures
            views(final(out)@) == views(old(out)@) + emit_value_spec(
                self@,
                value@,
                sink_loc,
                sink_kind,
                financial,
                state@,
                opt_view(*detail),
            ),
    {
        self.emit_origins(
            &value.risky_origins,
            sink_loc,
            sink_kind,
            financial,
            state,
            detail,
            out,
        );
        self.emit_rounding_mismatch_sink(
            value,
            sink_loc,
            sink_kind,
            financial,
            state,
            detail,
            out,
        );
        assert(views(out@) =~= views(old(out)@) + emit_value_spec(
            self@,
            value@,
            sink_loc,
            sink_kind,
            financial,
            state@,
            opt_view(*detail),
        ));
    }
}

fn rounding_detail(trace: &Vec<String>, detail: &Option<String>) -> (r: String)
    ensures
        forall|facts: FormulaFactsView|
            facts.rounding_trace == views(trace@) ==> r@ == #[trigger] rounding_detail_spec(
                facts,
                opt_view(*detail),
            ),
{
    let given: String = match detail {
        Some(detail) => detail.clone(),
        None => {
            let none: String = String::new();
            assert(none@ =~= Seq::<char>::empty());
            none
        },
    };
    if trace.len() == 0 {
        return given;
    }
    let mut steps: String = "rounding trace: ".to_owned();
    steps.append(join(trace, " -> ").as_str());
    let empty: bool = given == String::new();
    assert(empty == (given@.len() == 0)) by {
        if given@.len() == 0 {
            assert(given@ =~= Seq::<char>::empty());
        }
    }
    if empty {
        return steps;
    }
    let mut r: String = given;
    r.append("; ");
    r.append(steps.as_str());
    r
}

} // verus!
