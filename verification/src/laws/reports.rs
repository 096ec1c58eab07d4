//! Reports: what findings say, how grave they are, and which of them are shown.

use crate::ast::Loc;
use crate::domain::formula::{ProofMode, RoundingMode};
use crate::domain::risk::{ObligationKind, RiskKind, RiskOriginView};
use crate::domain::state::AbstractStateView;
use crate::laws::texts::{holds_word, holds_word_at};
use crate::model::add_missing;
use crate::report::{
    best_findings, best_findings_are_the_best, each_key, is_best, normalized,
    normalized_findings_are_complete, only_the_best, overshadowed, overshadows, SecurityFindingView,
    Severity, SinkKind,
};
use crate::text::joined;
use crate::transfer::context::Ctx;
use crate::transfer::emit::{
    emit_arithmetic_spec, emit_origins_spec, emit_sink_spec, facts_text_spec, finding_spec,
    message_spec,
};
use crate::u256::{lemma_u256_injective, U256};
use vstd::prelude::*;

verus! {

/// The number under which a kind of risk is published.
pub open spec fn published_code(kind: RiskKind) -> int {
    if kind is ReachableShiftTruncation {
        1
    } else if kind is FakeCheckedShift {
        2
    } else if kind is ReachableNarrowCast {
        3
    } else if kind is InvalidShiftCount {
        4
    } else if kind is ReachableLossyRightShift {
        5
    } else if kind is SuspiciousBitwiseArithmetic {
        6
    } else if kind is ReachableWeakDenominator {
        7
    } else if kind is ReachableRoundingMismatch {
        8
    } else {
        9
    }
}

/// The diagnostic of a finding names the rule of the finding: each kind has its own number and
/// text, in the category of this analysis.
pub proof fn diagnostics_name_their_rule(finding: SecurityFindingView)
    ensures
        finding.diagnostic_spec().code == published_code(finding.kind),
        finding.diagnostic_spec().category == 98,
        finding.diagnostic_spec().prefix == "Security "@,
        finding.diagnostic_spec().severity == finding.severity,
        finding.kind is ReachableShiftTruncation ==> finding.diagnostic_spec().code == 1
            && finding.diagnostic_spec().text == "reachable shift truncation"@,
        finding.kind is FakeCheckedShift ==> finding.diagnostic_spec().code == 2
            && finding.diagnostic_spec().text == "fake checked shift helper"@,
        finding.kind is ReachableNarrowCast ==> finding.diagnostic_spec().code == 3
            && finding.diagnostic_spec().text == "reachable narrowing cast"@,
        finding.kind is InvalidShiftCount ==> finding.diagnostic_spec().code == 4
            && finding.diagnostic_spec().text == "invalid shift count"@,
        finding.kind is ReachableLossyRightShift ==> finding.diagnostic_spec().code == 5
            && finding.diagnostic_spec().text == "reachable lossy right shift"@,
        finding.kind is SuspiciousBitwiseArithmetic ==> finding.diagnostic_spec().code == 6
            && finding.diagnostic_spec().text == "suspicious bitwise arithmetic"@,
        finding.kind is ReachableWeakDenominator ==> finding.diagnostic_spec().code == 7
            && finding.diagnostic_spec().text == "reachable weak denominator"@,
        finding.kind is ReachableRoundingMismatch ==> finding.diagnostic_spec().code == 8
            && finding.diagnostic_spec().text == "reachable rounding mismatch"@,
        finding.kind is DynamicU256Shift ==> finding.diagnostic_spec().code == 9
            && finding.diagnostic_spec().text == "dynamic u256 shift"@,
{
}

/// The number of a diagnostic tells the kind of the finding.
pub proof fn diagnostic_codes_tell_the_kind(a: SecurityFindingView, b: SecurityFindingView)
    ensures
        a.diagnostic_spec().code == b.diagnostic_spec().code <==> a.kind == b.kind,
        1 <= a.diagnostic_spec().code <= 9,
{
    diagnostics_name_their_rule(a);
    diagnostics_name_their_rule(b);
}

/// Each kind of risk has a rule of its own.
pub proof fn rules_are_named_after_their_kind(kind: RiskKind)
    ensures
        kind is ReachableShiftTruncation ==> kind.rule_id_spec()
            == "security/reachable-shift-truncation"@,
        kind is FakeCheckedShift ==> kind.rule_id_spec() == "security/fake-checked-shift"@,
        kind is ReachableNarrowCast ==> kind.rule_id_spec() == "security/reachable-narrow-cast"@,
        kind is InvalidShiftCount ==> kind.rule_id_spec() == "security/invalid-shift-count"@,
        kind is ReachableLossyRightShift ==> kind.rule_id_spec()
            == "security/reachable-lossy-right-shift"@,
        kind is DynamicU256Shift ==> kind.rule_id_spec() == "security/dynamic-u256-shift"@,
        kind is SuspiciousBitwiseArithmetic ==> kind.rule_id_spec()
            == "security/suspicious-bitwise-arithmetic"@,
        kind is ReachableWeakDenominator ==> kind.rule_id_spec()
            == "security/reachable-weak-denominator"@,
        kind is ReachableRoundingMismatch ==> kind.rule_id_spec()
            == "security/reachable-rounding-mismatch"@,
{
}

/// A diagnostic points at the place of the risk with the title of the finding, then at the sink,
/// then at the helper, as far as there are any.
pub proof fn diagnostics_point_at_source_and_sink(finding: SecurityFindingView)
    ensures
        ({
            let shown = finding.diagnostic_spec();
            let labels = shown.secondary_labels;
            let sinks: int = if finding.sink_loc is Some {
                1
            } else {
                0
            };
            let helpers: int = if finding.helper_loc is Some {
                1
            } else {
                0
            };
            &&& shown.primary_label.loc == finding.loc
            &&& shown.primary_label.text == finding.title
            &&& labels.len() == sinks + helpers
            &&& finding.sink_loc is Some ==> labels[0].loc == finding.sink_loc->0
                && labels[0].text == "value reaches a meaningful downstream sink"@
            &&& finding.helper_loc is Some ==> labels.last().loc == finding.helper_loc->0
                && labels.last().text == "helper wrapper involved in this path"@
        }),
{
}

/// The notes of a diagnostic are the message, the rule and what could not be proved; then the facts
/// on the path and the sink, where there is anything to say about them; and at the end what to do.
pub proof fn diagnostics_explain_themselves(finding: SecurityFindingView)
    ensures
        ({
            let notes = finding.diagnostic_spec().notes;
            let facts: int = if finding.path_facts.len() > 0 {
                1
            } else {
                0
            };
            let details: int = if finding.sink_detail is Some {
                1
            } else {
                0
            };
            &&& notes.len() == 4 + facts + details
            &&& notes[0] == finding.message
            &&& notes[1] == "rule id: "@ + finding.kind.rule_id_spec()
            &&& notes[2] == "failed obligation: "@ + finding.failed_condition
            &&& finding.path_facts.len() > 0 ==> notes[3] == "path facts: "@ + joined(
                finding.path_facts,
                ", "@,
            )
            &&& finding.sink_detail is Some ==> notes[3 + facts] == "sink detail: "@
                + finding.sink_detail->0
            &&& notes.last() == finding.recommendation
        }),
{
}

/// Whether a finding is an error: one of bitwise arithmetic or of a shift by an unknown amount
/// never is; any other is where the value is stored or where money is at stake in a call or in what
/// is returned, and of a denominator only one that may be zero, on firm evidence.
pub open spec fn is_grave(origin: RiskOriginView, sink_kind: SinkKind, financial: bool) -> bool {
    &&& sink_kind is FieldWrite || financial && (sink_kind is CallArgument
        || sink_kind is PublicReturn)
    &&& origin.kind !is SuspiciousBitwiseArithmetic
    &&& origin.kind !is DynamicU256Shift
    &&& origin.kind is ReachableWeakDenominator ==> origin.threshold is Some
        && origin.threshold->0@ == 0 && origin.proof_mode is Abstract
}

/// Whether a risk is passed over at a sink: that of a denominator in a helper around divisions,
/// where the helper itself computes with the value or returns it.
pub open spec fn is_left_to_callers(origin: RiskOriginView, sink_kind: SinkKind) -> bool {
    origin.kind is ReachableWeakDenominator && origin.helper_like && (sink_kind is PublicReturn
        || sink_kind is ArithmeticUse)
}

/// Whether a finding says that this risk reaches this sink, and how grave it is.
pub open spec fn tells_of(
    finding: SecurityFindingView,
    origin: RiskOriginView,
    sink_loc: Loc,
    sink_kind: SinkKind,
    financial: bool,
    detail: Option<Seq<char>>,
) -> bool {
    &&& finding.key == origin.key
    &&& finding.kind == origin.kind
    &&& finding.loc == origin.loc
    &&& finding.sink_loc == Some(sink_loc)
    &&& finding.sink_kind == sink_kind
    &&& finding.sink_detail == detail
    &&& finding.failed_condition == origin.failed_condition
    &&& finding.helper_loc is Some <==> origin.helper_name is Some
    &&& finding.helper_loc is Some ==> finding.helper_loc->0 == origin.loc
    &&& is_grave(origin, sink_kind, financial) ==> finding.severity is NonblockingError
    &&& !is_grave(origin, sink_kind, financial) ==> finding.severity is Warning
}

proof fn lemma_tells_of(
    origin: RiskOriginView,
    sink_loc: Loc,
    sink_kind: SinkKind,
    financial: bool,
    st: AbstractStateView,
    detail: Option<Seq<char>>,
)
    ensures
        tells_of(
            finding_spec(origin, sink_loc, sink_kind, financial, st, detail),
            origin,
            sink_loc,
            sink_kind,
            financial,
            detail,
        ),
{
    reveal(finding_spec);
    if let Some(threshold) = origin.threshold {
        if threshold@ == 0 {
            lemma_u256_injective(threshold, U256::zero_spec());
        }
    }
}

/// A risk that reaches a sink is reported where the analysis looks for findings, unless it is left
/// to the callers of a helper; what is reported says where the risk comes from, where it goes, and
/// how grave that is.
pub proof fn risks_are_told_at_sinks(
    c: Ctx,
    origin: RiskOriginView,
    sink_loc: Loc,
    sink_kind: SinkKind,
    financial: bool,
    st: AbstractStateView,
    detail: Option<Seq<char>>,
)
    ensures
        ({
            let found = emit_sink_spec(c, origin, sink_loc, sink_kind, financial, st, detail);
            if c.mode is Findings && !is_left_to_callers(origin, sink_kind) {
                found.len() == 1 && tells_of(
                    found[0],
                    origin,
                    sink_loc,
                    sink_kind,
                    financial,
                    detail,
                )
            } else {
                found.len() == 0
            }
        }),
{
    lemma_tells_of(origin, sink_loc, sink_kind, financial, st, detail);
}

/// What is reported of the risks of a value is one finding for each that is not left to the callers
/// of a helper, in the order of the risks.
pub proof fn each_risk_of_a_value_is_told(
    c: Ctx,
    origins: Seq<RiskOriginView>,
    n: nat,
    sink_loc: Loc,
    sink_kind: SinkKind,
    financial: bool,
    st: AbstractStateView,
    detail: Option<Seq<char>>,
)
    requires
        n <= origins.len(),
        c.mode is Findings,
    ensures
        ({
            let found = emit_origins_spec(
                c,
                origins,
                n,
                sink_loc,
                sink_kind,
                financial,
                st,
                detail,
            );
            let told = origins.take(n as int).filter(
                |o: RiskOriginView| !is_left_to_callers(o, sink_kind),
            );
            &&& found.len() == told.len()
            &&& forall|i: int|
                0 <= i < found.len() ==> tells_of(
                    #[trigger] found[i],
                    told[i],
                    sink_loc,
                    sink_kind,
                    financial,
                    detail,
                )
        }),
    decreases n,
{
    let keep = |o: RiskOriginView| !is_left_to_callers(o, sink_kind);
    reveal(Seq::filter);
    if n > 0 {
        each_risk_of_a_value_is_told(
            c,
            origins,
            (n - 1) as nat,
            sink_loc,
            sink_kind,
            financial,
            st,
            detail,
        );
        risks_are_told_at_sinks(
            c,
            origins[n - 1],
            sink_loc,
            sink_kind,
            financial,
            st,
            detail,
        );
        assert(origins.take(n as int).drop_last() =~= origins.take(n - 1));
        assert(origins.take(n as int).last() == origins[n - 1]);
    }
}

/// Whether a risk is told where an operand of arithmetic carries it: lost low bits and weak
/// denominators are, and bitwise results unless something graver is known of the outcome.
pub open spec fn is_told_in_arithmetic(kind: RiskKind, graver: bool) -> bool {
    kind is ReachableLossyRightShift || kind is ReachableWeakDenominator || (
    kind is SuspiciousBitwiseArithmetic && !graver)
}

/// What is reported of the risks of an operand is one finding, a warning, for each that is told in
/// arithmetic and not left to the callers of a helper.
pub proof fn each_risk_of_an_operand_is_told(
    c: Ctx,
    origins: Seq<RiskOriginView>,
    n: nat,
    sink_loc: Loc,
    st: AbstractStateView,
    detail: Option<Seq<char>>,
    graver: bool,
)
    requires
        n <= origins.len(),
        c.mode is Findings,
    ensures
        ({
            let found = emit_arithmetic_spec(c, origins, n, sink_loc, st, detail, graver);
            let told = origins.take(n as int).filter(
                |o: RiskOriginView|
                    is_told_in_arithmetic(o.kind, graver) && !is_left_to_callers(
                        o,
                        SinkKind::ArithmeticUse,
                    ),
            );
            &&& found.len() == told.len()
            &&& forall|i: int|
                0 <= i < found.len() ==> tells_of(
                    #[trigger] found[i],
                    told[i],
                    sink_loc,
                    SinkKind::ArithmeticUse,
                    false,
                    detail,
                ) && found[i].severity is Warning
        }),
    decreases n,
{
    let keep = |o: RiskOriginView|
        is_told_in_arithmetic(o.kind, graver) && !is_left_to_callers(o, SinkKind::ArithmeticUse);
    reveal(Seq::filter);
    if n > 0 {
        each_risk_of_an_operand_is_told(c, origins, (n - 1) as nat, sink_loc, st, detail, graver);
        risks_are_told_at_sinks(
            c,
            origins[n - 1],
            sink_loc,
            SinkKind::ArithmeticUse,
            false,
            st,
            detail,
        );
        assert(origins.take(n as int).drop_last() =~= origins.take(n - 1));
        assert(origins.take(n as int).last() == origins[n - 1]);
    }
}

/// The title of a finding, kind by kind; of a denominator and of a rounding mismatch, that of the
/// risk.
pub proof fn titles_name_the_risk(
    origin: RiskOriginView,
    sink_loc: Loc,
    sink_kind: SinkKind,
    financial: bool,
    st: AbstractStateView,
    detail: Option<Seq<char>>,
)
    ensures
        ({
            let kind = origin.kind;
            let title = finding_spec(origin, sink_loc, sink_kind, financial, st, detail).title;
            &&& kind is ReachableShiftTruncation ==> title
                == "Reachable truncating left shift on a value-bearing path"@
            &&& kind is FakeCheckedShift ==> title
                == "Custom checked-shift helper may be unsound on a reachable path"@
            &&& kind is ReachableNarrowCast ==> title
                == "Reachable narrowing cast may fail on a value-bearing path"@
            &&& kind is InvalidShiftCount ==> title == "Reachable invalid shift count"@
            &&& kind is ReachableLossyRightShift ==> title
                == "Reachable lossy right shift on a value-bearing path"@
            &&& kind is DynamicU256Shift ==> title
                == "Dynamic u256 shift count on a value-bearing path"@
            &&& kind is SuspiciousBitwiseArithmetic ==> title
                == "Suspicious bitwise result reaches downstream arithmetic"@
            &&& kind is ReachableWeakDenominator || kind is ReachableRoundingMismatch ==> title
                == origin.title
        }),
{
    reveal(finding_spec);
}

/// What to do about a finding, kind by kind.
pub proof fn recommendations_fit_the_risk(
    origin: RiskOriginView,
    sink_loc: Loc,
    sink_kind: SinkKind,
    financial: bool,
    st: AbstractStateView,
    detail: Option<Seq<char>>,
)
    ensures
        ({
            let kind = origin.kind;
            let advice = finding_spec(
                origin,
                sink_loc,
                sink_kind,
                financial,
                st,
                detail,
            ).recommendation;
            &&& kind is ReachableShiftTruncation || kind is FakeCheckedShift ==> advice
                == "Enforce the canonical bound before shifting, or widen the intermediate and only narrow after an exact bound check."@
            &&& kind is ReachableNarrowCast ==> advice
                == "Prove the destination range before casting, or keep the value in the wider type through value-sensitive math."@
            &&& kind is InvalidShiftCount ==> advice
                == "Prove the shift amount is strictly smaller than the operand width on every reachable path."@
            &&& kind is ReachableLossyRightShift ==> advice
                == "Prove the discarded low bits are zero before using right shift as arithmetic, or use an exact division path where rounding is explicit."@
            &&& kind is DynamicU256Shift ==> advice
                == "Fix the shift amount, or bound it and the operand so that no significant bit can be shifted out."@
            &&& kind is SuspiciousBitwiseArithmetic ==> advice
                == "Prove the masked or combined bit range before reusing the value in arithmetic or sink-bearing logic."@
            &&& kind is ReachableWeakDenominator ==> advice
                == "Prove `divisor != 0` on all paths and, for product denominators, prove each independent factor is strictly positive."@
            &&& kind is ReachableRoundingMismatch ==> advice
                == "Use one rounding policy for this quantity (all floor or all ceil), or add an explicit compensation invariant before the sink."@
        }),
{
    reveal(finding_spec);
}

proof fn lemma_holds_middle(a: Seq<char>, b: Seq<char>, c: Seq<char>)
    ensures
        holds_word(a + b + c, b),
{
    assert(holds_word_at(a + b + c, b, a.len() as int));
}

proof fn lemma_holds_two(a: Seq<char>, b: Seq<char>, c: Seq<char>)
    ensures
        holds_word(a + b + c, b + c),
{
    lemma_holds_middle(a, b + c, Seq::empty());
    lemma_grouped(a, b, c);
}

proof fn lemma_grouped(a: Seq<char>, b: Seq<char>, c: Seq<char>)
    ensures
        a + (b + c) + Seq::empty() == a + b + c,
{
    assert(a + (b + c) + Seq::empty() =~= a + b + c);
}

proof fn lemma_holds_on(text: Seq<char>, more: Seq<char>, word: Seq<char>)
    requires
        holds_word(text, word),
    ensures
        holds_word(text + more, word),
{
    let at = choose|at: int| #[trigger] holds_word_at(text, word, at);
    assert(holds_word_at(text + more, word, at)) by {
        assert forall|k: int| 0 <= k < word.len() implies #[trigger] word[k] == (text + more)[at
            + k] by {
            assert(word[k] == text[at + k]);
        }
    }
}

/// Texts, one after the other.
spec fn run_on(parts: Seq<Seq<char>>) -> Seq<char>
    decreases parts.len(),
{
    if parts.len() == 0 {
        Seq::empty()
    } else {
        run_on(parts.drop_last()) + parts.last()
    }
}

proof fn lemma_run_on(parts: Seq<Seq<char>>, part: Seq<char>)
    ensures
        run_on(parts.push(part)) == run_on(parts) + part,
{
    assert(parts.push(part).drop_last() =~= parts);
}

proof fn lemma_taken(parts: Seq<Seq<char>>, n: int)
    requires
        0 < n <= parts.len(),
    ensures
        run_on(parts.take(n)) == run_on(parts.take(n - 1)) + parts[n - 1],
{
    lemma_run_on(parts.take(n - 1), parts[n - 1]);
    assert(parts.take(n - 1).push(parts[n - 1]) =~= parts.take(n));
}

proof fn lemma_last(parts: Seq<Seq<char>>)
    requires
        parts.len() > 0,
    ensures
        run_on(parts) == run_on(parts.drop_last()) + parts.last(),
{
}

proof fn lemma_one(parts: Seq<Seq<char>>, i: int)
    requires
        0 <= i < parts.len(),
    ensures
        holds_word(run_on(parts), parts[i]),
    decreases parts.len(),
{
    let front = parts.drop_last();
    if i == parts.len() - 1 {
        lemma_holds_middle(run_on(front), parts[i], Seq::empty());
        assert(run_on(front) + parts[i] + Seq::empty() =~= run_on(front) + parts[i]);
    } else {
        lemma_one(front, i);
        lemma_holds_on(run_on(front), parts.last(), parts[i]);
    }
}

proof fn lemma_pair(parts: Seq<Seq<char>>, i: int)
    requires
        0 <= i < parts.len() - 1,
    ensures
        holds_word(run_on(parts), parts[i] + parts[i + 1]),
    decreases parts.len(),
{
    let front = parts.drop_last();
    let pair = parts[i] + parts[i + 1];
    if i == parts.len() - 2 {
        lemma_last(front);
        lemma_holds_two(run_on(front.drop_last()), parts[i], parts[i + 1]);
    } else {
        lemma_pair(front, i);
        lemma_holds_on(run_on(front), parts.last(), pair);
    }
}

/// The parts that every message has.
spec fn first_parts(origin: RiskOriginView, path_facts: Seq<Seq<char>>) -> Seq<Seq<char>> {
    seq![
        origin.expr_text,
        ". The analyzer cannot prove `"@,
        origin.failed_condition,
        "`. Current path facts: "@,
        facts_text_spec(path_facts),
        ". Source interval: "@,
        origin.source_interval,
        "."@,
        " Obligation: "@,
        origin.obligation_kind.describe_spec(),
        ". Evidence: "@,
        origin.proof_mode.name_spec(),
        "."@,
    ]
}

proof fn lemma_first_parts(origin: RiskOriginView, path_facts: Seq<Seq<char>>)
    ensures
        run_on(first_parts(origin, path_facts)) == origin.expr_text
            + ". The analyzer cannot prove `"@ + origin.failed_condition
            + "`. Current path facts: "@ + facts_text_spec(path_facts) + ". Source interval: "@
            + origin.source_interval + "."@ + " Obligation: "@
            + origin.obligation_kind.describe_spec() + ". Evidence: "@
            + origin.proof_mode.name_spec() + "."@,
{
    let q = first_parts(origin, path_facts);
    assert(q.take(0) =~= Seq::empty());
    lemma_taken(q, 1);
    lemma_taken(q, 2);
    lemma_taken(q, 3);
    lemma_taken(q, 4);
    lemma_taken(q, 5);
    lemma_taken(q, 6);
    lemma_taken(q, 7);
    lemma_taken(q, 8);
    lemma_taken(q, 9);
    lemma_taken(q, 10);
    lemma_taken(q, 11);
    lemma_taken(q, 12);
    lemma_taken(q, 13);
    assert(run_on(q.take(0)) =~= Seq::<char>::empty());
    assert(run_on(q.take(1)) =~= origin.expr_text);
    assert(q.take(13) =~= q);
}

/// The parts of a message.
spec fn parts_of(
    origin: RiskOriginView,
    path_facts: Seq<Seq<char>>,
    detail: Option<Seq<char>>,
) -> Seq<Seq<char>> {
    let first = first_parts(origin, path_facts);
    let rounding = match origin.rounding_mode {
        Some(mode) => first.push(" Rounding mode seen: "@).push(mode.name_spec()).push("."@),
        None => first,
    };
    let guard = if origin.guard_mismatch {
        rounding.push(
            " A dominating helper guard exists, but it is weaker than the true no-truncation bound."@,
        )
    } else {
        rounding
    };
    let dynamic = if origin.kind is DynamicU256Shift {
        guard.push(" Note that u256 shift counts are not runtime-checked."@)
    } else {
        guard
    };
    match detail {
        Some(detail) => dynamic.push(" Sink evidence: "@).push(detail).push("."@),
        None => dynamic,
    }
}

proof fn lemma_parts_of(
    origin: RiskOriginView,
    path_facts: Seq<Seq<char>>,
    detail: Option<Seq<char>>,
)
    ensures
        message_spec(origin, path_facts, detail) == run_on(parts_of(origin, path_facts, detail)),
{
    reveal(message_spec);
    let first = first_parts(origin, path_facts);
    lemma_first_parts(origin, path_facts);
    let rounding = match origin.rounding_mode {
        Some(mode) => first.push(" Rounding mode seen: "@).push(mode.name_spec()).push("."@),
        None => first,
    };
    if let Some(mode) = origin.rounding_mode {
        lemma_run_on(first, " Rounding mode seen: "@);
        lemma_run_on(first.push(" Rounding mode seen: "@), mode.name_spec());
        lemma_run_on(first.push(" Rounding mode seen: "@).push(mode.name_spec()), "."@);
    }
    let warning =
        " A dominating helper guard exists, but it is weaker than the true no-truncation bound."@;
    lemma_run_on(rounding, warning);
    let guard = if origin.guard_mismatch {
        rounding.push(warning)
    } else {
        rounding
    };
    let note = " Note that u256 shift counts are not runtime-checked."@;
    lemma_run_on(guard, note);
    let dynamic = if origin.kind is DynamicU256Shift {
        guard.push(note)
    } else {
        guard
    };
    if let Some(detail) = detail {
        lemma_run_on(dynamic, " Sink evidence: "@);
        lemma_run_on(dynamic.push(" Sink evidence: "@), detail);
        lemma_run_on(dynamic.push(" Sink evidence: "@).push(detail), "."@);
    }
}

/// The message of a finding says what the expression is, what could not be proved of it, what is
/// known of it, and on what evidence; then, where it applies, how it was rounded, that a check is
/// too weak, that shift counts of 256 bits are not checked, and what the sink is.
pub proof fn messages_say_what_is_wrong(
    origin: RiskOriginView,
    sink_loc: Loc,
    sink_kind: SinkKind,
    financial: bool,
    st: AbstractStateView,
    detail: Option<Seq<char>>,
)
    ensures
        ({
            let finding = finding_spec(origin, sink_loc, sink_kind, financial, st, detail);
            let message = finding.message;
            let facts = finding.path_facts;
            &&& holds_word(message, origin.expr_text + ". The analyzer cannot prove `"@)
            &&& holds_word(message, ". The analyzer cannot prove `"@ + origin.failed_condition)
            &&& facts.len() > 0 ==> holds_word(
                message,
                "`. Current path facts: "@ + joined(facts, ", "@),
            )
            &&& facts.len() == 0 ==> holds_word(message, "`. Current path facts: "@ + "none"@)
            &&& holds_word(message, ". Source interval: "@ + origin.source_interval)
            &&& holds_word(message, " Obligation: "@ + origin.obligation_kind.describe_spec())
            &&& holds_word(message, ". Evidence: "@ + origin.proof_mode.name_spec())
            &&& origin.rounding_mode is Some ==> holds_word(
                message,
                " Rounding mode seen: "@ + origin.rounding_mode->0.name_spec(),
            )
            &&& origin.guard_mismatch ==> holds_word(
                message,
                " A dominating helper guard exists, but it is weaker than the true no-truncation bound."@,
            )
            &&& origin.kind is DynamicU256Shift ==> holds_word(
                message,
                " Note that u256 shift counts are not runtime-checked."@,
            )
            &&& detail is Some ==> holds_word(message, " Sink evidence: "@ + detail->0)
        }),
{
    reveal(finding_spec);
    let facts = finding_spec(origin, sink_loc, sink_kind, financial, st, detail).path_facts;
    lemma_parts_of(origin, facts, detail);
    let parts = parts_of(origin, facts, detail);
    lemma_pair(parts, 0);
    lemma_pair(parts, 1);
    lemma_pair(parts, 3);
    lemma_pair(parts, 5);
    lemma_pair(parts, 8);
    lemma_pair(parts, 10);
    if origin.rounding_mode is Some {
        lemma_pair(parts, 13);
    }
    let after: int = if origin.rounding_mode is Some {
        16
    } else {
        13
    };
    let noted: int = if origin.guard_mismatch {
        after + 1
    } else {
        after
    };
    let sunk: int = if origin.kind is DynamicU256Shift {
        noted + 1
    } else {
        noted
    };
    if origin.guard_mismatch {
        lemma_one(parts, after);
    }
    if origin.kind is DynamicU256Shift {
        lemma_one(parts, noted);
    }
    if detail is Some {
        lemma_pair(parts, sunk);
    }
}

/// What obligations and evidence are called in messages, one by one.
pub proof fn words_of_messages(
    obligation: ObligationKind,
    proof_mode: ProofMode,
    rounding: RoundingMode,
)
    ensures
        obligation is Absent ==> obligation.describe_spec() == "none"@,
        obligation is NonZeroDivisor ==> obligation.describe_spec() == "divisor must be non-zero"@,
        obligation is IndependentFactorPositivity ==> obligation.describe_spec()
            == "each independent denominator factor must be strictly positive"@,
        obligation is RoundingConsistency ==> obligation.describe_spec()
            == "rounding mode must be consistent for semantically related quantities"@,
        proof_mode is Abstract ==> proof_mode.name_spec() == "Abstract"@,
        proof_mode is Heuristic ==> proof_mode.name_spec() == "Heuristic"@,
        rounding is Exact ==> rounding.name_spec() == "Exact"@,
        rounding is RoundUp ==> rounding.name_spec() == "RoundUp"@,
        rounding is RoundDown ==> rounding.name_spec() == "RoundDown"@,
        rounding is Unknown ==> rounding.name_spec() == "Unknown"@,
{
}

/// What is missing is added behind what is there, and nothing else.
pub proof fn lemma_add_missing(s: Seq<Seq<char>>, extra: Seq<Seq<char>>, n: nat)
    requires
        n <= extra.len(),
    ensures
        s.is_prefix_of(add_missing(s, extra, n)),
        forall|t: Seq<char>| #[trigger]
            add_missing(s, extra, n).contains(t) <==> s.contains(t) || extra.take(
                n as int,
            ).contains(t),
    decreases n,
{
    let all = add_missing(s, extra, n);
    if n > 0 {
        let before = add_missing(s, extra, (n - 1) as nat);
        lemma_add_missing(s, extra, (n - 1) as nat);
        let last = extra[n - 1];
        assert forall|t: Seq<char>| #[trigger] all.contains(t) <==> s.contains(t) || extra.take(
            n as int,
        ).contains(t) by {
            assert(before.contains(t) <==> s.contains(t) || extra.take(n - 1).contains(t));
            assert(extra.take(n as int) =~= extra.take(n - 1).push(last));
            assert(extra.take(n as int).contains(t) <==> extra.take(n - 1).contains(t) || t
                == last) by {
                if extra.take(n - 1).contains(t) {
                    let front = extra.take(n - 1);
                    let k = choose|k: int| 0 <= k < front.len() && front[k] == t;
                    assert(extra.take(n as int)[k] == t);
                }
                assert(extra.take(n as int)[n - 1] == last);
                if extra.take(n as int).contains(t) && t != last {
                    let front = extra.take(n as int);
                    let k = choose|k: int| 0 <= k < front.len() && front[k] == t;
                    assert(extra.take(n - 1)[k] == t);
                }
            }
            if !before.contains(last) {
                assert(before.push(last)[before.len() as int] == last);
                if before.contains(t) {
                    let k = choose|k: int| 0 <= k < before.len() && before[k] == t;
                    assert(all[k] == t);
                }
                if all.contains(t) && t != last {
                    let k = choose|k: int| 0 <= k < all.len() && all[k] == t;
                    assert(before[k] == t);
                }
            }
        }
    } else {
        assert(extra.take(0) =~= Seq::empty());
    }
}

/// The facts of a finding are those that held where the risk arose, in their order, and those that
/// hold at the sink.
pub proof fn findings_hold_the_facts_of_both_ends(
    origin: RiskOriginView,
    sink_loc: Loc,
    sink_kind: SinkKind,
    financial: bool,
    st: AbstractStateView,
    detail: Option<Seq<char>>,
    text: Seq<char>,
)
    ensures
        ({
            let facts = finding_spec(
                origin,
                sink_loc,
                sink_kind,
                financial,
                st,
                detail,
            ).path_facts;
            &&& origin.path_facts.is_prefix_of(facts)
            &&& facts.contains(text) <==> origin.path_facts.contains(text) || exists|i: int|
                0 <= i < st.path_facts.len() && (#[trigger] st.path_facts[i]).text == text
        }),
{
    reveal(finding_spec);
    let texts = st.fact_texts();
    lemma_add_missing(origin.path_facts, texts, texts.len());
    assert(texts.take(texts.len() as int) =~= texts);
    if texts.contains(text) {
        let i = choose|i: int| 0 <= i < texts.len() && texts[i] == text;
        assert(st.path_facts[i].text == text);
    }
    if exists|i: int| 0 <= i < st.path_facts.len() && (#[trigger] st.path_facts[i]).text == text {
        let i = choose|i: int|
            0 <= i < st.path_facts.len() && (#[trigger] st.path_facts[i]).text == text;
        assert(texts[i] == text);
    }
}

/// Whether one finding counts for less than another of the same key: it is less grave, or as grave
/// but at a sink that does less harm.
pub open spec fn counts_less(a: SecurityFindingView, b: SecurityFindingView) -> bool {
    graveness(a.severity) < graveness(b.severity) || (graveness(a.severity) == graveness(
        b.severity,
    ) && harm(a.sink_kind) < harm(b.sink_kind))
}

/// Notes are less grave than warnings, and these than errors.
pub open spec fn graveness(severity: Severity) -> int {
    if severity is Note {
        0
    } else if severity is Warning {
        1
    } else {
        2
    }
}

/// Mere arithmetic does less harm than what is returned, and this than what is stored or passed on.
pub open spec fn harm(sink_kind: SinkKind) -> int {
    if sink_kind is ArithmeticUse {
        0
    } else if sink_kind is PublicReturn {
        1
    } else {
        2
    }
}

/// Whether a finding is the one that is kept of its key: none counts for more, and none that counts
/// the same comes before it.
pub open spec fn is_kept(findings: Seq<SecurityFindingView>, j: int) -> bool {
    &&& 0 <= j < findings.len()
    &&& forall|k: int|
        0 <= k < findings.len() && (#[trigger] findings[k]).key == findings[j].key
            ==> !counts_less(findings[j], findings[k]) && (k < j ==> counts_less(
            findings[k],
            findings[j],
        ))
}

/// Whether another finding that is kept, at the same sink, graver and not of bitwise arithmetic,
/// leaves a finding of bitwise arithmetic with nothing to add.
pub open spec fn is_outdone(
    findings: Seq<SecurityFindingView>,
    finding: SecurityFindingView,
) -> bool {
    finding.kind is SuspiciousBitwiseArithmetic && exists|j: int| #[trigger]
        is_kept(findings, j) && findings[j].kind !is SuspiciousBitwiseArithmetic
            && findings[j].sink_loc == finding.sink_loc && graveness(findings[j].severity)
            > graveness(finding.severity)
}

/// Of the findings with one key, that which counts most is shown; only findings of bitwise
/// arithmetic that are outdone are left out.
pub proof fn shown_findings_are_those_that_count(
    findings: Seq<SecurityFindingView>,
    finding: SecurityFindingView,
)
    ensures
        normalized(findings).contains(finding) <==> (exists|j: int| #[trigger]
            is_kept(findings, j) && findings[j] == finding) && !is_outdone(findings, finding),
{
    normalized_findings_are_complete(findings);
    lemma_kept_are_best(findings, finding);
    lemma_outdone(findings, finding);
}

proof fn lemma_outdone(findings: Seq<SecurityFindingView>, finding: SecurityFindingView)
    ensures
        overshadowed(best_findings(findings), finding) <==> is_outdone(findings, finding),
{
    let best = best_findings(findings);
    if overshadowed(best, finding) {
        let i = choose|i: int| 0 <= i < best.len() && overshadows(#[trigger] best[i], finding);
        assert(best.contains(best[i]));
        lemma_kept_are_best(findings, best[i]);
    }
    if is_outdone(findings, finding) {
        let j = choose|j: int| #[trigger]
            is_kept(findings, j) && findings[j].kind !is SuspiciousBitwiseArithmetic
                && findings[j].sink_loc == finding.sink_loc && graveness(findings[j].severity)
                > graveness(finding.severity);
        lemma_kept_are_best(findings, findings[j]);
        let i = choose|i: int| 0 <= i < best.len() && best[i] == findings[j];
        assert(overshadows(best[i], finding));
    }
}

proof fn lemma_kept_are_best(findings: Seq<SecurityFindingView>, f: SecurityFindingView)
    ensures
        best_findings(findings).contains(f) <==> exists|j: int| #[trigger]
            is_kept(findings, j) && findings[j] == f,
{
    let best = best_findings(findings);
    best_findings_are_the_best(findings);
    if best.contains(f) {
        reveal(only_the_best);
        let i = choose|i: int| 0 <= i < best.len() && best[i] == f;
        let j = choose|j: int|
            0 <= j < findings.len() && best[i] == #[trigger] findings[j] && is_best(findings, j);
        lemma_best_is_kept(findings, j);
        assert(is_kept(findings, j) && findings[j] == f);
    }
    if exists|j: int| #[trigger] is_kept(findings, j) && findings[j] == f {
        let j = choose|j: int| #[trigger] is_kept(findings, j) && findings[j] == f;
        lemma_kept_is_best(findings, j);
    }
}

proof fn lemma_kept_is_best(findings: Seq<SecurityFindingView>, j: int)
    requires
        is_kept(findings, j),
    ensures
        best_findings(findings).contains(findings[j]),
{
    let best = best_findings(findings);
    best_findings_are_the_best(findings);
    assert(exists|i: int| 0 <= i < best.len() && (#[trigger] best[i]).key == findings[j].key) by {
        reveal(each_key);
    }
    reveal(only_the_best);
    let i = choose|i: int| 0 <= i < best.len() && (#[trigger] best[i]).key == findings[j].key;
    let m = choose|m: int|
        0 <= m < findings.len() && best[i] == #[trigger] findings[m] && is_best(findings, m);
    lemma_best_is_kept(findings, m);
    lemma_one_is_kept(findings, m, j);
    assert(best[i] == findings[j]);
}

proof fn lemma_one_is_kept(findings: Seq<SecurityFindingView>, j: int, k: int)
    requires
        is_kept(findings, j),
        is_kept(findings, k),
        findings[j].key == findings[k].key,
    ensures
        j == k,
{
}

proof fn lemma_best_is_kept(findings: Seq<SecurityFindingView>, j: int)
    requires
        0 <= j < findings.len(),
    ensures
        is_best(findings, j) <==> is_kept(findings, j),
{
    assert forall|k: int| 0 <= k < findings.len() implies (counts_less(
        findings[j],
        #[trigger] findings[k],
    ) <==> findings[j].rank() < findings[k].rank()) && (counts_less(findings[k], findings[j])
        <==> findings[k].rank() < findings[j].rank()) by {}
}

} // verus!
