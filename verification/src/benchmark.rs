//! The benchmark: packages with known outcomes, and how the analyzer does on them.

use crate::domain::risk::RiskKind;
use crate::model::{opt_view, views};
use crate::report::{SecurityFinding, SecurityFindingView};
use crate::text::{chars_of, decimal, write_u128};
use vstd::prelude::*;
use vstd::string::StringSliceAdditionalSpecFns;
use vstd::utf8::{decode_utf8, encode_utf8, encode_utf8_decode_utf8, is_char_boundary};

verus! {

/// A package of the benchmark: where it lies, and which risk it has. One without a risk is safe.
#[derive(Clone, Copy, Debug)]
pub struct CorpusEntry {
    pub path: &'static str,
    pub label: &'static str,
    pub expected_kind: Option<RiskKind>,
    pub min_expected: usize,
}

#[verifier::ext_equal]
pub struct CorpusEntryView {
    pub path: Seq<char>,
    pub label: Seq<char>,
    pub expected_kind: Option<RiskKind>,
    pub min_expected: nat,
}

impl View for CorpusEntry {
    type V = CorpusEntryView;

    open spec fn view(&self) -> CorpusEntryView {
        CorpusEntryView {
            path: self.path@,
            label: self.label@,
            expected_kind: self.expected_kind,
            min_expected: self.min_expected as nat,
        }
    }
}

/// An entry: at least one finding is expected of a package that has a risk, none of a safe one.
pub open spec fn entry_spec(
    path: Seq<char>,
    label: Seq<char>,
    expected_kind: Option<RiskKind>,
) -> CorpusEntryView {
    CorpusEntryView {
        path,
        label,
        expected_kind,
        min_expected: if expected_kind is Some {
            1
        } else {
            0
        },
    }
}

fn entry(
    path: &'static str,
    label: &'static str,
    expected_kind: Option<RiskKind>,
) -> (r: CorpusEntry)
    ensures
        r@ == entry_spec(path@, label@, expected_kind),
{
    CorpusEntry {
        path,
        label,
        expected_kind,
        min_expected: match expected_kind {
            Some(_) => 1,
            None => 0,
        },
    }
}

/// The packages of the benchmark, in order.
pub open spec fn corpus_spec() -> Seq<CorpusEntryView> {
    seq![
        entry_spec("tests/security_analysis/real_cases/cetus_vulnerable"@, "cetus_vulnerable"@, Some(RiskKind::FakeCheckedShift)),
        entry_spec("tests/security_analysis/real_cases/cetus_patched"@, "cetus_patched"@, None),
        entry_spec("tests/security_analysis/real_cases/integer_mate_cloned_vulnerable"@, "integer_mate_cloned_vulnerable"@, Some(RiskKind::FakeCheckedShift)),
        entry_spec("tests/security_analysis/real_cases/clmm_denominator_vulnerable"@, "clmm_denominator_vulnerable"@, Some(RiskKind::ReachableWeakDenominator)),
        entry_spec("tests/security_analysis/real_cases/clmm_denominator_patched"@, "clmm_denominator_patched"@, None),
        entry_spec("tests/security_analysis/reduced_cases/unsafe_direct"@, "unsafe_direct"@, Some(RiskKind::ReachableShiftTruncation)),
        entry_spec("tests/security_analysis/reduced_cases/safe_guards"@, "safe_guards"@, None),
        entry_spec("tests/security_analysis/reduced_cases/helper_and_cast"@, "helper_and_cast"@, Some(RiskKind::FakeCheckedShift)),
        entry_spec("tests/security_analysis/reduced_cases/invalid_shift"@, "invalid_shift"@, Some(RiskKind::InvalidShiftCount)),
        entry_spec("tests/security_analysis/reduced_cases/lossy_right_shift"@, "lossy_right_shift"@, Some(RiskKind::ReachableLossyRightShift)),
        entry_spec("tests/security_analysis/reduced_cases/safe_right_shift"@, "safe_right_shift"@, None),
        entry_spec("tests/security_analysis/reduced_cases/dynamic_u256_shift"@, "dynamic_u256_shift"@, None),
        entry_spec("tests/security_analysis/reduced_cases/neq_denominator_guard"@, "neq_denominator_guard"@, None),
        entry_spec("tests/security_analysis/reduced_cases/weak_denominator_warning"@, "weak_denominator_warning"@, Some(RiskKind::ReachableWeakDenominator)),
        entry_spec("tests/security_analysis/reduced_cases/rounding_mismatch"@, "rounding_mismatch"@, Some(RiskKind::ReachableRoundingMismatch)),
        entry_spec("tests/security_analysis/reduced_cases/masked_cast_safe"@, "masked_cast_safe"@, None),
    ]
}

pub fn corpus() -> (r: Vec<CorpusEntry>)
    ensures
        views(r@) == corpus_spec(),
{
    let r: Vec<CorpusEntry> = vec![
        entry("tests/security_analysis/real_cases/cetus_vulnerable", "cetus_vulnerable", Some(RiskKind::FakeCheckedShift)),
        entry("tests/security_analysis/real_cases/cetus_patched", "cetus_patched", None),
        entry("tests/security_analysis/real_cases/integer_mate_cloned_vulnerable", "integer_mate_cloned_vulnerable", Some(RiskKind::FakeCheckedShift)),
        entry("tests/security_analysis/real_cases/clmm_denominator_vulnerable", "clmm_denominator_vulnerable", Some(RiskKind::ReachableWeakDenominator)),
        entry("tests/security_analysis/real_cases/clmm_denominator_patched", "clmm_denominator_patched", None),
        entry("tests/security_analysis/reduced_cases/unsafe_direct", "unsafe_direct", Some(RiskKind::ReachableShiftTruncation)),
        entry("tests/security_analysis/reduced_cases/safe_guards", "safe_guards", None),
        entry("tests/security_analysis/reduced_cases/helper_and_cast", "helper_and_cast", Some(RiskKind::FakeCheckedShift)),
        entry("tests/security_analysis/reduced_cases/invalid_shift", "invalid_shift", Some(RiskKind::InvalidShiftCount)),
        entry("tests/security_analysis/reduced_cases/lossy_right_shift", "lossy_right_shift", Some(RiskKind::ReachableLossyRightShift)),
        entry("tests/security_analysis/reduced_cases/safe_right_shift", "safe_right_shift", None),
        entry("tests/security_analysis/reduced_cases/dynamic_u256_shift", "dynamic_u256_shift", None),
        entry("tests/security_analysis/reduced_cases/neq_denominator_guard", "neq_denominator_guard", None),
        entry("tests/security_analysis/reduced_cases/weak_denominator_warning", "weak_denominator_warning", Some(RiskKind::ReachableWeakDenominator)),
        entry("tests/security_analysis/reduced_cases/rounding_mismatch", "rounding_mismatch", Some(RiskKind::ReachableRoundingMismatch)),
        entry("tests/security_analysis/reduced_cases/masked_cast_safe", "masked_cast_safe", None),
    ];
    assert(views(r@) =~= corpus_spec());
    r
}

/// How the analyzer did on a package.
#[derive(Clone, Debug, PartialEq, Eq)]
pub struct EntryResult {
    pub label: String,
    pub total_findings: usize,
    pub expected_kind: Option<RiskKind>,
    pub tp: usize,
    pub fp: usize,
    pub fn_count: usize,
    pub elapsed_ms: u128,
    pub error: Option<String>,
}

#[verifier::ext_equal]
pub struct EntryResultView {
    pub label: Seq<char>,
    pub total_findings: nat,
    pub expected_kind: Option<RiskKind>,
    pub tp: nat,
    pub fp: nat,
    pub fn_count: nat,
    pub elapsed_ms: nat,
    pub error: Option<Seq<char>>,
}

impl View for EntryResult {
    type V = EntryResultView;

    open spec fn view(&self) -> EntryResultView {
        EntryResultView {
            label: self.label@,
            total_findings: self.total_findings as nat,
            expected_kind: self.expected_kind,
            tp: self.tp as nat,
            fp: self.fp as nat,
            fn_count: self.fn_count as nat,
            elapsed_ms: self.elapsed_ms as nat,
            error: opt_view(self.error),
        }
    }
}

/// How many of the findings are of this kind.
pub open spec fn count_of_kind(findings: Seq<SecurityFindingView>, kind: RiskKind) -> nat {
    findings.filter(|finding: SecurityFindingView| finding.kind == kind).len()
}

fn count_kind(findings: &Vec<SecurityFinding>, kind: RiskKind) -> (r: usize)
    ensures
        r == count_of_kind(views(findings@), kind),
        r <= findings@.len(),
{
    let ghost all = views(findings@);
    let ghost wanted = |finding: SecurityFindingView| finding.kind == kind;
    reveal(Seq::filter);
    let mut r: usize = 0;
    let mut i: usize = 0;
    while i < findings.len()
        invariant
            i <= findings@.len(),
            r <= i,
            all == views(findings@),
            wanted == (|finding: SecurityFindingView| finding.kind == kind),
            r == all.take(i as int).filter(wanted).len(),
        decreases findings@.len() - i,
    {
        proof {
            reveal(Seq::filter);
            assert(all.take(i + 1).drop_last() =~= all.take(i as int));
            assert(all.take(i + 1).last() == all[i as int]);
        }
        if findings[i].kind == kind {
            r = r + 1;
        }
        i = i + 1;
    }
    assert(all.take(i as int) =~= all);
    r
}

/// The score of a package. Every finding in a safe package is a false positive. In one with a
/// risk, the findings of its kind are true positives and the others false ones, and each that is
/// short of the expected number is a false negative. An analysis that failed scores nothing.
pub open spec fn score_spec(
    entry: CorpusEntryView,
    elapsed_ms: nat,
    outcome: Result<Seq<SecurityFindingView>, Seq<char>>,
) -> EntryResultView {
    let blank = EntryResultView {
        label: entry.label,
        total_findings: 0,
        expected_kind: entry.expected_kind,
        tp: 0,
        fp: 0,
        fn_count: 0,
        elapsed_ms,
        error: None,
    };
    match outcome {
        Err(error) => EntryResultView { error: Some(error), ..blank },
        Ok(findings) => match entry.expected_kind {
            None => EntryResultView {
                total_findings: findings.len(),
                fp: findings.len(),
                ..blank
            },
            Some(kind) => {
                let matching = count_of_kind(findings, kind);
                EntryResultView {
                    total_findings: findings.len(),
                    tp: matching,
                    fp: (findings.len() - matching) as nat,
                    fn_count: if matching < entry.min_expected {
                        (entry.min_expected - matching) as nat
                    } else {
                        0
                    },
                    ..blank
                }
            },
        },
    }
}

/// The findings or the error of an analysis.
pub open spec fn outcome_view(outcome: Result<Vec<SecurityFinding>, String>) -> Result<
    Seq<SecurityFindingView>,
    Seq<char>,
> {
    match outcome {
        Ok(findings) => Ok(views(findings@)),
        Err(error) => Err(error@),
    }
}

pub fn score(
    entry: &CorpusEntry,
    elapsed_ms: u128,
    outcome: Result<Vec<SecurityFinding>, String>,
) -> (r: EntryResult)
    ensures
        r@ == score_spec(entry@, elapsed_ms as nat, outcome_view(outcome)),
{
    let mut r = EntryResult {
        label: entry.label.to_owned(),
        total_findings: 0,
        expected_kind: entry.expected_kind,
        tp: 0,
        fp: 0,
        fn_count: 0,
        elapsed_ms,
        error: None,
    };
    match outcome {
        Err(error) => {
            r.error = Some(error);
        },
        Ok(findings) => {
            r.total_findings = findings.len();
            match entry.expected_kind {
                None => {
                    r.fp = findings.len();
                },
                Some(kind) => {
                    let matching: usize = count_kind(&findings, kind);
                    r.tp = matching;
                    r.fp = findings.len() - matching;
                    if matching < entry.min_expected {
                        r.fn_count = entry.min_expected - matching;
                    }
                },
            }
        },
    }
    r
}

/// The score of the whole benchmark.
#[derive(Clone, Copy, Debug, PartialEq, Eq)]
pub struct Totals {
    /// Safe packages that were analyzed.
    pub safe: usize,
    /// Packages with a risk that were analyzed.
    pub vulnerable: usize,
    pub fp: u128,
    pub tp: u128,
    pub fn_count: u128,
    pub errors: usize,
    /// Safe packages with a false positive.
    pub safe_with_fp: usize,
    /// Packages with a risk that was found.
    pub detected: usize,
}

#[verifier::ext_equal]
pub struct TotalsView {
    pub safe: nat,
    pub vulnerable: nat,
    pub fp: nat,
    pub tp: nat,
    pub fn_count: nat,
    pub errors: nat,
    pub safe_with_fp: nat,
    pub detected: nat,
}

impl View for Totals {
    type V = TotalsView;

    open spec fn view(&self) -> TotalsView {
        TotalsView {
            safe: self.safe as nat,
            vulnerable: self.vulnerable as nat,
            fp: self.fp as nat,
            tp: self.tp as nat,
            fn_count: self.fn_count as nat,
            errors: self.errors as nat,
            safe_with_fp: self.safe_with_fp as nat,
            detected: self.detected as nat,
        }
    }
}

/// One where `b` holds, zero elsewhere.
pub open spec fn one_if(b: bool) -> nat {
    if b {
        1
    } else {
        0
    }
}

/// The totals of the results.
pub open spec fn totals_spec(results: Seq<EntryResultView>) -> TotalsView
    decreases results.len(),
{
    if results.len() == 0 {
        TotalsView {
            safe: 0,
            vulnerable: 0,
            fp: 0,
            tp: 0,
            fn_count: 0,
            errors: 0,
            safe_with_fp: 0,
            detected: 0,
        }
    } else {
        let t = totals_spec(results.drop_last());
        let last = results.last();
        TotalsView {
            safe: t.safe + one_if(last.expected_kind is None && last.error is None),
            vulnerable: t.vulnerable + one_if(last.expected_kind is Some && last.error is None),
            fp: t.fp + last.fp,
            tp: t.tp + last.tp,
            fn_count: t.fn_count + last.fn_count,
            errors: t.errors + one_if(last.error is Some),
            safe_with_fp: t.safe_with_fp + one_if(last.expected_kind is None && last.fp > 0),
            detected: t.detected + one_if(last.expected_kind is Some && last.tp > 0),
        }
    }
}

fn count_if(b: bool) -> (r: usize)
    ensures
        r == one_if(b),
{
    if b {
        1
    } else {
        0
    }
}

pub fn totals(results: &Vec<EntryResult>) -> (r: Totals)
    ensures
        r@ == totals_spec(views(results@)),
{
    let ghost all = views(results@);
    let mut t = Totals {
        safe: 0,
        vulnerable: 0,
        fp: 0,
        tp: 0,
        fn_count: 0,
        errors: 0,
        safe_with_fp: 0,
        detected: 0,
    };
    let mut i: usize = 0;
    while i < results.len()
        invariant
            i <= results@.len(),
            all == views(results@),
            t@ == totals_spec(all.take(i as int)),
            t.safe <= i,
            t.vulnerable <= i,
            t.errors <= i,
            t.safe_with_fp <= i,
            t.detected <= i,
            t.fp <= i * 0xffff_ffff_ffff_ffff,
            t.tp <= i * 0xffff_ffff_ffff_ffff,
            t.fn_count <= i * 0xffff_ffff_ffff_ffff,
        decreases results@.len() - i,
    {
        let result: &EntryResult = &results[i];
        assert(all.take(i + 1).drop_last() =~= all.take(i as int));
        assert(all.take(i + 1).last() == result@);
        let safe: bool = result.expected_kind.is_none();
        let failed: bool = result.error.is_some();
        t.safe = t.safe + count_if(safe && !failed);
        t.vulnerable = t.vulnerable + count_if(!safe && !failed);
        t.fp = t.fp + result.fp as u128;
        t.tp = t.tp + result.tp as u128;
        t.fn_count = t.fn_count + result.fn_count as u128;
        t.errors = t.errors + count_if(failed);
        t.safe_with_fp = t.safe_with_fp + count_if(safe && result.fp > 0);
        t.detected = t.detected + count_if(!safe && result.tp > 0);
        i = i + 1;
    }
    assert(all.take(i as int) =~= all);
    t
}

/// Whether the benchmark failed: a risk was missed, or a package could not be analyzed.
pub fn failed(totals: &Totals) -> (r: bool)
    ensures
        r == (totals@.fn_count > 0 || totals@.errors > 0),
{
    totals.fn_count > 0 || totals.errors > 0
}

/// The verdict on a package that was analyzed.
pub open spec fn verdict_spec(result: EntryResultView) -> Seq<char> {
    if result.fn_count > 0 {
        "MISS"@
    } else if result.fp > 0 {
        "FP"@
    } else {
        "OK"@
    }
}

pub fn verdict(result: &EntryResult) -> (r: &'static str)
    ensures
        r@ == verdict_spec(result@),
{
    if result.fn_count > 0 {
        "MISS"
    } else if result.fp > 0 {
        "FP"
    } else {
        "OK"
    }
}

/// The name of a kind of risk.
pub open spec fn kind_name_spec(kind: RiskKind) -> Seq<char> {
    match kind {
        RiskKind::ReachableShiftTruncation => "ReachableShiftTruncation"@,
        RiskKind::FakeCheckedShift => "FakeCheckedShift"@,
        RiskKind::ReachableNarrowCast => "ReachableNarrowCast"@,
        RiskKind::InvalidShiftCount => "InvalidShiftCount"@,
        RiskKind::ReachableLossyRightShift => "ReachableLossyRightShift"@,
        RiskKind::DynamicU256Shift => "DynamicU256Shift"@,
        RiskKind::SuspiciousBitwiseArithmetic => "SuspiciousBitwiseArithmetic"@,
        RiskKind::ReachableWeakDenominator => "ReachableWeakDenominator"@,
        RiskKind::ReachableRoundingMismatch => "ReachableRoundingMismatch"@,
    }
}

pub fn kind_name(kind: RiskKind) -> (r: &'static str)
    ensures
        r@ == kind_name_spec(kind),
{
    match kind {
        RiskKind::ReachableShiftTruncation => "ReachableShiftTruncation",
        RiskKind::FakeCheckedShift => "FakeCheckedShift",
        RiskKind::ReachableNarrowCast => "ReachableNarrowCast",
        RiskKind::InvalidShiftCount => "InvalidShiftCount",
        RiskKind::ReachableLossyRightShift => "ReachableLossyRightShift",
        RiskKind::DynamicU256Shift => "DynamicU256Shift",
        RiskKind::SuspiciousBitwiseArithmetic => "SuspiciousBitwiseArithmetic",
        RiskKind::ReachableWeakDenominator => "ReachableWeakDenominator",
        RiskKind::ReachableRoundingMismatch => "ReachableRoundingMismatch",
    }
}

/// What is expected of a package, in words.
pub open spec fn expected_label_spec(expected_kind: Option<RiskKind>) -> Seq<char> {
    match expected_kind {
        None => "0 (safe)"@,
        Some(kind) => "\u{2265}1 "@ + kind_name_spec(kind),
    }
}

pub fn expected_label(expected_kind: Option<RiskKind>) -> (r: String)
    ensures
        r@ == expected_label_spec(expected_kind),
{
    match expected_kind {
        None => "0 (safe)".to_owned(),
        Some(kind) => {
            let mut s: String = "\u{2265}1 ".to_owned();
            s.append(kind_name(kind));
            s
        },
    }
}

/// As many spaces as `text` is short of `width`.
pub open spec fn padding(text: Seq<char>, width: nat) -> Seq<char> {
    Seq::new(
        if text.len() < width {
            (width - text.len()) as nat
        } else {
            0
        },
        |i: int| ' ',
    )
}

fn padding_for(text: &str, width: usize) -> (r: String)
    ensures
        r@ == padding(text@, width as nat),
{
    let cs: Vec<char> = chars_of(text);
    let mut s: String = String::new();
    let mut i: usize = cs.len();
    while i < width
        invariant
            cs@ == text@,
            cs@.len() <= i,
            i <= width || i == cs@.len(),
            s@.len() == i - cs@.len(),
            forall|k: int| 0 <= k < s@.len() ==> s@[k] == ' ',
        decreases width - i,
    {
        s.push(' ');
        i = i + 1;
    }
    assert(s@ =~= padding(text@, width as nat));
    s
}

/// `text`, filled up with spaces at its end.
pub open spec fn left_aligned(text: Seq<char>, width: nat) -> Seq<char> {
    text + padding(text, width)
}

/// `text`, filled up with spaces at its start.
pub open spec fn right_aligned(text: Seq<char>, width: nat) -> Seq<char> {
    padding(text, width) + text
}

pub fn align_left(text: &str, width: usize) -> (r: String)
    ensures
        r@ == left_aligned(text@, width as nat),
{
    let mut s: String = text.to_owned();
    s.append(padding_for(text, width).as_str());
    s
}

pub fn align_right(text: &str, width: usize) -> (r: String)
    ensures
        r@ == right_aligned(text@, width as nat),
{
    let mut s: String = padding_for(text, width);
    s.append(text);
    s
}

fn number_cell(n: u128, width: usize) -> (r: String)
    ensures
        r@ == right_aligned(decimal(n as nat), width as nat),
{
    let text: String = write_u128(n);
    align_right(text.as_str(), width)
}

/// The row of the table for a package that was analyzed.
pub open spec fn score_line_spec(result: EntryResultView) -> Seq<char> {
    left_aligned(result.label, 35) + "  "@ + right_aligned(decimal(result.total_findings), 8)
        + "  "@ + right_aligned(decimal(result.tp), 4) + "  "@ + right_aligned(
        decimal(result.fp),
        4,
    ) + "  "@ + right_aligned(decimal(result.fn_count), 4) + "  "@ + right_aligned(
        decimal(result.elapsed_ms),
        7,
    ) + "  "@ + verdict_spec(result) + " ["@ + expected_label_spec(result.expected_kind) + "]"@
}

fn score_line(result: &EntryResult) -> (r: String)
    ensures
        r@ == score_line_spec(result@),
{
    let mut s: String = align_left(result.label.as_str(), 35);
    s.append("  ");
    s.append(number_cell(result.total_findings as u128, 8).as_str());
    s.append("  ");
    s.append(number_cell(result.tp as u128, 4).as_str());
    s.append("  ");
    s.append(number_cell(result.fp as u128, 4).as_str());
    s.append("  ");
    s.append(number_cell(result.fn_count as u128, 4).as_str());
    s.append("  ");
    s.append(number_cell(result.elapsed_ms, 7).as_str());
    s.append("  ");
    s.append(verdict(result));
    s.append(" [");
    s.append(expected_label(result.expected_kind).as_str());
    s.append("]");
    s
}

/// Whether an error can be cut after sixty bytes: it has no more, or a character ends there.
pub open spec fn can_be_cut(error: Seq<char>) -> bool {
    encode_utf8(error).len() > 60 ==> is_char_boundary(encode_utf8(error), 60)
}

/// The first sixty bytes of an error.
pub open spec fn cut(error: Seq<char>) -> Seq<char> {
    if encode_utf8(error).len() > 60 {
        decode_utf8(encode_utf8(error).subrange(0, 60))
    } else {
        error
    }
}

/// The row of the table for a package: its score, or the start of the error.
pub open spec fn line_spec(result: EntryResultView) -> Seq<char> {
    match result.error {
        Some(error) => left_aligned(result.label, 35) + "  ERROR: "@ + cut(error),
        None => score_line_spec(result),
    }
}

pub fn line(result: &EntryResult) -> (r: String)
    requires
        result.error matches Some(error) ==> can_be_cut(error@),
    ensures
        r@ == line_spec(result@),
{
    match &result.error {
        Some(error) => {
            let mut s: String = align_left(result.label.as_str(), 35);
            s.append("  ERROR: ");
            let text: &str = error.as_str();
            let bytes: &[u8] = text.as_bytes();
            if bytes.len() > 60 {
                let parts: (&str, &str) = text.split_at(60);
                proof {
                    encode_utf8_decode_utf8(parts.0@);
                }
                s.append(parts.0);
            } else {
                s.append(text);
            }
            s
        },
        None => score_line(result),
    }
}

/// The findings of an analyzed package are split between true and false positives.
pub proof fn every_finding_is_scored(
    entry: CorpusEntryView,
    elapsed_ms: nat,
    findings: Seq<SecurityFindingView>,
)
    ensures
        ({
            let result = score_spec(entry, elapsed_ms, Ok(findings));
            result.tp + result.fp == findings.len() && result.total_findings == findings.len()
        }),
        ({
            let result = score_spec(entry, elapsed_ms, Ok(findings));
            entry.expected_kind is Some ==> (result.fn_count == 0 <==> result.tp
                >= entry.min_expected)
        }),
{
    if let Some(kind) = entry.expected_kind {
        findings.lemma_filter_len(|finding: SecurityFindingView| finding.kind == kind);
    }
}

/// The benchmark fails exactly where some package has a risk that was missed, or an error.
pub proof fn failing_names_a_package(results: Seq<EntryResultView>)
    ensures
        totals_spec(results).fn_count > 0 || totals_spec(results).errors > 0 <==> exists|i: int|
            0 <= i < results.len() && ((#[trigger] results[i]).fn_count > 0 || results[i].error
                is Some),
    decreases results.len(),
{
    if results.len() > 0 {
        let front = results.drop_last();
        failing_names_a_package(front);
        if totals_spec(front).fn_count > 0 || totals_spec(front).errors > 0 {
            let i = choose|i: int|
                0 <= i < front.len() && ((#[trigger] front[i]).fn_count > 0 || front[i].error
                    is Some);
            assert(results[i] == front[i]);
        }
        assert(results[results.len() - 1] == results.last());
        if exists|i: int|
            0 <= i < results.len() && ((#[trigger] results[i]).fn_count > 0 || results[i].error
                is Some) {
            let i = choose|i: int|
                0 <= i < results.len() && ((#[trigger] results[i]).fn_count > 0 || results[i].error
                    is Some);
            if i < front.len() {
                assert(front[i] == results[i]);
            }
        }
    }
}

} // verus!
