//! Evaluation: how the analyzer is scored on packages whose risks are known.

use crate::benchmark::{
    corpus_spec, count_of_kind, cut, expected_label_spec, failed, kind_name_spec, left_aligned,
    line_spec, right_aligned, score_spec, totals_spec, verdict_spec, CorpusEntryView,
    EntryResultView, Totals,
};
use crate::corpus::{
    after_wait, checkout_spec, distinct_rules, expectation_cell_spec, judge_spec, lemma_rules_found,
    options_spec, rules_cell_spec, rules_found, sanitize_label, short_rev_spec, summarize_spec,
    table_lines_spec, CorpusPackage, CorpusResultView, CorpusSummary, CorpusSummaryView, Wait,
};
use crate::domain::risk::RiskKind;
use crate::model::views;
use crate::options::{AnalysisScope, DependencyMode, PackageAnalysisOptions, SecurityMathMode};
use crate::report::SecurityFindingView;
use crate::text::{decimal, in_order, joined, sorted_texts, sorting_orders_the_same_texts};
use vstd::prelude::*;
use vstd::utf8::{decode_utf8, encode_utf8, is_char_boundary};

verus! {

/// The number of findings of a kind, counted one by one.
pub open spec fn number_of_kind(findings: Seq<SecurityFindingView>, kind: RiskKind) -> nat
    decreases findings.len(),
{
    if findings.len() == 0 {
        0
    } else {
        number_of_kind(findings.drop_last(), kind) + if findings.last().kind == kind {
            1nat
        } else {
            0nat
        }
    }
}

proof fn lemma_count(findings: Seq<SecurityFindingView>, kind: RiskKind)
    ensures
        count_of_kind(findings, kind) == number_of_kind(findings, kind),
    decreases findings.len(),
{
    reveal(Seq::filter);
    if findings.len() > 0 {
        lemma_count(findings.drop_last(), kind);
    }
}

/// Of a package with a known risk, findings of its kind are right, all others are wrong, and what is
/// short of the expected number is missed. Of a safe package every finding is wrong. An analysis that
/// failed counts as neither, and its error is kept.
pub proof fn packages_are_scored_by_kind(
    entry: CorpusEntryView,
    elapsed_ms: nat,
    findings: Seq<SecurityFindingView>,
    error: Seq<char>,
)
    ensures
        ({
            let result = score_spec(entry, elapsed_ms, Ok(findings));
            let lost = score_spec(entry, elapsed_ms, Err(error));
            &&& result.label == entry.label && result.elapsed_ms == elapsed_ms
            &&& result.expected_kind == entry.expected_kind
            &&& result.total_findings == findings.len()
            &&& result.error is None
            &&& entry.expected_kind is None ==> result.tp == 0 && result.fp == findings.len()
                && result.fn_count == 0
            &&& entry.expected_kind is Some ==> {
                let right = number_of_kind(findings, entry.expected_kind->0);
                &&& result.tp == right
                &&& result.fp + right == findings.len()
                &&& right >= entry.min_expected ==> result.fn_count == 0
                &&& right < entry.min_expected ==> result.fn_count + right == entry.min_expected
            }
            &&& lost.error == Some(error)
            &&& lost.tp == 0 && lost.fp == 0 && lost.fn_count == 0 && lost.total_findings == 0
            &&& lost.label == entry.label
        }),
{
    if let Some(kind) = entry.expected_kind {
        lemma_count(findings, kind);
        findings.lemma_filter_len(|finding: SecurityFindingView| finding.kind == kind);
    }
}

/// Adding one more result to the totals adds its numbers, and counts it where it belongs.
pub proof fn totals_add_up(results: Seq<EntryResultView>, last: EntryResultView)
    ensures
        ({
            let before = totals_spec(results);
            let after = totals_spec(results.push(last));
            let safe = last.expected_kind is None;
            let ok = last.error is None;
            &&& after.tp == before.tp + last.tp
            &&& after.fp == before.fp + last.fp
            &&& after.fn_count == before.fn_count + last.fn_count
            &&& after.safe == before.safe + if safe && ok {
                1nat
            } else {
                0nat
            }
            &&& after.vulnerable == before.vulnerable + if !safe && ok {
                1nat
            } else {
                0nat
            }
            &&& after.errors == before.errors + if ok {
                0nat
            } else {
                1nat
            }
            &&& after.safe_with_fp == before.safe_with_fp + if safe && last.fp > 0 {
                1nat
            } else {
                0nat
            }
            &&& after.detected == before.detected + if !safe && last.tp > 0 {
                1nat
            } else {
                0nat
            }
        }),
        totals_spec(Seq::empty()).tp == 0 && totals_spec(Seq::empty()).fp == 0 && totals_spec(
            Seq::empty(),
        ).fn_count == 0 && totals_spec(Seq::empty()).safe == 0 && totals_spec(
            Seq::empty(),
        ).vulnerable == 0 && totals_spec(Seq::empty()).errors == 0 && totals_spec(
            Seq::empty(),
        ).safe_with_fp == 0 && totals_spec(Seq::empty()).detected == 0,
{
    assert(results.push(last).drop_last() =~= results);
}

/// The benchmark fails exactly where a risk was missed or a package could not be analyzed.
pub proof fn missed_risks_fail_the_benchmark(totals: &Totals, r: bool)
    requires
        call_ensures(failed, (totals,), r),
    ensures
        r <==> totals.fn_count > 0 || totals.errors > 0,
{
}

/// A package that missed a risk is a miss, whatever else; else one with a wrong finding is a false
/// positive; else all is well.
pub proof fn verdicts_name_the_worst(result: EntryResultView)
    ensures
        result.fn_count > 0 ==> verdict_spec(result) == "MISS"@,
        result.fn_count == 0 && result.fp > 0 ==> verdict_spec(result) == "FP"@,
        result.fn_count == 0 && result.fp == 0 ==> verdict_spec(result) == "OK"@,
{
}

/// Kinds of risk are called by their names.
pub proof fn kinds_are_called_by_name(kind: RiskKind)
    ensures
        kind is ReachableShiftTruncation ==> kind_name_spec(kind) == "ReachableShiftTruncation"@,
        kind is FakeCheckedShift ==> kind_name_spec(kind) == "FakeCheckedShift"@,
        kind is ReachableNarrowCast ==> kind_name_spec(kind) == "ReachableNarrowCast"@,
        kind is InvalidShiftCount ==> kind_name_spec(kind) == "InvalidShiftCount"@,
        kind is ReachableLossyRightShift ==> kind_name_spec(kind) == "ReachableLossyRightShift"@,
        kind is DynamicU256Shift ==> kind_name_spec(kind) == "DynamicU256Shift"@,
        kind is SuspiciousBitwiseArithmetic ==> kind_name_spec(kind)
            == "SuspiciousBitwiseArithmetic"@,
        kind is ReachableWeakDenominator ==> kind_name_spec(kind) == "ReachableWeakDenominator"@,
        kind is ReachableRoundingMismatch ==> kind_name_spec(kind) == "ReachableRoundingMismatch"@,
        expected_label_spec(None) == "0 (safe)"@,
        expected_label_spec(Some(kind)) == "\u{2265}1 "@ + kind_name_spec(kind),
{
}

/// Whether a text fills a column: it is there whole, at one end, and the rest is blank.
pub open spec fn fills(cell: Seq<char>, text: Seq<char>, width: nat, at: int) -> bool {
    &&& cell.len() == if text.len() < width {
        width
    } else {
        text.len()
    }
    &&& 0 <= at <= cell.len() - text.len()
    &&& forall|i: int| 0 <= i < text.len() ==> #[trigger] text[i] == cell[at + i]
    &&& forall|i: int|
        0 <= i < cell.len() && !(at <= i < at + text.len()) ==> #[trigger] cell[i] == ' '
}

/// Columns are filled up with blanks: behind texts, and before numbers.
pub proof fn columns_are_filled_up(text: Seq<char>, width: nat)
    ensures
        fills(left_aligned(text, width), text, width, 0),
        fills(
            right_aligned(text, width),
            text,
            width,
            right_aligned(text, width).len() - text.len(),
        ),
{
}

/// The row of a package that was analyzed holds its numbers, each in its column, and the verdict; the
/// row of one that was not holds the start of the error.
pub proof fn rows_hold_the_score(result: EntryResultView)
    ensures
        result.error is None ==> line_spec(result) == left_aligned(result.label, 35) + "  "@
            + right_aligned(decimal(result.total_findings), 8) + "  "@ + right_aligned(
            decimal(result.tp),
            4,
        ) + "  "@ + right_aligned(decimal(result.fp), 4) + "  "@ + right_aligned(
            decimal(result.fn_count),
            4,
        ) + "  "@ + right_aligned(decimal(result.elapsed_ms), 7) + "  "@ + verdict_spec(result)
            + " ["@ + expected_label_spec(result.expected_kind) + "]"@,
        result.error is Some ==> line_spec(result) == left_aligned(result.label, 35) + "  ERROR: "@
            + cut(result.error->0),
{
}

/// An error is shown up to sixty bytes.
pub proof fn long_errors_are_cut(error: Seq<char>)
    ensures
        encode_utf8(error).len() <= 60 ==> cut(error) == error,
        encode_utf8(error).len() > 60 ==> cut(error) == decode_utf8(
            encode_utf8(error).subrange(0, 60),
        ),
{
}

/// A revision is shown by its first seven bytes, or whole where it has fewer.
pub proof fn revisions_are_shortened(rev: Seq<char>)
    ensures
        is_char_boundary(encode_utf8(rev), 7) ==> short_rev_spec(rev) == decode_utf8(
            encode_utf8(rev).subrange(0, 7),
        ),
        !is_char_boundary(encode_utf8(rev), 7) ==> short_rev_spec(rev) == rev,
{
}

/// At least one finding is expected of a package with a risk, and none of a safe one; a package is
/// called by the last part of its path.
pub proof fn entries_expect_what_they_should(i: int)
    requires
        0 <= i < corpus_spec().len(),
    ensures
        corpus_spec().len() == 16,
        corpus_spec()[i].expected_kind is Some ==> corpus_spec()[i].min_expected == 1,
        corpus_spec()[i].expected_kind is None ==> corpus_spec()[i].min_expected == 0,
{
}

/// Whether a package stands in the benchmark at a place, under a path and a label, and with the risk
/// that it is known for.
pub open spec fn is_package(
    i: int,
    path: Seq<char>,
    label: Seq<char>,
    kind: Option<RiskKind>,
) -> bool {
    let entry = corpus_spec()[i];
    entry.path == path && entry.label == label && entry.expected_kind == kind
}

/// The packages of the benchmark, one by one.
pub proof fn packages_are_known_for_their_risk()
    ensures
        is_package(
            0,
            "tests/security_analysis/real_cases/cetus_vulnerable"@,
            "cetus_vulnerable"@,
            Some(RiskKind::FakeCheckedShift),
        ),
        is_package(1, "tests/security_analysis/real_cases/cetus_patched"@, "cetus_patched"@, None),
        is_package(
            2,
            "tests/security_analysis/real_cases/integer_mate_cloned_vulnerable"@,
            "integer_mate_cloned_vulnerable"@,
            Some(RiskKind::FakeCheckedShift),
        ),
        is_package(
            3,
            "tests/security_analysis/real_cases/clmm_denominator_vulnerable"@,
            "clmm_denominator_vulnerable"@,
            Some(RiskKind::ReachableWeakDenominator),
        ),
        is_package(
            4,
            "tests/security_analysis/real_cases/clmm_denominator_patched"@,
            "clmm_denominator_patched"@,
            None,
        ),
        is_package(
            5,
            "tests/security_analysis/reduced_cases/unsafe_direct"@,
            "unsafe_direct"@,
            Some(RiskKind::ReachableShiftTruncation),
        ),
        is_package(6, "tests/security_analysis/reduced_cases/safe_guards"@, "safe_guards"@, None),
        is_package(
            7,
            "tests/security_analysis/reduced_cases/helper_and_cast"@,
            "helper_and_cast"@,
            Some(RiskKind::FakeCheckedShift),
        ),
        is_package(
            8,
            "tests/security_analysis/reduced_cases/invalid_shift"@,
            "invalid_shift"@,
            Some(RiskKind::InvalidShiftCount),
        ),
        is_package(
            9,
            "tests/security_analysis/reduced_cases/lossy_right_shift"@,
            "lossy_right_shift"@,
            Some(RiskKind::ReachableLossyRightShift),
        ),
        is_package(
            10,
            "tests/security_analysis/reduced_cases/safe_right_shift"@,
            "safe_right_shift"@,
            None,
        ),
        is_package(
            11,
            "tests/security_analysis/reduced_cases/dynamic_u256_shift"@,
            "dynamic_u256_shift"@,
            None,
        ),
        is_package(
            12,
            "tests/security_analysis/reduced_cases/neq_denominator_guard"@,
            "neq_denominator_guard"@,
            None,
        ),
        is_package(
            13,
            "tests/security_analysis/reduced_cases/weak_denominator_warning"@,
            "weak_denominator_warning"@,
            Some(RiskKind::ReachableWeakDenominator),
        ),
        is_package(
            14,
            "tests/security_analysis/reduced_cases/rounding_mismatch"@,
            "rounding_mismatch"@,
            Some(RiskKind::ReachableRoundingMismatch),
        ),
        is_package(
            15,
            "tests/security_analysis/reduced_cases/masked_cast_safe"@,
            "masked_cast_safe"@,
            None,
        ),
{
}

/// Whether a character may stand in the name of a directory.
pub open spec fn is_plain(c: char) -> bool {
    'a' <= c && c <= 'z' || 'A' <= c && c <= 'Z' || '0' <= c && c <= '9'
}

/// A label becomes a name of the same length: plain letters stay, all others become an underscore.
pub proof fn labels_become_names(label: &str, r: String, i: int)
    requires
        call_ensures(sanitize_label, (label,), r),
        0 <= i < label@.len(),
    ensures
        r@.len() == label@.len(),
        is_plain(label@[i]) ==> r@[i] == label@[i],
        !is_plain(label@[i]) ==> r@[i] == '_',
{
}

/// A working copy is fetched and checked out at the revision, and cloned first where it is not
/// there; only the clone runs outside of it.
pub proof fn working_copies_are_brought_to_the_revision(
    dir: Seq<char>,
    git: Seq<char>,
    rev: Seq<char>,
)
    ensures
        ({
            let there = checkout_spec(true, dir, git, rev);
            let not_there = checkout_spec(false, dir, git, rev);
            &&& there.len() == 2
            &&& not_there.len() == 3
            &&& not_there.skip(1) == there
            &&& !not_there[0].in_repo
            &&& not_there[0].arguments == seq!["clone"@, "--no-checkout"@, git, dir]
            &&& there[0].in_repo && there[1].in_repo
            &&& there[0].arguments == seq!["fetch"@, "--depth"@, "1"@, "origin"@, rev]
            &&& there[1].arguments == seq!["checkout"@, "--force"@, rev]
        }),
{
    assert(checkout_spec(false, dir, git, rev).skip(1) =~= checkout_spec(true, dir, git, rev));
}

/// What an entry does not say about how it is analyzed is as by default.
pub proof fn entries_are_analyzed_by_default(
    mode: Option<DependencyMode>,
    scope: Option<AnalysisScope>,
    math: Option<SecurityMathMode>,
    timeout: Option<u64>,
)
    ensures
        ({
            let options = options_spec(mode, scope, math, timeout);
            let plain = PackageAnalysisOptions::default_spec();
            &&& mode is Some ==> options.dependency_mode == mode->0
            &&& mode is None ==> options.dependency_mode is Auto
            &&& scope is Some ==> options.analysis_scope == scope->0
            &&& scope is None ==> options.analysis_scope is RootAndDirectDeps
            &&& math is Some ==> options.security_math_mode == math->0
            &&& math is None ==> options.security_math_mode is Fast
            &&& timeout is Some ==> options.security_smt_timeout_ms == timeout->0
            &&& timeout is None ==> options.security_smt_timeout_ms == 250
            &&& options.reuse_build_cache
            &&& plain.dependency_mode is Auto
            &&& plain.analysis_scope is RootAndDirectDeps
            &&& plain.security_math_mode is Fast
            &&& plain.security_smt_timeout_ms == 250
            &&& plain.reuse_build_cache
        }),
{
}

proof fn lemma_distinct(findings: Seq<SecurityFindingView>, n: nat, rule: Seq<char>)
    requires
        n <= findings.len(),
    ensures
        distinct_rules(findings, n).contains(rule) <==> exists|i: int|
            0 <= i < n && (#[trigger] findings[i]).kind.rule_id_spec() == rule,
        distinct_rules(findings, n).no_duplicates(),
    decreases n,
{
    if n > 0 {
        let before = distinct_rules(findings, (n - 1) as nat);
        let all = distinct_rules(findings, n);
        let last = findings[n - 1].kind.rule_id_spec();
        lemma_distinct(findings, (n - 1) as nat, rule);
        if before.contains(rule) {
            let k = choose|k: int| 0 <= k < before.len() && before[k] == rule;
            assert(all[k] == rule);
        }
        if !before.contains(last) {
            assert(all[before.len() as int] == last);
            if all.contains(rule) && rule != last {
                let k = choose|k: int| 0 <= k < all.len() && all[k] == rule;
                assert(before[k] == rule);
            }
        }
        if last == rule {
            assert(findings[n - 1].kind.rule_id_spec() == rule);
        }
    }
}

proof fn lemma_sorted_contains(texts: Seq<Seq<char>>, text: Seq<char>)
    ensures
        sorted_texts(texts).contains(text) <==> texts.contains(text),
        sorted_texts(texts).len() == texts.len(),
{
    sorting_orders_the_same_texts(texts);
    broadcast use vstd::seq_lib::group_to_multiset_ensures;

    assert(sorted_texts(texts).to_multiset().contains(text) <==> texts.to_multiset().contains(text));
    assert(sorted_texts(texts).to_multiset().len() == texts.to_multiset().len());
}

/// A package is clean where nothing was found, and flagged otherwise; its rules are those of the
/// findings, in order.
pub proof fn summaries_name_the_rules(findings: Seq<SecurityFindingView>, rule: Seq<char>)
    ensures
        ({
            let summary = summarize_spec(findings);
            &&& findings.len() == 0 ==> summary.actual == "clean"@
            &&& findings.len() > 0 ==> summary.actual == "flagged"@
            &&& summary.finding_count == findings.len()
            &&& summary.rule_ids.contains(rule) <==> exists|i: int|
                0 <= i < findings.len() && (#[trigger] findings[i]).kind.rule_id_spec() == rule
            &&& in_order(summary.rule_ids)
        }),
{
    lemma_distinct(findings, findings.len(), rule);
    lemma_sorted_contains(distinct_rules(findings, findings.len()), rule);
    sorting_orders_the_same_texts(distinct_rules(findings, findings.len()));
}

/// A verdict lists the rules that must fire and did not, and those that must not and did.
pub proof fn verdicts_list_what_went_wrong(
    expected: Seq<char>,
    must_include: Seq<Seq<char>>,
    must_exclude: Seq<Seq<char>>,
    summary: CorpusSummaryView,
    rule: Seq<char>,
)
    ensures
        ({
            let verdict = judge_spec(expected, must_include, must_exclude, summary);
            &&& verdict.missing_rules.contains(rule) <==> must_include.contains(rule)
                && !summary.rule_ids.contains(rule)
            &&& verdict.unexpected_rules.contains(rule) <==> must_exclude.contains(rule)
                && summary.rule_ids.contains(rule)
            &&& expected == summary.actual && verdict.missing_rules.len() == 0
                && verdict.unexpected_rules.len() == 0 ==> verdict.expectation == "matched"@
            &&& expected != summary.actual || verdict.missing_rules.len() > 0
                || verdict.unexpected_rules.len() > 0 ==> verdict.expectation == "mismatch"@
        }),
{
    let missing = rules_found(must_include, summary.rule_ids, false, must_include.len());
    let unexpected = rules_found(must_exclude, summary.rule_ids, true, must_exclude.len());
    assert(must_include.take(must_include.len() as int) =~= must_include);
    assert(must_exclude.take(must_exclude.len() as int) =~= must_exclude);
    lemma_rules_found(must_include, summary.rule_ids, false, must_include.len(), rule);
    lemma_rules_found(must_exclude, summary.rule_ids, true, must_exclude.len(), rule);
    lemma_sorted_contains(missing, rule);
    lemma_sorted_contains(unexpected, rule);
}

/// What comes of a package is what is known of it, with the summary and the verdict; one that could
/// not be analyzed is left to manual review, with the error.
pub proof fn results_say_what_came_out(
    package: CorpusPackage,
    summary: CorpusSummary,
    error: String,
)
    ensures
        ({
            let good = package.result_spec(Ok(summary));
            let bad = package.result_spec(Err(error));
            &&& good.label == package.label@ && good.git == package.git@ && good.rev == package.rev@
                && good.package_subdir == package.package_subdir@ && good.expected
                == package.expected@
            &&& good.summary == summary@
            &&& good.error is None
            &&& package.must_include_rules is Some && package.must_exclude_rules is Some
                ==> good.verdict == judge_spec(
                package.expected@,
                views(package.must_include_rules->0@),
                views(package.must_exclude_rules->0@),
                summary@,
            )
            &&& package.must_include_rules is None ==> good.verdict.missing_rules.len() == 0
            &&& package.must_exclude_rules is None ==> good.verdict.unexpected_rules.len() == 0
            &&& bad.error == Some(error@)
            &&& bad.summary.actual == "manual-review"@
            &&& bad.verdict.expectation == "manual-review"@
            &&& bad.summary.finding_count == 0 && bad.summary.rule_ids.len() == 0
            &&& bad.verdict.missing_rules.len() == 0 && bad.verdict.unexpected_rules.len() == 0
        }),
{
    let no_rules: Seq<Seq<char>> = Seq::empty();
    lemma_sorted_contains(rules_found(no_rules, summary@.rule_ids, false, 0), Seq::empty());
    lemma_sorted_contains(rules_found(no_rules, summary@.rule_ids, true, 0), Seq::empty());
}

/// An analysis that does not end in time is left to manual review; one whose thread is gone is an
/// error; any other is what it came to.
pub proof fn waits_end_with_a_result(wait: Wait, r: Result<CorpusSummary, String>)
    requires
        call_ensures(after_wait, (wait,), r),
    ensures
        wait is Finished ==> r == wait->Finished_0,
        wait is TimedOut ==> r is Ok && r->Ok_0@.actual == "manual-review"@
            && r->Ok_0@.finding_count == 0 && r->Ok_0@.rule_ids.len() == 0,
        wait is Disconnected ==> r is Err && r->Err_0@
            == "analysis worker disconnected before returning a result"@,
{
}

/// A result takes one line of the table, and one more each for rules that are missing, for rules that
/// are unexpected, and for an error.
pub proof fn tables_hold_the_results(result: CorpusResultView)
    ensures
        ({
            let lines = table_lines_spec(result);
            let missing: int = if result.verdict.missing_rules.len() > 0 {
                1
            } else {
                0
            };
            let unexpected: int = if result.verdict.unexpected_rules.len() > 0 {
                1
            } else {
                0
            };
            let failed: int = if result.error is Some {
                1
            } else {
                0
            };
            &&& lines.len() == 1 + missing + unexpected + failed
            &&& lines[0] == result.label + " | "@ + result.expected + " | "@
                + result.summary.actual + " | "@ + expectation_cell_spec(
                result.verdict.expectation,
            ) + " | "@ + decimal(result.summary.finding_count) + " | "@ + rules_cell_spec(
                result.summary.rule_ids,
            ) + " | "@ + short_rev_spec(result.rev)
            &&& missing == 1 ==> lines[1] == "  missing rules: "@ + joined(
                result.verdict.missing_rules,
                ","@,
            )
            &&& unexpected == 1 ==> lines[1 + missing] == "  unexpected rules: "@ + joined(
                result.verdict.unexpected_rules,
                ","@,
            )
            &&& failed == 1 ==> lines.last() == "  error: "@ + result.error->0
            &&& expectation_cell_spec("matched"@) == "PASS"@
            &&& result.summary.rule_ids.len() == 0 ==> rules_cell_spec(result.summary.rule_ids)
                == "-"@
            &&& result.summary.rule_ids.len() > 0 ==> rules_cell_spec(result.summary.rule_ids)
                == joined(result.summary.rule_ids, ","@)
        }),
{
}

/// A verdict is shown as passed or failed; anything else is shown as it is.
pub proof fn verdicts_are_shown(expectation: Seq<char>)
    ensures
        expectation_cell_spec("mismatch"@) == "FAIL"@,
        expectation != "matched"@ && expectation != "mismatch"@ ==> expectation_cell_spec(
            expectation,
        ) == expectation,
{
    reveal_strlit("matched");
    reveal_strlit("mismatch");
    assert("matched"@.len() != "mismatch"@.len());
}

} // verus!
