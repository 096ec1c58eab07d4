//! The programs around the analysis: packages, the corpus, the table and the benchmark.

use sui_move_analyzer::ast::{Loc, SourcePath};
use sui_move_analyzer::benchmark::{
    self, align_left, align_right, corpus, expected_label, failed, kind_name, score, totals, verdict,
    CorpusEntry,
};
use sui_move_analyzer::corpus::{
    after_wait, checkout_repo, expectation_cell, git_failure, judge, rules_cell, sanitize_label, short_rev, summarize,
    table_lines, timed_out, CorpusPackage, CorpusSummary, Wait,
};
use sui_move_analyzer::demo::{
    analysis_scope_label, dependency_mode_label, math_mode_label, row, row_before, row_text,
    sort_rows, Row,
};
use sui_move_analyzer::domain::risk::RiskKind;
use sui_move_analyzer::options::{
    AnalysisScope, DependencyMode, PackageAnalysisOptions, SecurityMathMode,
};
use sui_move_analyzer::package::{
    after_second_attempt, cache_key, fingerprint, first_attempt, key_of_digest,
    revision_from_output, second_attempt, should_retry_with_implicit_deps, whole_graph_options,
    Attempt, PackageAnalysisMetrics,
};
use sui_move_analyzer::report::{SecurityFinding, Severity, SinkKind};
use sui_move_analyzer::scope::{
    path_in_scope, scope_roots_from_graph, starts_with, PackageEntry, PackageScopeRoots,
    PackageSourceScope, ScopeRoot,
};
use sui_move_analyzer::u256::U256;

fn text(s: &str) -> String {
    s.to_string()
}

fn texts(list: &[&str]) -> Vec<String> {
    list.iter().map(|s| s.to_string()).collect()
}

fn finding(kind: RiskKind, message: &str) -> SecurityFinding {
    let loc = Loc { file_hash: U256::from_u128(1), start: 10, end: 20 };
    SecurityFinding {
        key: text(message),
        kind,
        loc,
        sink_loc: Some(loc),
        helper_loc: None,
        severity: Severity::Warning,
        title: text("title"),
        message: text(message),
        failed_condition: text("x <= 1"),
        path_facts: vec![],
        recommendation: text("recommendation"),
        sink_kind: SinkKind::PublicReturn,
        sink_detail: None,
    }
}

fn path(components: &[&str]) -> SourcePath {
    SourcePath { components: texts(components) }
}

#[test]
fn a_missing_framework_is_recognized() {
    assert!(should_retry_with_implicit_deps("Address 'std' is not assigned a value"));
    assert!(should_retry_with_implicit_deps("Unresolved addresses found: address 'sui'"));
    assert!(should_retry_with_implicit_deps("unbound module 'std::vector'"));
    assert!(should_retry_with_implicit_deps("Unbound module: SUI::coin"));
    assert!(!should_retry_with_implicit_deps("unbound module 'foo::bar'"));
    assert!(!should_retry_with_implicit_deps("address 'std' is fine"));
    assert!(!should_retry_with_implicit_deps(""));
}

#[test]
fn only_automatic_mode_tries_twice() {
    assert_eq!(first_attempt(DependencyMode::Off), Attempt::Plain);
    assert_eq!(first_attempt(DependencyMode::Auto), Attempt::Plain);
    assert_eq!(first_attempt(DependencyMode::Forced), Attempt::WithImplicitDeps);
    let missing = "unbound module 'sui::coin'";
    assert_eq!(second_attempt(DependencyMode::Auto, missing), Some(Attempt::WithImplicitDeps));
    assert_eq!(second_attempt(DependencyMode::Auto, "syntax error"), None);
    assert_eq!(second_attempt(DependencyMode::Off, missing), None);
    assert_eq!(second_attempt(DependencyMode::Forced, missing), None);
}

#[test]
fn the_first_error_stands_when_both_attempts_fail() {
    assert_eq!(after_second_attempt::<u8, &str>("first", Err("second")), Err("first"));
    assert_eq!(after_second_attempt::<u8, &str>("first", Ok(7)), Ok(7));
}

#[test]
fn whole_graph_options_follow_the_dependencies() {
    let with = whole_graph_options(true);
    assert_eq!(with.dependency_mode, DependencyMode::Forced);
    assert_eq!(with.analysis_scope, AnalysisScope::WholeGraph);
    assert!(!with.reuse_build_cache);
    assert_eq!(with.security_math_mode, SecurityMathMode::Fast);
    assert_eq!(with.security_smt_timeout_ms, 250);
    assert_eq!(whole_graph_options(false).dependency_mode, DependencyMode::Off);
}

#[test]
fn options_have_defaults() {
    let options = PackageAnalysisOptions::default();
    assert_eq!(options.security_smt_timeout_ms, 250);
    assert_eq!(options.security_math_mode, SecurityMathMode::Fast);
    assert_eq!(PackageAnalysisMetrics::default().total, 0);
}

#[test]
fn cache_keys_are_digests_of_path_and_revision() {
    assert_eq!(
        cache_key("hello ", Some("world"), "manifest"),
        "b94d27b9934d3e08a52e52d7da7dabfac484efe37a5380ee9088f7ace2efcde9",
    );
    assert_eq!(
        cache_key("", None, ""),
        "e3b0c44298fc1c149afbf4c8996fb92427ae41e4649b934ca495991b7852b855",
    );
    assert_eq!(cache_key("hello ", None, "world"), cache_key("hello ", Some("world"), "x"));
    assert_ne!(cache_key("a", Some("1"), "m"), cache_key("a", Some("2"), "m"));
}

#[test]
fn a_revision_stands_for_the_manifest() {
    assert_eq!(fingerprint("p", Some("r"), "m"), b"pr".to_vec());
    assert_eq!(fingerprint("p", None, "m"), b"pm".to_vec());
    assert_eq!(fingerprint("\u{e9}", None, ""), vec![0xc3, 0xa9]);
    assert_eq!(key_of_digest(&vec![0, 15, 255]), "000fff");
    assert_eq!(key_of_digest(&vec![]), "");
}

#[test]
fn revisions_are_trimmed() {
    assert_eq!(revision_from_output(true, Some(" abc\n")), Some(text("abc")));
    assert_eq!(revision_from_output(true, Some("\n")), Some(text("")));
    assert_eq!(revision_from_output(false, Some("abc")), None);
    assert_eq!(revision_from_output(true, None), None);
}

#[test]
fn paths_are_inside_their_roots() {
    let root = path(&["/", "a", "b"]);
    assert!(starts_with(&path(&["/", "a", "b", "c.move"]), &root));
    assert!(starts_with(&root, &root));
    assert!(!starts_with(&path(&["/", "a"]), &root));
    assert!(!starts_with(&path(&["/", "a", "bc"]), &root));
    assert!(path_in_scope(&path(&["/", "a", "b", "c"]), &vec![path(&["/", "x"]), path(&["/", "a"])]));
    assert!(!path_in_scope(&path(&["/", "a"]), &vec![]));
}

fn roots() -> PackageScopeRoots {
    let entry = |name: &str| PackageEntry { name: text(name), path: path(&["/", name]) };
    let root = entry("root");
    let packages = vec![entry("root"), entry("near"), entry("far")];
    scope_roots_from_graph(&root, &packages, &texts(&["near"]))
}

#[test]
fn packages_are_told_apart_by_their_roots() {
    let roots = roots();
    let scope = |name: &str| roots.classify_path(&path(&["/", name, "sources", "m.move"]));
    assert_eq!(scope("root"), PackageSourceScope::RootPackage);
    assert_eq!(scope("near"), PackageSourceScope::DirectDependency);
    assert_eq!(scope("far"), PackageSourceScope::TransitiveDependency);
    assert_eq!(scope("else"), PackageSourceScope::Unknown);
}

#[test]
fn wider_scopes_have_more_roots() {
    let roots = roots();
    assert_eq!(roots.scope_roots(AnalysisScope::RootOnly).unwrap().len(), 1);
    assert_eq!(roots.scope_roots(AnalysisScope::RootAndDirectDeps).unwrap().len(), 2);
    assert!(roots.scope_roots(AnalysisScope::WholeGraph).is_none());
}

#[test]
fn the_innermost_root_decides() {
    let nested = PackageScopeRoots::new(
        vec![
            ScopeRoot { path: path(&["/", "p"]), scope: PackageSourceScope::RootPackage },
            ScopeRoot {
                path: path(&["/", "p", "vendor", "q"]),
                scope: PackageSourceScope::DirectDependency,
            },
        ],
    );
    assert_eq!(
        nested.classify_path(&path(&["/", "p", "vendor", "q", "m.move"])),
        PackageSourceScope::DirectDependency,
    );
    assert_eq!(
        nested.classify_path(&path(&["/", "p", "vendor", "m.move"])),
        PackageSourceScope::RootPackage,
    );
}

#[test]
fn labels_become_directory_names() {
    assert_eq!(sanitize_label("integer-mate@8176959"), "integer_mate_8176959");
    assert_eq!(sanitize_label("a b/\u{e9}"), "a_b__");
    assert_eq!(sanitize_label(""), "");
}

#[test]
fn revisions_are_cut_to_seven() {
    assert_eq!(short_rev("8176959abcdef"), "8176959");
    assert_eq!(short_rev("817"), "817");
    assert_eq!(short_rev("8176959"), "8176959");
    assert_eq!(short_rev("123456\u{e9}9"), "123456\u{e9}9");
}

#[test]
fn a_missing_working_copy_is_cloned_first() {
    let commands = checkout_repo(false, "/tmp/repo", "https://example.com/r.git", "abc");
    assert_eq!(commands.len(), 3);
    assert!(!commands[0].in_repo);
    assert_eq!(
        commands[0].arguments,
        texts(&["clone", "--no-checkout", "https://example.com/r.git", "/tmp/repo"]),
    );
    assert!(commands[1].in_repo);
    assert_eq!(commands[1].arguments, texts(&["fetch", "--depth", "1", "origin", "abc"]));
    assert_eq!(commands[2].arguments, texts(&["checkout", "--force", "abc"]));
    assert_eq!(checkout_repo(true, "/tmp/repo", "u", "abc").len(), 2);
}

#[test]
fn a_failed_call_is_quoted() {
    assert_eq!(
        git_failure(&texts(&["checkout", "--force", "abc"]), "no such commit"),
        "git checkout --force abc failed: no such commit",
    );
}

#[test]
fn waits_end_in_a_summary_or_an_error() {
    assert_eq!(after_wait(Wait::TimedOut), Ok(timed_out()));
    assert_eq!(after_wait(Wait::Finished(Ok(timed_out()))), Ok(timed_out()));
    assert_eq!(after_wait(Wait::Finished(Err(text("e")))), Err(text("e")));
    assert_eq!(
        after_wait(Wait::Disconnected),
        Err(text("analysis worker disconnected before returning a result")),
    );
}

#[test]
fn summaries_list_each_rule_once() {
    let summary = summarize(
        &vec![
            finding(RiskKind::ReachableShiftTruncation, "a"),
            finding(RiskKind::FakeCheckedShift, "b"),
            finding(RiskKind::ReachableShiftTruncation, "c"),
        ],
    );
    assert_eq!(summary.actual, "flagged");
    assert_eq!(summary.finding_count, 3);
    assert_eq!(
        summary.rule_ids,
        texts(&["security/fake-checked-shift", "security/reachable-shift-truncation"]),
    );
    let clean = summarize(&vec![]);
    assert_eq!(clean.actual, "clean");
    assert_eq!(clean.rule_ids.len(), 0);
    assert_eq!(timed_out().actual, "manual-review");
}

#[test]
fn expectations_are_judged_by_status_and_rules() {
    let summary = CorpusSummary {
        actual: text("flagged"),
        finding_count: 1,
        rule_ids: texts(&["security/fake-checked-shift"]),
    };
    let flagged = text("flagged");
    let good = judge(&flagged, &texts(&["security/fake-checked-shift"]), &vec![], &summary);
    assert_eq!(good.expectation, "matched");
    let missing = judge(&flagged, &texts(&["z", "a"]), &vec![], &summary);
    assert_eq!(missing.expectation, "mismatch");
    assert_eq!(missing.missing_rules, texts(&["a", "z"]));
    let unexpected = judge(&flagged, &vec![], &texts(&["security/fake-checked-shift"]), &summary);
    assert_eq!(unexpected.expectation, "mismatch");
    assert_eq!(unexpected.unexpected_rules, texts(&["security/fake-checked-shift"]));
    assert_eq!(judge(&text("clean"), &vec![], &vec![], &summary).expectation, "mismatch");
}

fn package() -> CorpusPackage {
    CorpusPackage {
        label: text("integer-mate-vulnerable"),
        git: text("https://example.com/integer-mate.git"),
        rev: text("8176959abcdef"),
        package_subdir: text("sui"),
        dependency_mode: None,
        scope: Some(AnalysisScope::RootOnly),
        security_math_mode: None,
        security_smt_timeout_ms: None,
        timeout_seconds: None,
        expected: text("flagged"),
        must_include_rules: Some(texts(&["security/fake-checked-shift"])),
        must_exclude_rules: None,
    }
}

#[test]
fn corpus_packages_have_default_options() {
    let options = package().options();
    assert_eq!(options.dependency_mode, DependencyMode::Auto);
    assert_eq!(options.analysis_scope, AnalysisScope::RootOnly);
    assert!(options.reuse_build_cache);
    assert_eq!(options.security_math_mode, SecurityMathMode::Fast);
    assert_eq!(options.security_smt_timeout_ms, 250);
}

#[test]
fn packages_that_pass_are_shown_so() {
    let summary = summarize(&vec![finding(RiskKind::FakeCheckedShift, "a")]);
    let result = package().result(Ok(summary));
    assert_eq!(result.expectation, "matched");
    assert_eq!(result.error, None);
    assert_eq!(
        table_lines(&result),
        texts(
            &[
                "integer-mate-vulnerable | flagged | flagged | PASS | 1 | security/fake-checked-shift | 8176959",
            ],
        ),
    );
    assert_eq!(expectation_cell("manual-review"), "manual-review");
    assert_eq!(rules_cell(&vec![]), "-");
}

#[test]
fn packages_that_fail_say_what_is_missing() {
    let result = package().result(Ok(summarize(&vec![])));
    assert_eq!(result.expectation, "mismatch");
    let lines = table_lines(&result);
    assert_eq!(
        lines[0],
        "integer-mate-vulnerable | flagged | clean | FAIL | 0 | - | 8176959",
    );
    assert_eq!(lines[1], "  missing rules: security/fake-checked-shift");
    let broken = package().result(Err(text("no network")));
    assert_eq!(broken.expectation, "manual-review");
    assert_eq!(broken.actual, "manual-review");
    assert_eq!(broken.error, Some(text("no network")));
    assert!(table_lines(&broken).iter().any(|shown| shown.contains("no network")));
}

#[test]
fn modes_have_labels() {
    assert_eq!(analysis_scope_label(AnalysisScope::RootOnly), "root");
    assert_eq!(analysis_scope_label(AnalysisScope::RootAndDirectDeps), "direct");
    assert_eq!(analysis_scope_label(AnalysisScope::WholeGraph), "all");
    assert_eq!(dependency_mode_label(DependencyMode::Auto), "auto");
    assert_eq!(dependency_mode_label(DependencyMode::Off), "off");
    assert_eq!(dependency_mode_label(DependencyMode::Forced), "forced");
    assert_eq!(math_mode_label(SecurityMathMode::Fast), "fast");
    assert_eq!(math_mode_label(SecurityMathMode::Deep), "deep");
}

fn table_row(file: &str, line: usize, rule: &str, message: &str) -> Row {
    Row {
        file: text(file),
        line,
        scope: text("root"),
        severity: text("warning"),
        rule: text(rule),
        message: text(message),
    }
}

#[test]
fn rows_are_sorted_by_file_line_and_rule() {
    let rows = vec![
        table_row("b", 1, "x", "fourth"),
        table_row("a", 20, "x", "third"),
        table_row("a", 3, "y", "second"),
        table_row("a", 3, "x", "first"),
        table_row("b", 1, "x", "fifth"),
    ];
    assert!(row_before(&rows[1], &rows[0]));
    assert!(!row_before(&rows[0], &rows[4]));
    let order: Vec<String> = sort_rows(rows).into_iter().map(|row| row.message).collect();
    assert_eq!(order, texts(&["first", "second", "third", "fourth", "fifth"]));
}

#[test]
fn rows_show_where_a_finding_stands() {
    let row = row(
        "sources/m.move",
        12,
        PackageSourceScope::RootPackage,
        &finding(RiskKind::InvalidShiftCount, "too far"),
    );
    assert_eq!(row.rule, "security/invalid-shift-count");
    assert_eq!(row.message, "too far");
    let line = row_text(&row);
    assert!(line.starts_with("sources/m.move | 12 | "));
    assert!(line.ends_with(" | security/invalid-shift-count | too far"));
}

#[test]
fn the_benchmark_names_its_packages() {
    let entries = corpus();
    assert_eq!(entries.len(), 16);
    assert_eq!(entries[0].label, "cetus_vulnerable");
    assert_eq!(entries[0].expected_kind, Some(RiskKind::FakeCheckedShift));
    assert_eq!(entries[0].min_expected, 1);
    assert_eq!(entries[1].expected_kind, None);
    assert_eq!(entries[1].min_expected, 0);
    assert_eq!(entries[11].label, "dynamic_u256_shift");
    assert_eq!(entries[11].expected_kind, None);
    assert!(entries.iter().all(|entry| entry.path.ends_with(entry.label)));
}

fn entry(expected_kind: Option<RiskKind>) -> CorpusEntry {
    CorpusEntry {
        path: "p",
        label: "l",
        expected_kind,
        min_expected: if expected_kind.is_some() { 1 } else { 0 },
    }
}

#[test]
fn every_finding_counts_once() {
    let found = vec![
        finding(RiskKind::FakeCheckedShift, "a"),
        finding(RiskKind::ReachableNarrowCast, "b"),
    ];
    let hit = score(&entry(Some(RiskKind::FakeCheckedShift)), 5, Ok(found.clone()));
    assert_eq!((hit.tp, hit.fp, hit.fn_count, hit.total_findings), (1, 1, 0, 2));
    assert_eq!(verdict(&hit), "FP");
    let miss = score(&entry(Some(RiskKind::InvalidShiftCount)), 5, Ok(found.clone()));
    assert_eq!((miss.tp, miss.fp, miss.fn_count), (0, 2, 1));
    assert_eq!(verdict(&miss), "MISS");
    let noisy = score(&entry(None), 5, Ok(found));
    assert_eq!((noisy.tp, noisy.fp, noisy.fn_count), (0, 2, 0));
    let quiet = score(&entry(None), 5, Ok(vec![]));
    assert_eq!(verdict(&quiet), "OK");
    let broken = score(&entry(None), 5, Err(text("no build")));
    assert_eq!(broken.error, Some(text("no build")));
    assert_eq!(broken.total_findings, 0);
}

#[test]
fn a_missed_risk_fails_the_benchmark() {
    let hit = score(
        &entry(Some(RiskKind::FakeCheckedShift)),
        1,
        Ok(vec![finding(RiskKind::FakeCheckedShift, "a")]),
    );
    let quiet = score(&entry(None), 1, Ok(vec![]));
    let good = totals(&vec![hit.clone(), quiet.clone()]);
    assert_eq!((good.safe, good.vulnerable, good.detected, good.tp), (1, 1, 1, 1));
    assert!(!failed(&good));
    let miss = score(&entry(Some(RiskKind::FakeCheckedShift)), 1, Ok(vec![]));
    assert!(failed(&totals(&vec![hit.clone(), miss])));
    let broken = score(&entry(None), 1, Err(text("e")));
    let with_error = totals(&vec![hit, broken]);
    assert_eq!(with_error.errors, 1);
    assert_eq!(with_error.safe, 0);
    assert!(failed(&with_error));
    let noisy = score(&entry(None), 1, Ok(vec![finding(RiskKind::FakeCheckedShift, "a")]));
    let false_alarm = totals(&vec![noisy]);
    assert_eq!((false_alarm.safe_with_fp, false_alarm.fp), (1, 1));
    assert!(!failed(&false_alarm));
}

#[test]
fn benchmark_lines_are_aligned() {
    assert_eq!(align_left("ab", 4), "ab  ");
    assert_eq!(align_right("ab", 4), "  ab");
    assert_eq!(align_left("abcde", 4), "abcde");
    assert_eq!(expected_label(None), "0 (safe)");
    assert_eq!(expected_label(Some(RiskKind::FakeCheckedShift)), "\u{2265}1 FakeCheckedShift");
    assert_eq!(kind_name(RiskKind::DynamicU256Shift), "DynamicU256Shift");
    let quiet = score(&entry(None), 42, Ok(vec![]));
    assert_eq!(
        benchmark::line(&quiet),
        format!("{:<35}  {:>8}  {:>4}  {:>4}  {:>4}  {:>7}  OK [0 (safe)]", "l", 0, 0, 0, 0, 42),
    );
    let broken = score(&entry(None), 1, Err("e".repeat(70)));
    assert_eq!(benchmark::line(&broken), format!("{:<35}  ERROR: {}", "l", "e".repeat(60)));
    let short = score(&entry(None), 1, Err(text("no build")));
    assert_eq!(benchmark::line(&short), format!("{:<35}  ERROR: no build", "l"));
}
