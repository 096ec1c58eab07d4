//! The corpus of pinned packages: what is expected of each, and whether it came true.

use crate::model::{dup_all, holds, opt_view, views};
use crate::options::{AnalysisScope, DependencyMode, PackageAnalysisOptions, SecurityMathMode};
use crate::report::{SecurityFinding, SecurityFindingView};
use crate::text::{chars_of, decimal, join, joined, same_text, sort_texts, sorted_texts, write_u128};
use vstd::prelude::*;
use vstd::string::StringSliceAdditionalSpecFns;
use vstd::utf8::{decode_utf8, encode_utf8, encode_utf8_decode_utf8, is_char_boundary};

verus! {

/// Whether a character is an ASCII letter or digit.
pub open spec fn is_alphanumeric(c: char) -> bool {
    ('a' <= c && c <= 'z') || ('A' <= c && c <= 'Z') || ('0' <= c && c <= '9')
}

/// A label as the name of a directory: anything but ASCII letters and digits is an underscore.
pub fn sanitize_label(label: &str) -> (r: String)
    ensures
        r@ == Seq::new(
            label@.len(),
            |i: int|
                if is_alphanumeric(label@[i]) {
                    label@[i]
                } else {
                    '_'
                },
        ),
{
    let ghost wanted = Seq::new(
        label@.len(),
        |i: int|
            if is_alphanumeric(label@[i]) {
                label@[i]
            } else {
                '_'
            },
    );
    let cs: Vec<char> = chars_of(label);
    let mut r: String = String::new();
    let mut i: usize = 0;
    while i < cs.len()
        invariant
            i <= cs@.len(),
            cs@ == label@,
            wanted == Seq::new(
                label@.len(),
                |i: int|
                    if is_alphanumeric(label@[i]) {
                        label@[i]
                    } else {
                        '_'
                    },
            ),
            r@ =~= wanted.take(i as int),
        decreases cs@.len() - i,
    {
        let c: char = cs[i];
        if ('a' <= c && c <= 'z') || ('A' <= c && c <= 'Z') || ('0' <= c && c <= '9') {
            r.push(c);
        } else {
            r.push('_');
        }
        i = i + 1;
    }
    assert(wanted.take(i as int) =~= wanted);
    r
}

/// The first seven bytes of a revision; the whole of one that has no character boundary there.
pub open spec fn short_rev_spec(rev: Seq<char>) -> Seq<char> {
    if is_char_boundary(encode_utf8(rev), 7) {
        decode_utf8(encode_utf8(rev).subrange(0, 7))
    } else {
        rev
    }
}

pub fn short_rev(rev: &str) -> (r: &str)
    ensures
        r@ == short_rev_spec(rev@),
{
    if rev.is_char_boundary(7) {
        let parts: (&str, &str) = rev.split_at(7);
        proof {
            encode_utf8_decode_utf8(parts.0@);
        }
        parts.0
    } else {
        rev
    }
}

/// A call of the version control tool.
#[derive(Clone, Debug, PartialEq, Eq)]
pub struct GitCommand {
    /// Whether it runs inside the working copy.
    pub in_repo: bool,
    pub arguments: Vec<String>,
}

#[verifier::ext_equal]
pub struct GitCommandView {
    pub in_repo: bool,
    pub arguments: Seq<Seq<char>>,
}

impl View for GitCommand {
    type V = GitCommandView;

    open spec fn view(&self) -> GitCommandView {
        GitCommandView { in_repo: self.in_repo, arguments: views(self.arguments@) }
    }
}

/// The calls that bring a working copy to a revision; a copy that is not there is cloned first.
pub open spec fn checkout_spec(
    exists_already: bool,
    repo_dir: Seq<char>,
    git: Seq<char>,
    rev: Seq<char>,
) -> Seq<GitCommandView> {
    let clone = GitCommandView {
        in_repo: false,
        arguments: seq!["clone"@, "--no-checkout"@, git, repo_dir],
    };
    let fetch = GitCommandView {
        in_repo: true,
        arguments: seq!["fetch"@, "--depth"@, "1"@, "origin"@, rev],
    };
    let checkout = GitCommandView {
        in_repo: true,
        arguments: seq!["checkout"@, "--force"@, rev],
    };
    if exists_already {
        seq![fetch, checkout]
    } else {
        seq![clone, fetch, checkout]
    }
}

pub fn checkout_repo(exists_already: bool, repo_dir: &str, git: &str, rev: &str) -> (r: Vec<
    GitCommand,
>)
    ensures
        views(r@) == checkout_spec(exists_already, repo_dir@, git@, rev@),
{
    let mut r: Vec<GitCommand> = Vec::new();
    if !exists_already {
        let mut arguments: Vec<String> = Vec::new();
        arguments.push("clone".to_owned());
        arguments.push("--no-checkout".to_owned());
        arguments.push(git.to_owned());
        arguments.push(repo_dir.to_owned());
        assert(views(arguments@) =~= seq!["clone"@, "--no-checkout"@, git@, repo_dir@]);
        r.push(GitCommand { in_repo: false, arguments });
    }
    let mut fetch: Vec<String> = Vec::new();
    fetch.push("fetch".to_owned());
    fetch.push("--depth".to_owned());
    fetch.push("1".to_owned());
    fetch.push("origin".to_owned());
    fetch.push(rev.to_owned());
    assert(views(fetch@) =~= seq!["fetch"@, "--depth"@, "1"@, "origin"@, rev@]);
    r.push(GitCommand { in_repo: true, arguments: fetch });
    let mut checkout: Vec<String> = Vec::new();
    checkout.push("checkout".to_owned());
    checkout.push("--force".to_owned());
    checkout.push(rev.to_owned());
    assert(views(checkout@) =~= seq!["checkout"@, "--force"@, rev@]);
    r.push(GitCommand { in_repo: true, arguments: checkout });
    assert(views(r@) =~= checkout_spec(exists_already, repo_dir@, git@, rev@));
    r
}

/// What is said of a call of the version control tool that failed.
pub fn git_failure(arguments: &Vec<String>, stderr: &str) -> (r: String)
    ensures
        r@ == "git "@ + joined(views(arguments@), " "@) + " failed: "@ + stderr@,
{
    let mut r: String = "git ".to_owned();
    r.append(join(arguments, " ").as_str());
    r.append(" failed: ");
    r.append(stderr);
    r
}

/// The options of a package of the corpus: what its entry gives, and defaults for the rest.
pub open spec fn options_spec(
    dependency_mode: Option<DependencyMode>,
    scope: Option<AnalysisScope>,
    math_mode: Option<SecurityMathMode>,
    smt_timeout_ms: Option<u64>,
) -> PackageAnalysisOptions {
    PackageAnalysisOptions {
        dependency_mode: match dependency_mode {
            Some(mode) => mode,
            None => DependencyMode::Auto,
        },
        analysis_scope: match scope {
            Some(scope) => scope,
            None => AnalysisScope::RootAndDirectDeps,
        },
        reuse_build_cache: true,
        security_math_mode: match math_mode {
            Some(mode) => mode,
            None => SecurityMathMode::Fast,
        },
        security_smt_timeout_ms: match smt_timeout_ms {
            Some(ms) => ms,
            None => 250,
        },
    }
}

fn corpus_options(
    dependency_mode: Option<DependencyMode>,
    scope: Option<AnalysisScope>,
    math_mode: Option<SecurityMathMode>,
    smt_timeout_ms: Option<u64>,
) -> (r: PackageAnalysisOptions)
    ensures
        r == options_spec(dependency_mode, scope, math_mode, smt_timeout_ms),
{
    PackageAnalysisOptions {
        dependency_mode: match dependency_mode {
            Some(mode) => mode,
            None => DependencyMode::Auto,
        },
        analysis_scope: match scope {
            Some(scope) => scope,
            None => AnalysisScope::RootAndDirectDeps,
        },
        reuse_build_cache: true,
        security_math_mode: match math_mode {
            Some(mode) => mode,
            None => SecurityMathMode::Fast,
        },
        security_smt_timeout_ms: match smt_timeout_ms {
            Some(ms) => ms,
            None => 250,
        },
    }
}

/// What an analysis of a package of the corpus came to.
#[derive(Clone, Debug, PartialEq, Eq)]
pub struct CorpusSummary {
    pub actual: String,
    pub finding_count: usize,
    pub rule_ids: Vec<String>,
}

#[verifier::ext_equal]
pub struct CorpusSummaryView {
    pub actual: Seq<char>,
    pub finding_count: nat,
    pub rule_ids: Seq<Seq<char>>,
}

impl View for CorpusSummary {
    type V = CorpusSummaryView;

    open spec fn view(&self) -> CorpusSummaryView {
        CorpusSummaryView {
            actual: self.actual@,
            finding_count: self.finding_count as nat,
            rule_ids: views(self.rule_ids@),
        }
    }
}

/// The rules of the first `n` findings, each once, in the order of findings.
pub open spec fn distinct_rules(findings: Seq<SecurityFindingView>, n: nat) -> Seq<Seq<char>>
    decreases n,
{
    if n == 0 || n > findings.len() {
        Seq::empty()
    } else {
        let before = distinct_rules(findings, (n - 1) as nat);
        let rule = findings[n - 1].kind.rule_id_spec();
        if before.contains(rule) {
            before
        } else {
            before.push(rule)
        }
    }
}

pub open spec fn summarize_spec(findings: Seq<SecurityFindingView>) -> CorpusSummaryView {
    CorpusSummaryView {
        actual: if findings.len() == 0 {
            "clean"@
        } else {
            "flagged"@
        },
        finding_count: findings.len(),
        rule_ids: sorted_texts(distinct_rules(findings, findings.len())),
    }
}

/// The summary of the findings of a package.
pub fn summarize(findings: &Vec<SecurityFinding>) -> (r: CorpusSummary)
    ensures
        r@ == summarize_spec(views(findings@)),
{
    let ghost all = views(findings@);
    let mut rules: Vec<String> = Vec::new();
    let mut i: usize = 0;
    assert(views(rules@) =~= distinct_rules(all, 0));
    while i < findings.len()
        invariant
            i <= findings@.len(),
            all == views(findings@),
            views(rules@) == distinct_rules(all, i as nat),
        decreases findings@.len() - i,
    {
        let ghost start = rules@;
        let rule: String = findings[i].kind.rule_id().to_owned();
        if !holds(&rules, &rule) {
            rules.push(rule);
            assert(views(rules@) =~= views(start).push(rule@));
        }
        i = i + 1;
    }
    CorpusSummary {
        actual: if findings.len() == 0 {
            "clean".to_owned()
        } else {
            "flagged".to_owned()
        },
        finding_count: findings.len(),
        rule_ids: sort_texts(&rules),
    }
}

/// What is said of a package whose analysis did not finish in time.
pub fn timed_out() -> (r: CorpusSummary)
    ensures
        r@ == (CorpusSummaryView {
            actual: "manual-review"@,
            finding_count: 0,
            rule_ids: Seq::empty(),
        }),
{
    let r = CorpusSummary {
        actual: "manual-review".to_owned(),
        finding_count: 0,
        rule_ids: Vec::new(),
    };
    assert(r@.rule_ids =~= Seq::<Seq<char>>::empty());
    r
}

/// How the wait for an analysis in another thread ended.
#[derive(Debug)]
pub enum Wait {
    Finished(Result<CorpusSummary, String>),
    TimedOut,
    /// The thread is gone without a result.
    Disconnected,
}

/// What a wait comes to: an analysis that is not finished in time is left to manual review.
pub fn after_wait(wait: Wait) -> (r: Result<CorpusSummary, String>)
    ensures
        match wait {
            Wait::Finished(result) => r == result,
            Wait::TimedOut => r is Ok && r->Ok_0@ == (CorpusSummaryView {
                actual: "manual-review"@,
                finding_count: 0,
                rule_ids: Seq::empty(),
            }),
            Wait::Disconnected => r is Err && r->Err_0@
                == "analysis worker disconnected before returning a result"@,
        },
{
    match wait {
        Wait::Finished(result) => result,
        Wait::TimedOut => Ok(timed_out()),
        Wait::Disconnected => {
            Err("analysis worker disconnected before returning a result".to_owned())
        },
    }
}

/// Whether what came out is what was expected.
#[derive(Clone, Debug, PartialEq, Eq)]
pub struct Verdict {
    pub expectation: String,
    pub missing_rules: Vec<String>,
    pub unexpected_rules: Vec<String>,
}

#[verifier::ext_equal]
pub struct VerdictView {
    pub expectation: Seq<char>,
    pub missing_rules: Seq<Seq<char>>,
    pub unexpected_rules: Seq<Seq<char>>,
}

impl View for Verdict {
    type V = VerdictView;

    open spec fn view(&self) -> VerdictView {
        VerdictView {
            expectation: self.expectation@,
            missing_rules: views(self.missing_rules@),
            unexpected_rules: views(self.unexpected_rules@),
        }
    }
}

/// The first `n` rules that are, or are not, among those that were found.
pub open spec fn rules_found(
    rules: Seq<Seq<char>>,
    found: Seq<Seq<char>>,
    wanted: bool,
    n: nat,
) -> Seq<Seq<char>>
    decreases n,
{
    if n == 0 || n > rules.len() {
        Seq::empty()
    } else {
        let before = rules_found(rules, found, wanted, (n - 1) as nat);
        if found.contains(rules[n - 1]) == wanted {
            before.push(rules[n - 1])
        } else {
            before
        }
    }
}

/// The verdict on a package, given the status that was expected and the rules that must or must
/// not have fired.
pub open spec fn judge_spec(
    expected: Seq<char>,
    must_include: Seq<Seq<char>>,
    must_exclude: Seq<Seq<char>>,
    summary: CorpusSummaryView,
) -> VerdictView {
    let missing = rules_found(must_include, summary.rule_ids, false, must_include.len());
    let unexpected = rules_found(must_exclude, summary.rule_ids, true, must_exclude.len());
    VerdictView {
        expectation: if expected == summary.actual && missing.len() == 0 && unexpected.len() == 0 {
            "matched"@
        } else {
            "mismatch"@
        },
        missing_rules: sorted_texts(missing),
        unexpected_rules: sorted_texts(unexpected),
    }
}

fn select_rules(rules: &Vec<String>, found: &Vec<String>, wanted: bool) -> (r: Vec<String>)
    ensures
        views(r@) == rules_found(views(rules@), views(found@), wanted, rules@.len()),
{
    let ghost all = views(rules@);
    let mut r: Vec<String> = Vec::new();
    let mut i: usize = 0;
    assert(views(r@) =~= rules_found(all, views(found@), wanted, 0));
    while i < rules.len()
        invariant
            i <= rules@.len(),
            all == views(rules@),
            views(r@) == rules_found(all, views(found@), wanted, i as nat),
        decreases rules@.len() - i,
    {
        let ghost start = r@;
        if holds(found, &rules[i]) == wanted {
            r.push(rules[i].clone());
            assert(views(r@) =~= views(start).push(all[i as int]));
        }
        i = i + 1;
    }
    r
}

pub fn judge(
    expected: &String,
    must_include: &Vec<String>,
    must_exclude: &Vec<String>,
    summary: &CorpusSummary,
) -> (r: Verdict)
    ensures
        r@ == judge_spec(expected@, views(must_include@), views(must_exclude@), summary@),
{
    let missing: Vec<String> = select_rules(must_include, &summary.rule_ids, false);
    let unexpected: Vec<String> = select_rules(must_exclude, &summary.rule_ids, true);
    let matched: bool = *expected == summary.actual && missing.len() == 0 && unexpected.len() == 0;
    Verdict {
        expectation: if matched {
            "matched".to_owned()
        } else {
            "mismatch".to_owned()
        },
        missing_rules: sort_texts(&missing),
        unexpected_rules: sort_texts(&unexpected),
    }
}

/// A package of the corpus, pinned to a revision, and what is expected of it.
#[derive(Clone, Debug)]
pub struct CorpusPackage {
    pub label: String,
    pub git: String,
    pub rev: String,
    pub package_subdir: String,
    pub dependency_mode: Option<DependencyMode>,
    pub scope: Option<AnalysisScope>,
    pub security_math_mode: Option<SecurityMathMode>,
    pub security_smt_timeout_ms: Option<u64>,
    pub timeout_seconds: Option<u64>,
    pub expected: String,
    pub must_include_rules: Option<Vec<String>>,
    pub must_exclude_rules: Option<Vec<String>>,
}

/// What came of a package of the corpus.
#[derive(Clone, Debug, PartialEq, Eq)]
pub struct CorpusResult {
    pub label: String,
    pub git: String,
    pub rev: String,
    pub package_subdir: String,
    pub expected: String,
    pub actual: String,
    pub expectation: String,
    pub finding_count: usize,
    pub rule_ids: Vec<String>,
    pub missing_rules: Vec<String>,
    pub unexpected_rules: Vec<String>,
    pub error: Option<String>,
}

#[verifier::ext_equal]
pub struct CorpusResultView {
    pub label: Seq<char>,
    pub git: Seq<char>,
    pub rev: Seq<char>,
    pub package_subdir: Seq<char>,
    pub expected: Seq<char>,
    pub summary: CorpusSummaryView,
    pub verdict: VerdictView,
    pub error: Option<Seq<char>>,
}

impl View for CorpusResult {
    type V = CorpusResultView;

    open spec fn view(&self) -> CorpusResultView {
        CorpusResultView {
            label: self.label@,
            git: self.git@,
            rev: self.rev@,
            package_subdir: self.package_subdir@,
            expected: self.expected@,
            summary: CorpusSummaryView {
                actual: self.actual@,
                finding_count: self.finding_count as nat,
                rule_ids: views(self.rule_ids@),
            },
            verdict: VerdictView {
                expectation: self.expectation@,
                missing_rules: views(self.missing_rules@),
                unexpected_rules: views(self.unexpected_rules@),
            },
            error: opt_view(self.error),
        }
    }
}

/// The rules of an optional list.
pub open spec fn listed(rules: Option<Vec<String>>) -> Seq<Seq<char>> {
    match rules {
        Some(rules) => views(rules@),
        None => Seq::empty(),
    }
}

fn listed_rules(rules: &Option<Vec<String>>) -> (r: Vec<String>)
    ensures
        views(r@) == listed(*rules),
{
    match rules {
        Some(rules) => dup_all(rules),
        None => {
            let r: Vec<String> = Vec::new();
            assert(views(r@) =~= Seq::empty());
            r
        },
    }
}

impl CorpusPackage {
    /// The result where the package could not be checked out or analyzed: it is left to manual
    /// review. Otherwise the summary and the verdict on it.
    pub open spec fn result_spec(self, outcome: Result<CorpusSummary, String>) -> CorpusResultView {
        let summary = match outcome {
            Ok(summary) => summary@,
            Err(_) => CorpusSummaryView {
                actual: "manual-review"@,
                finding_count: 0,
                rule_ids: Seq::empty(),
            },
        };
        CorpusResultView {
            label: self.label@,
            git: self.git@,
            rev: self.rev@,
            package_subdir: self.package_subdir@,
            expected: self.expected@,
            summary,
            verdict: match outcome {
                Ok(_) => judge_spec(
                    self.expected@,
                    listed(self.must_include_rules),
                    listed(self.must_exclude_rules),
                    summary,
                ),
                Err(_) => VerdictView {
                    expectation: "manual-review"@,
                    missing_rules: Seq::empty(),
                    unexpected_rules: Seq::empty(),
                },
            },
            error: match outcome {
                Ok(_) => None,
                Err(error) => Some(error@),
            },
        }
    }

    pub fn result(&self, outcome: Result<CorpusSummary, String>) -> (r: CorpusResult)
        ensures
            r@ == self.result_spec(outcome),
    {
        let ghost given = outcome;
        let (summary, verdict, error): (CorpusSummary, Verdict, Option<String>) = match outcome {
            Ok(summary) => {
                let must_include: Vec<String> = listed_rules(&self.must_include_rules);
                let must_exclude: Vec<String> = listed_rules(&self.must_exclude_rules);
                let verdict: Verdict = judge(
                    &self.expected,
                    &must_include,
                    &must_exclude,
                    &summary,
                );
                (summary, verdict, None)
            },
            Err(error) => {
                let verdict = Verdict {
                    expectation: "manual-review".to_owned(),
                    missing_rules: Vec::new(),
                    unexpected_rules: Vec::new(),
                };
                assert(verdict@.missing_rules =~= Seq::<Seq<char>>::empty());
                assert(verdict@.unexpected_rules =~= Seq::<Seq<char>>::empty());
                (timed_out(), verdict, Some(error))
            },
        };
        assert(self.result_spec(given).verdict == verdict@);
        CorpusResult {
            label: self.label.clone(),
            git: self.git.clone(),
            rev: self.rev.clone(),
            package_subdir: self.package_subdir.clone(),
            expected: self.expected.clone(),
            actual: summary.actual,
            expectation: verdict.expectation,
            finding_count: summary.finding_count,
            rule_ids: summary.rule_ids,
            missing_rules: verdict.missing_rules,
            unexpected_rules: verdict.unexpected_rules,
            error,
        }
    }

    /// The options that the package is analyzed with.
    pub fn options(&self) -> (r: PackageAnalysisOptions)
        ensures
            r == options_spec(
                self.dependency_mode,
                self.scope,
                self.security_math_mode,
                self.security_smt_timeout_ms,
            ),
    {
        corpus_options(
            self.dependency_mode,
            self.scope,
            self.security_math_mode,
            self.security_smt_timeout_ms,
        )
    }
}

/// How the table shows an expectation that was judged.
pub open spec fn expectation_cell_spec(expectation: Seq<char>) -> Seq<char> {
    if expectation == "matched"@ {
        "PASS"@
    } else if expectation == "mismatch"@ {
        "FAIL"@
    } else {
        expectation
    }
}

pub fn expectation_cell(expectation: &str) -> (r: String)
    ensures
        r@ == expectation_cell_spec(expectation@),
{
    if same_text(expectation, "matched") {
        "PASS".to_owned()
    } else if same_text(expectation, "mismatch") {
        "FAIL".to_owned()
    } else {
        expectation.to_owned()
    }
}

/// The rules in a table: a dash where there are none.
pub open spec fn rules_cell_spec(rule_ids: Seq<Seq<char>>) -> Seq<char> {
    if rule_ids.len() == 0 {
        "-"@
    } else {
        joined(rule_ids, ","@)
    }
}

pub fn rules_cell(rule_ids: &Vec<String>) -> (r: String)
    ensures
        r@ == rules_cell_spec(views(rule_ids@)),
{
    if rule_ids.len() == 0 {
        "-".to_owned()
    } else {
        join(rule_ids, ",")
    }
}

/// The line of the table for a result.
pub open spec fn table_line_spec(result: CorpusResultView) -> Seq<char> {
    result.label + " | "@ + result.expected + " | "@ + result.summary.actual + " | "@
        + expectation_cell_spec(result.verdict.expectation) + " | "@ + decimal(
        result.summary.finding_count,
    ) + " | "@ + rules_cell_spec(result.summary.rule_ids) + " | "@ + short_rev_spec(result.rev)
}

/// The lines of the table for a result: its row, then what was missing or unexpected, then the
/// error, as far as there is any.
pub open spec fn table_lines_spec(result: CorpusResultView) -> Seq<Seq<char>> {
    let row = seq![table_line_spec(result)];
    let missing = if result.verdict.missing_rules.len() > 0 {
        row.push("  missing rules: "@ + joined(result.verdict.missing_rules, ","@))
    } else {
        row
    };
    let unexpected = if result.verdict.unexpected_rules.len() > 0 {
        missing.push("  unexpected rules: "@ + joined(result.verdict.unexpected_rules, ","@))
    } else {
        missing
    };
    match result.error {
        Some(error) => unexpected.push("  error: "@ + error),
        None => unexpected,
    }
}

fn table_line(result: &CorpusResult) -> (r: String)
    ensures
        r@ == table_line_spec(result@),
{
    let mut s: String = result.label.clone();
    s.append(" | ");
    s.append(result.expected.as_str());
    s.append(" | ");
    s.append(result.actual.as_str());
    s.append(" | ");
    s.append(expectation_cell(result.expectation.as_str()).as_str());
    s.append(" | ");
    s.append(write_u128(result.finding_count as u128).as_str());
    s.append(" | ");
    s.append(rules_cell(&result.rule_ids).as_str());
    s.append(" | ");
    s.append(short_rev(result.rev.as_str()));
    s
}

fn noted(note: &str, text: &str) -> (r: String)
    ensures
        r@ == note@ + text@,
{
    let mut s: String = note.to_owned();
    s.append(text);
    s
}

pub fn table_lines(result: &CorpusResult) -> (r: Vec<String>)
    ensures
        views(r@) == table_lines_spec(result@),
{
    let mut r: Vec<String> = Vec::new();
    r.push(table_line(result));
    assert(views(r@) =~= seq![table_line_spec(result@)]);
    if result.missing_rules.len() > 0 {
        let ghost start = r@;
        let line: String = noted("  missing rules: ", join(&result.missing_rules, ",").as_str());
        r.push(line);
        assert(views(r@) =~= views(start).push(line@));
    }
    if result.unexpected_rules.len() > 0 {
        let ghost start = r@;
        let line: String = noted(
            "  unexpected rules: ",
            join(&result.unexpected_rules, ",").as_str(),
        );
        r.push(line);
        assert(views(r@) =~= views(start).push(line@));
    }
    if let Some(error) = &result.error {
        let ghost start = r@;
        let line: String = noted("  error: ", error.as_str());
        r.push(line);
        assert(views(r@) =~= views(start).push(line@));
    }
    r
}

/// The rules that are selected are those of the list that are, or are not, among the found ones.
pub proof fn lemma_rules_found(
    rules: Seq<Seq<char>>,
    found: Seq<Seq<char>>,
    wanted: bool,
    n: nat,
    rule: Seq<char>,
)
    requires
        n <= rules.len(),
    ensures
        rules_found(rules, found, wanted, n).contains(rule) <==> rules.take(n as int).contains(rule)
            && found.contains(rule) == wanted,
    decreases n,
{
    let r = rules_found(rules, found, wanted, n);
    let t = rules.take(n as int);
    if n > 0 {
        let before = rules_found(rules, found, wanted, (n - 1) as nat);
        let prior = rules.take(n - 1);
        lemma_rules_found(rules, found, wanted, (n - 1) as nat, rule);
        assert(t =~= prior.push(rules[n - 1]));
        assert(t.contains(rule) <==> prior.contains(rule) || rule == rules[n - 1]) by {
            if prior.contains(rule) {
                let k = choose|k: int| 0 <= k < prior.len() && prior[k] == rule;
                assert(t[k] == rule);
            }
            assert(t[n - 1] == rules[n - 1]);
            if t.contains(rule) {
                let k = choose|k: int| 0 <= k < t.len() && t[k] == rule;
                if k < n - 1 {
                    assert(prior[k] == rule);
                }
            }
        }
        if found.contains(rules[n - 1]) == wanted {
            assert(r.contains(rule) <==> before.contains(rule) || rule == rules[n - 1]) by {
                if before.contains(rule) {
                    let k = choose|k: int| 0 <= k < before.len() && before[k] == rule;
                    assert(r[k] == rule);
                }
                assert(r[before.len() as int] == rules[n - 1]);
                if r.contains(rule) {
                    let k = choose|k: int| 0 <= k < r.len() && r[k] == rule;
                    if k < before.len() {
                        assert(before[k] == rule);
                    }
                }
            }
        }
    }
}

/// A package matches exactly where its status is the expected one, every rule that must fire did,
/// and no rule that must not fire did.
pub proof fn matched_means_as_expected(
    expected: Seq<char>,
    must_include: Seq<Seq<char>>,
    must_exclude: Seq<Seq<char>>,
    summary: CorpusSummaryView,
)
    ensures
        judge_spec(expected, must_include, must_exclude, summary).expectation == "matched"@ <==> (
        expected == summary.actual && (forall|rule: Seq<char>| #[trigger]
            must_include.contains(rule) ==> summary.rule_ids.contains(rule)) && (forall|
            rule: Seq<char>,
        | #[trigger]
            must_exclude.contains(rule) ==> !summary.rule_ids.contains(rule))),
{
    reveal_strlit("matched");
    reveal_strlit("mismatch");
    assert("matched"@.len() != "mismatch"@.len());
    let missing = rules_found(must_include, summary.rule_ids, false, must_include.len());
    let unexpected = rules_found(must_exclude, summary.rule_ids, true, must_exclude.len());
    assert(must_include.take(must_include.len() as int) =~= must_include);
    assert(must_exclude.take(must_exclude.len() as int) =~= must_exclude);
    assert forall|rule: Seq<char>| #[trigger] must_include.contains(rule) implies missing.contains(
        rule,
    ) == !summary.rule_ids.contains(rule) by {
        lemma_rules_found(must_include, summary.rule_ids, false, must_include.len(), rule);
    }
    assert forall|rule: Seq<char>| #[trigger]
        must_exclude.contains(rule) implies unexpected.contains(rule) == summary.rule_ids.contains(
        rule,
    ) by {
        lemma_rules_found(must_exclude, summary.rule_ids, true, must_exclude.len(), rule);
    }
    if missing.len() > 0 {
        lemma_rules_found(must_include, summary.rule_ids, false, must_include.len(), missing[0]);
        assert(missing.contains(missing[0]));
        assert(must_include.contains(missing[0]));
    }
    if unexpected.len() > 0 {
        lemma_rules_found(
            must_exclude,
            summary.rule_ids,
            true,
            must_exclude.len(),
            unexpected[0],
        );
        assert(unexpected.contains(unexpected[0]));
        assert(must_exclude.contains(unexpected[0]));
    }
}

} // verus!
