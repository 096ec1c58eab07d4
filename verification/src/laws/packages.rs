//! Packages: how an analysis of one is attempted, cached and shown.

use crate::ast::{Block, Body, Function, Loc};
use crate::cfg::{build_cfg, function_cfg};
use crate::demo::{
    analysis_scope_label, dependency_mode_label, math_mode_label, row, row_before_spec, row_text,
    Row, RowView,
};
use crate::laws::texts::{mentions, words_are_found_in_any_case};
use crate::options::{AnalysisScope, DependencyMode, PackageAnalysisOptions, SecurityMathMode};
use crate::package::{
    after_second_attempt, cache_key, file_from, first_attempt, missing_framework,
    revision_from_output, second_attempt, sha256_spec, should_retry_with_implicit_deps,
    whole_graph_options, Attempt, PackageSecurityAnalysis, SourceFile,
};
use crate::report::{SecurityFinding, Severity};
use crate::scope::{classify_spec, PackageSourceScope};
use crate::text::{decimal, hex_bytes, text_before, trim_end, trim_start};
use crate::u256::U256;
use vstd::prelude::*;
use vstd::utf8::encode_utf8;

verus! {

/// Whether an error says that the framework is missing: an address of it is not assigned, or one of
/// its modules is not bound.
pub open spec fn misses_the_framework(error: Seq<char>) -> bool {
    ||| (mentions(error, "address 'std'"@) || mentions(error, "address 'sui'"@)) && (mentions(
        error,
        "not assigned"@,
    ) || mentions(error, "unresolved addresses"@))
    ||| mentions(error, "unbound module"@) && (mentions(error, "std::"@) || mentions(
        error,
        "sui::"@,
    ))
}

/// An analysis is tried again exactly where its error says that the framework is missing.
pub proof fn missing_frameworks_are_recognized(error: &str, r: bool)
    requires
        call_ensures(should_retry_with_implicit_deps, (error,), r),
    ensures
        r <==> misses_the_framework(error@),
{
    lemma_missing(error@);
}

proof fn lemma_missing(error: Seq<char>)
    ensures
        missing_framework(error) <==> misses_the_framework(error),
{
    words_are_found_in_any_case(error, "address 'std'"@);
    words_are_found_in_any_case(error, "address 'sui'"@);
    words_are_found_in_any_case(error, "not assigned"@);
    words_are_found_in_any_case(error, "unresolved addresses"@);
    words_are_found_in_any_case(error, "unbound module"@);
    words_are_found_in_any_case(error, "std::"@);
    words_are_found_in_any_case(error, "sui::"@);
}

/// The framework is added at once where that is forced; where it is left to the analysis, it is added
/// after an attempt without it failed for the want of it; and otherwise never.
pub proof fn attempts_follow_the_mode(
    mode: DependencyMode,
    error: &str,
    first: Attempt,
    second: Option<Attempt>,
)
    requires
        call_ensures(first_attempt, (mode,), first),
        call_ensures(second_attempt, (mode, error), second),
    ensures
        mode is Forced ==> first is WithImplicitDeps && second is None,
        mode is Off ==> first is Plain && second is None,
        mode is Auto ==> first is Plain && (second is Some <==> misses_the_framework(error@)),
        second is Some ==> second->0 is WithImplicitDeps,
{
    lemma_missing(error@);
}

/// Where the second attempt fails too, the error of the first stands.
pub proof fn first_errors_stand(first: u64, second: Result<u64, u64>, r: Result<u64, u64>)
    requires
        call_ensures(after_second_attempt::<u64, u64>, (first, second), r),
    ensures
        second is Ok ==> r == second,
        second is Err ==> r is Err && r->Err_0 == first,
{
}

/// The whole graph is analyzed in fast mode, without a cache, and with the framework exactly where it
/// was added.
pub proof fn whole_graphs_are_analyzed_afresh(added: bool, r: PackageAnalysisOptions)
    requires
        call_ensures(whole_graph_options, (added,), r),
    ensures
        added ==> r.dependency_mode is Forced,
        !added ==> r.dependency_mode is Off,
        r.analysis_scope is WholeGraph,
        !r.reuse_build_cache,
        r.security_math_mode is Fast,
        r.security_smt_timeout_ms == 250,
{
}

/// A build is cached under the digest of the path followed by the revision, or by the manifest where
/// there is none.
pub proof fn builds_are_cached_by_state(
    path: &str,
    revision: &str,
    manifest: &str,
    with: String,
    without: String,
)
    requires
        call_ensures(cache_key, (path, Some(revision), manifest), with),
        call_ensures(cache_key, (path, None, manifest), without),
    ensures
        with@ == hex_bytes(sha256_spec(encode_utf8(path@) + encode_utf8(revision@))),
        without@ == hex_bytes(sha256_spec(encode_utf8(path@) + encode_utf8(manifest@))),
        with@.len() == 64,
        without@.len() == 64,
{
}

/// The revision is what the version control tool printed, without the white space around it, and
/// there is none where the tool failed or printed no text.
pub proof fn revisions_come_from_the_tool(success: bool, output: Option<&str>, r: Option<String>)
    requires
        call_ensures(revision_from_output, (success, output), r),
    ensures
        r is Some <==> success && output is Some,
        r is Some ==> r->0@ == trim_end(trim_start(output->0@)),
{
}

proof fn lemma_file_from(files: Seq<SourceFile>, hash: U256, from: nat)
    requires
        from <= files.len(),
    ensures
        match file_from(files, hash, from) {
            Some(i) => from <= i < files.len() && files[i].file_hash == hash && forall|k: int|
                from <= k < i ==> (#[trigger] files[k]).file_hash != hash,
            None => forall|k: int|
                from <= k < files.len() ==> (#[trigger] files[k]).file_hash != hash,
        },
    decreases files.len() - from,
{
    if from < files.len() && files[from as int].file_hash != hash {
        lemma_file_from(files, hash, from + 1);
    }
}

/// A finding belongs to the package of the first file that has the hash of its place.
pub proof fn findings_belong_to_their_file(analysis: PackageSecurityAnalysis, loc: Loc, i: int)
    requires
        0 <= i < analysis.files@.len(),
        analysis.files@[i].file_hash == loc.file_hash,
        forall|k: int|
            0 <= k < i ==> (#[trigger] analysis.files@[k]).file_hash != loc.file_hash,
    ensures
        analysis.scope_of(loc) == classify_spec(
            analysis.scope_roots@,
            analysis.files@[i].path@,
        ),
{
    lemma_file_from(analysis.files@, loc.file_hash, 0);
}

/// A finding in a file that is not known belongs to no known package.
pub proof fn findings_elsewhere_belong_nowhere(analysis: PackageSecurityAnalysis, loc: Loc)
    requires
        forall|k: int|
            0 <= k < analysis.files@.len() ==> (#[trigger] analysis.files@[k]).file_hash
                != loc.file_hash,
    ensures
        analysis.scope_of(loc) is Unknown,
{
    lemma_file_from(analysis.files@, loc.file_hash, 0);
}

/// How the options of an analysis are shown.
pub proof fn options_are_labelled(
    scope: AnalysisScope,
    mode: DependencyMode,
    math: SecurityMathMode,
    s: &'static str,
    m: &'static str,
    d: &'static str,
)
    requires
        call_ensures(analysis_scope_label, (scope,), s),
        call_ensures(dependency_mode_label, (mode,), m),
        call_ensures(math_mode_label, (math,), d),
    ensures
        scope is RootOnly ==> s@ == "root"@,
        scope is RootAndDirectDeps ==> s@ == "direct"@,
        scope is WholeGraph ==> s@ == "all"@,
        mode is Off ==> m@ == "off"@,
        mode is Auto ==> m@ == "auto"@,
        mode is Forced ==> m@ == "forced"@,
        math is Fast ==> d@ == "fast"@,
        math is Deep ==> d@ == "deep"@,
{
}

/// How grave diagnostics are called.
pub proof fn severities_are_called_by_name(severity: Severity)
    ensures
        severity is Note ==> severity.name_spec() == "Note"@,
        severity is Warning ==> severity.name_spec() == "Warning"@,
        severity is NonblockingError ==> severity.name_spec() == "NonblockingError"@,
        severity is BlockingError ==> severity.name_spec() == "BlockingError"@,
        severity is Bug ==> severity.name_spec() == "Bug"@,
{
}

/// The row of a finding says where it stands, in which package, how grave it is, by which rule, and
/// what is wrong; its text holds these in this order.
pub proof fn rows_say_what_was_found(
    file: &str,
    line_number: usize,
    scope: PackageSourceScope,
    finding: &SecurityFinding,
    r: Row,
    text: String,
)
    requires
        call_ensures(row, (file, line_number, scope, finding), r),
        call_ensures(row_text, (&r,), text),
    ensures
        r@.file == file@,
        r@.line == line_number,
        r@.scope == scope.label_spec(),
        r@.severity == finding.severity.name_spec(),
        r@.rule == finding.kind.rule_id_spec(),
        r@.message == finding.message@,
        text@ == file@ + " | "@ + decimal(line_number as nat) + " | "@ + scope.label_spec()
            + " | "@ + finding.severity.name_spec() + " | "@ + finding.kind.rule_id_spec()
            + " | "@ + finding.message@,
{
}

/// Rows are ordered by file, then by line, then by rule.
pub proof fn rows_are_ordered_by_place(a: RowView, b: RowView)
    ensures
        a.file != b.file ==> (row_before_spec(a, b) <==> text_before(a.file, b.file)),
        a.file == b.file && a.line < b.line ==> row_before_spec(a, b) && !row_before_spec(b, a),
        a.file == b.file && a.line == b.line ==> (row_before_spec(a, b) <==> text_before(
            a.rule,
            b.rule,
        )),
{
}

/// A function that is not native has a body, which is found as it is.
pub proof fn bodies_are_found<'a>(
    f: &'a Function,
    body: Option<&'a Body>,
    graph: Option<(usize, &'a Vec<Block>)>,
)
    requires
        call_ensures(build_cfg, (f,), body),
        call_ensures(function_cfg, (f,), graph),
    ensures
        f.body is Native ==> body is None && graph is None,
        f.body is Defined ==> body is Some && *body->0 == f.body->Defined_0 && match graph {
            Some((start, blocks)) => start == f.body->Defined_0.start && *blocks
                == f.body->Defined_0.blocks,
            None => false,
        },
{
}

} // verus!
