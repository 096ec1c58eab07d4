//! Packages: how an analysis of one is set up, retried and cached.

use crate::ast::{Loc, SourcePath};
use crate::options::{AnalysisScope, DependencyMode, PackageAnalysisOptions, SecurityMathMode};
use crate::report::SecurityFinding;
use crate::scope::{classify_spec, PackageScopeRoots, PackageSourceScope};
use crate::text::{
    contains, contains_text, hex_bytes, lower, to_lower, trim, trim_end, trim_start,
    write_hex_bytes,
};
use crate::u256::U256;
use sha2::{Digest, Sha256};
use vstd::prelude::*;
use vstd::utf8::encode_utf8;

verus! {

/// Whether an error is that the framework is missing.
pub open spec fn missing_framework(error_text: Seq<char>) -> bool {
    let text = lower(error_text);
    ||| (contains_text(text, "address 'std'"@) || contains_text(text, "address 'sui'"@)) && (
    contains_text(text, "not assigned"@) || contains_text(text, "unresolved addresses"@))
    ||| contains_text(text, "unbound module"@) && (contains_text(text, "std::"@) || contains_text(
        text,
        "sui::"@,
    ))
}

/// Whether an analysis that failed is tried again with the framework dependencies.
pub fn should_retry_with_implicit_deps(error_text: &str) -> (r: bool)
    ensures
        r == missing_framework(error_text@),
{
    let lowered: String = to_lower(error_text);
    let text: &str = lowered.as_str();
    let missing_address: bool = (contains(text, "address 'std'") || contains(
        text,
        "address 'sui'",
    )) && (contains(text, "not assigned") || contains(text, "unresolved addresses"));
    let missing_module: bool = contains(text, "unbound module") && (contains(text, "std::")
        || contains(text, "sui::"));
    missing_address || missing_module
}

/// One attempt at an analysis: with the framework dependencies added, or without.
#[derive(Clone, Copy, Debug, PartialEq, Eq, Structural)]
pub enum Attempt {
    Plain,
    WithImplicitDeps,
}

/// The first attempt at an analysis.
pub fn first_attempt(mode: DependencyMode) -> (r: Attempt)
    ensures
        r == (if mode is Forced {
            Attempt::WithImplicitDeps
        } else {
            Attempt::Plain
        }),
{
    match mode {
        DependencyMode::Off => Attempt::Plain,
        DependencyMode::Forced => Attempt::WithImplicitDeps,
        DependencyMode::Auto => Attempt::Plain,
    }
}

/// The second attempt, where there is one, after the first failed. The error of the first attempt
/// stands when the second fails too.
pub fn second_attempt(mode: DependencyMode, first_error: &str) -> (r: Option<Attempt>)
    ensures
        r == (if mode is Auto && missing_framework(first_error@) {
            Some(Attempt::WithImplicitDeps)
        } else {
            None
        }),
{
    if mode == DependencyMode::Auto && should_retry_with_implicit_deps(first_error) {
        Some(Attempt::WithImplicitDeps)
    } else {
        None
    }
}

/// What an analysis comes to after its second attempt: where that fails too, the error is the
/// first attempt's.
pub fn after_second_attempt<T, E>(first_error: E, second: Result<T, E>) -> (r: Result<T, E>)
    ensures
        r == (match second {
            Ok(analysis) => Ok(analysis),
            Err(_) => Err(first_error),
        }),
{
    match second {
        Ok(analysis) => Ok(analysis),
        Err(_) => Err(first_error),
    }
}

/// The options of an analysis of the whole graph, given whether framework dependencies are added.
pub fn whole_graph_options(has_implicit_deps: bool) -> (r: PackageAnalysisOptions)
    ensures
        r == (PackageAnalysisOptions {
            dependency_mode: if has_implicit_deps {
                DependencyMode::Forced
            } else {
                DependencyMode::Off
            },
            analysis_scope: AnalysisScope::WholeGraph,
            reuse_build_cache: false,
            security_math_mode: SecurityMathMode::Fast,
            security_smt_timeout_ms: 250,
        }),
{
    PackageAnalysisOptions {
        dependency_mode: if has_implicit_deps {
            DependencyMode::Forced
        } else {
            DependencyMode::Off
        },
        analysis_scope: AnalysisScope::WholeGraph,
        reuse_build_cache: false,
        security_math_mode: SecurityMathMode::Fast,
        security_smt_timeout_ms: 250,
    }
}

/// The SHA-256 digest of some bytes.
pub uninterp spec fn sha256_spec(data: Seq<u8>) -> Seq<u8>;

/// `Sha256::digest` of the crate `sha2`: the digest of the bytes, as 32 bytes. What the digest is
/// is left to the crate; it depends on the bytes alone.
#[verifier::external_body]
fn sha256(data: &Vec<u8>) -> (r: Vec<u8>)
    ensures
        r@ == sha256_spec(data@),
        r@.len() == 32,
{
    Sha256::digest(data).to_vec()
}

/// What tells one state of a package from another: its path, and its revision or else its
/// manifest.
pub open spec fn fingerprint_spec(
    canonical: Seq<char>,
    revision: Option<Seq<char>>,
    manifest: Seq<char>,
) -> Seq<u8> {
    encode_utf8(canonical) + encode_utf8(
        match revision {
            Some(revision) => revision,
            None => manifest,
        },
    )
}

fn append_bytes(bytes: &mut Vec<u8>, text: &str)
    ensures
        final(bytes)@ == old(bytes)@ + encode_utf8(text@),
{
    let more: &[u8] = text.as_bytes();
    let mut i: usize = 0;
    while i < more.len()
        invariant
            i <= more@.len(),
            bytes@ =~= old(bytes)@ + more@.take(i as int),
        decreases more@.len() - i,
    {
        bytes.push(more[i]);
        i = i + 1;
    }
    assert(more@.take(i as int) =~= more@);
}

pub fn fingerprint(canonical: &str, revision: Option<&str>, manifest: &str) -> (r: Vec<u8>)
    ensures
        r@ == fingerprint_spec(
            canonical@,
            match revision {
                Some(revision) => Some(revision@),
                None => None,
            },
            manifest@,
        ),
{
    let mut bytes: Vec<u8> = Vec::new();
    append_bytes(&mut bytes, canonical);
    assert(Seq::<u8>::empty() + encode_utf8(canonical@) =~= encode_utf8(canonical@));
    match revision {
        Some(revision) => append_bytes(&mut bytes, revision),
        None => append_bytes(&mut bytes, manifest),
    }
    bytes
}

/// The name of the directory that a digest stands for: its hexadecimal digits.
pub fn key_of_digest(digest: &Vec<u8>) -> (r: String)
    ensures
        r@ == hex_bytes(digest@),
{
    write_hex_bytes(digest)
}

/// The name of the directory where the build of a package is cached.
pub fn cache_key(canonical: &str, revision: Option<&str>, manifest: &str) -> (r: String)
    ensures
        r@ == hex_bytes(
            sha256_spec(
                fingerprint_spec(
                    canonical@,
                    match revision {
                        Some(revision) => Some(revision@),
                        None => None,
                    },
                    manifest@,
                ),
            ),
        ),
        r@.len() == 64,
{
    let bytes: Vec<u8> = fingerprint(canonical, revision, manifest);
    let digest: Vec<u8> = sha256(&bytes);
    proof {
        lemma_hex_length(digest@);
    }
    key_of_digest(&digest)
}

proof fn lemma_hex_length(bytes: Seq<u8>)
    ensures
        hex_bytes(bytes).len() == 2 * bytes.len(),
    decreases bytes.len(),
{
    if bytes.len() > 0 {
        lemma_hex_length(bytes.drop_last());
    }
}

/// The revision of a working copy, from what the version control tool printed: none where the
/// tool failed or printed no text.
pub fn revision_from_output(success: bool, output: Option<&str>) -> (r: Option<String>)
    ensures
        match r {
            Some(revision) => success && output is Some && revision@ == trim_end(
                trim_start(output->0@),
            ),
            None => !success || output is None,
        },
{
    if !success {
        return None;
    }
    match output {
        Some(text) => Some(trim(text)),
        None => None,
    }
}

/// How long each phase of an analysis took, in nanoseconds.
#[derive(Clone, Copy, Debug, PartialEq, Eq, Structural)]
pub struct PackageAnalysisMetrics {
    pub resolution: u128,
    pub parse: u128,
    pub typing: u128,
    pub cfgir: u128,
    pub finding_pass: u128,
    pub total: u128,
}

impl Default for PackageAnalysisMetrics {
    fn default() -> (r: Self)
        ensures
            r == (PackageAnalysisMetrics {
                resolution: 0,
                parse: 0,
                typing: 0,
                cfgir: 0,
                finding_pass: 0,
                total: 0,
            }),
    {
        PackageAnalysisMetrics {
            resolution: 0,
            parse: 0,
            typing: 0,
            cfgir: 0,
            finding_pass: 0,
            total: 0,
        }
    }
}

/// A source file: the hash of its contents, and its canonical path.
#[derive(Clone, Debug)]
pub struct SourceFile {
    pub file_hash: U256,
    pub path: SourcePath,
}

/// The first file of this hash from `from` on.
pub open spec fn file_from(files: Seq<SourceFile>, hash: U256, from: nat) -> Option<int>
    decreases files.len() - from,
{
    if from >= files.len() {
        None
    } else if files[from as int].file_hash == hash {
        Some(from as int)
    } else {
        file_from(files, hash, from + 1)
    }
}

/// The analysis of a package.
pub struct PackageSecurityAnalysis {
    pub findings: Vec<SecurityFinding>,
    pub files: Vec<SourceFile>,
    pub install_dir: SourcePath,
    pub scope_roots: PackageScopeRoots,
    pub metrics: PackageAnalysisMetrics,
}

impl PackageSecurityAnalysis {
    /// How the package that holds this place stands to the analyzed one.
    pub open spec fn scope_of(self, loc: Loc) -> PackageSourceScope {
        match file_from(self.files@, loc.file_hash, 0) {
            Some(i) => classify_spec(self.scope_roots@, self.files@[i].path@),
            None => PackageSourceScope::Unknown,
        }
    }

    /// The scope of a finding, which lies in one of the files.
    pub fn finding_scope(&self, finding: &SecurityFinding) -> (r: PackageSourceScope)
        requires
            file_from(self.files@, finding.loc.file_hash, 0) is Some,
        ensures
            r == self.scope_of(finding.loc),
    {
        let hash: U256 = finding.loc.file_hash;
        let mut i: usize = 0;
        while i < self.files.len()
            invariant
                i <= self.files@.len(),
                hash == finding.loc.file_hash,
                file_from(self.files@, hash, 0) == file_from(self.files@, hash, i as nat),
            decreases self.files@.len() - i,
        {
            if self.files[i].file_hash == hash {
                assert(file_from(self.files@, hash, 0) == Some(i as int));
                return self.scope_roots.classify_path(&self.files[i].path);
            }
            i = i + 1;
        }
        PackageSourceScope::Unknown
    }
}

/// Two packages at the same path with the same revision share a cache directory, whatever their
/// manifests say.
pub proof fn revision_decides_the_cache(
    canonical: Seq<char>,
    revision: Seq<char>,
    manifest: Seq<char>,
    other: Seq<char>,
)
    ensures
        fingerprint_spec(canonical, Some(revision), manifest) == fingerprint_spec(
            canonical,
            Some(revision),
            other,
        ),
{
}

} // verus!
