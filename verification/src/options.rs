//! How an analysis is run.

use vstd::prelude::*;

verus! {

/// Whether the framework dependencies are added to a package.
#[derive(Clone, Copy, Debug, PartialEq, Eq, Structural)]
pub enum DependencyMode {
    Off,
    Auto,
    Forced,
}

/// The packages whose functions are analyzed.
#[derive(Clone, Copy, Debug, PartialEq, Eq, Structural)]
pub enum AnalysisScope {
    RootOnly,
    RootAndDirectDeps,
    WholeGraph,
}

/// How much is asked of denominators.
#[derive(Clone, Copy, Debug, PartialEq, Eq, Structural)]
pub enum SecurityMathMode {
    Fast,
    Deep,
}

#[derive(Clone, Copy, Debug, PartialEq, Eq, Structural)]
pub struct PackageAnalysisOptions {
    pub dependency_mode: DependencyMode,
    pub analysis_scope: AnalysisScope,
    pub reuse_build_cache: bool,
    pub security_math_mode: SecurityMathMode,
    pub security_smt_timeout_ms: u64,
}

impl PackageAnalysisOptions {
    pub open spec fn default_spec() -> PackageAnalysisOptions {
        PackageAnalysisOptions {
            dependency_mode: DependencyMode::Auto,
            analysis_scope: AnalysisScope::RootAndDirectDeps,
            reuse_build_cache: true,
            security_math_mode: SecurityMathMode::Fast,
            security_smt_timeout_ms: 250,
        }
    }
}

impl Default for PackageAnalysisOptions {
    fn default() -> (r: Self)
        ensures
            r == Self::default_spec(),
    {
        PackageAnalysisOptions {
            dependency_mode: DependencyMode::Auto,
            analysis_scope: AnalysisScope::RootAndDirectDeps,
            reuse_build_cache: true,
            security_math_mode: SecurityMathMode::Fast,
            security_smt_timeout_ms: 250,
        }
    }
}

} // verus!
