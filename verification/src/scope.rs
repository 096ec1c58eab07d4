//! Packages: which of them a source file belongs to, and which are analyzed.

use crate::ast::SourcePath;
use crate::model::{dup_all, holds, views, Dup};
use crate::options::AnalysisScope;
use vstd::prelude::*;

verus! {

impl View for SourcePath {
    type V = Seq<Seq<char>>;

    open spec fn view(&self) -> Seq<Seq<char>> {
        views(self.components@)
    }
}

impl Dup for SourcePath {
    fn dup(&self) -> (r: Self) {
        SourcePath { components: dup_all(&self.components) }
    }
}

/// Whether a path is `root` or lies under it.
pub open spec fn starts_with_spec(path: Seq<Seq<char>>, root: Seq<Seq<char>>) -> bool {
    root.len() <= path.len() && path.take(root.len() as int) == root
}

pub fn starts_with(path: &SourcePath, root: &SourcePath) -> (r: bool)
    ensures
        r == starts_with_spec(path@, root@),
{
    if root.components.len() > path.components.len() {
        return false;
    }
    let mut i: usize = 0;
    while i < root.components.len()
        invariant
            i <= root.components@.len(),
            root.components@.len() <= path.components@.len(),
            forall|j: int| 0 <= j < i ==> path@[j] == root@[j],
        decreases root.components@.len() - i,
    {
        if path.components[i] != root.components[i] {
            assert(path@[i as int] != root@[i as int]);
            assert(path@.take(root@.len() as int)[i as int] == path@[i as int]);
            return false;
        }
        i = i + 1;
    }
    assert(path@.take(root@.len() as int) =~= root@);
    true
}

/// Whether a path lies under one of the roots.
pub open spec fn in_scope_spec(path: Seq<Seq<char>>, roots: Seq<Seq<Seq<char>>>) -> bool {
    exists|i: int| 0 <= i < roots.len() && starts_with_spec(path, #[trigger] roots[i])
}

pub fn path_in_scope(path: &SourcePath, allowed_roots: &Vec<SourcePath>) -> (r: bool)
    ensures
        r == in_scope_spec(path@, views(allowed_roots@)),
{
    let mut i: usize = 0;
    while i < allowed_roots.len()
        invariant
            i <= allowed_roots@.len(),
            forall|j: int|
                0 <= j < i ==> !starts_with_spec(path@, #[trigger] views(allowed_roots@)[j]),
        decreases allowed_roots@.len() - i,
    {
        if starts_with(path, &allowed_roots[i]) {
            assert(starts_with_spec(path@, views(allowed_roots@)[i as int]));
            return true;
        }
        assert(!starts_with_spec(path@, views(allowed_roots@)[i as int]));
        i = i + 1;
    }
    false
}

/// How a package stands to the one that is analyzed.
#[derive(Clone, Copy, Debug, PartialEq, Eq, Structural)]
pub enum PackageSourceScope {
    RootPackage,
    DirectDependency,
    TransitiveDependency,
    Unknown,
}

impl PackageSourceScope {
    /// The name of the scope.
    pub open spec fn label_spec(self) -> Seq<char> {
        match self {
            PackageSourceScope::RootPackage => "root"@,
            PackageSourceScope::DirectDependency => "direct-dependency"@,
            PackageSourceScope::TransitiveDependency => "transitive-dependency"@,
            PackageSourceScope::Unknown => "unknown"@,
        }
    }

    pub fn label(self) -> (r: &'static str)
        ensures
            r@ == self.label_spec(),
    {
        match self {
            PackageSourceScope::RootPackage => "root",
            PackageSourceScope::DirectDependency => "direct-dependency",
            PackageSourceScope::TransitiveDependency => "transitive-dependency",
            PackageSourceScope::Unknown => "unknown",
        }
    }
}

/// The directory of a package, and how the package stands to the one that is analyzed.
#[derive(Clone, Debug, PartialEq, Eq)]
pub struct ScopeRoot {
    pub path: SourcePath,
    pub scope: PackageSourceScope,
}

#[verifier::ext_equal]
pub struct ScopeRootView {
    pub path: Seq<Seq<char>>,
    pub scope: PackageSourceScope,
}

impl View for ScopeRoot {
    type V = ScopeRootView;

    open spec fn view(&self) -> ScopeRootView {
        ScopeRootView { path: self.path@, scope: self.scope }
    }
}

/// The directories of all packages.
#[derive(Clone, Debug, PartialEq, Eq)]
pub struct PackageScopeRoots {
    pub roots: Vec<ScopeRoot>,
}

impl View for PackageScopeRoots {
    type V = Seq<ScopeRootView>;

    open spec fn view(&self) -> Seq<ScopeRootView> {
        views(self.roots@)
    }
}

/// Whether packages that stand like this to the analyzed one are analyzed too.
pub open spec fn covers(analysis: AnalysisScope, scope: PackageSourceScope) -> bool {
    match analysis {
        AnalysisScope::WholeGraph => true,
        AnalysisScope::RootOnly => scope is RootPackage,
        AnalysisScope::RootAndDirectDeps => scope is RootPackage || scope is DirectDependency,
    }
}

/// The directories, among the first `n`, of the packages that are analyzed.
pub open spec fn covered_roots(
    roots: Seq<ScopeRootView>,
    analysis: AnalysisScope,
    n: nat,
) -> Seq<Seq<Seq<char>>>
    decreases n,
{
    if n == 0 || n > roots.len() {
        Seq::empty()
    } else {
        let before = covered_roots(roots, analysis, (n - 1) as nat);
        if covers(analysis, roots[n - 1].scope) {
            before.push(roots[n - 1].path)
        } else {
            before
        }
    }
}

/// The deepest of the first `n` directories that the path lies under, and the last of several.
pub open spec fn deepest_root(roots: Seq<ScopeRootView>, path: Seq<Seq<char>>, n: nat) -> Option<
    int,
>
    decreases n,
{
    if n == 0 || n > roots.len() {
        None
    } else {
        let before = deepest_root(roots, path, (n - 1) as nat);
        if starts_with_spec(path, roots[n - 1].path) && (before is None || roots[before->0].path.len()
            <= roots[n - 1].path.len()) {
            Some(n - 1)
        } else {
            before
        }
    }
}

pub open spec fn classify_spec(roots: Seq<ScopeRootView>, path: Seq<Seq<char>>) -> PackageSourceScope {
    match deepest_root(roots, path, roots.len()) {
        Some(i) => roots[i].scope,
        None => PackageSourceScope::Unknown,
    }
}

impl PackageScopeRoots {
    pub fn new(roots: Vec<ScopeRoot>) -> (r: Self)
        ensures
            r@ == views(roots@),
    {
        PackageScopeRoots { roots }
    }

    /// The directories of the packages that are analyzed; none where all are.
    pub fn scope_roots(&self, scope: AnalysisScope) -> (r: Option<Vec<SourcePath>>)
        ensures
            match r {
                Some(paths) => scope !is WholeGraph && views(paths@) == covered_roots(
                    self@,
                    scope,
                    self@.len(),
                ),
                None => scope is WholeGraph,
            },
    {
        if scope == AnalysisScope::WholeGraph {
            return None;
        }
        let mut paths: Vec<SourcePath> = Vec::new();
        let mut i: usize = 0;
        assert(views(paths@) =~= covered_roots(self@, scope, 0));
        while i < self.roots.len()
            invariant
                i <= self.roots@.len(),
                scope !is WholeGraph,
                views(paths@) == covered_roots(self@, scope, i as nat),
            decreases self.roots@.len() - i,
        {
            let ghost start = paths@;
            let kind: PackageSourceScope = self.roots[i].scope;
            let covered: bool = match scope {
                AnalysisScope::WholeGraph => true,
                AnalysisScope::RootOnly => kind == PackageSourceScope::RootPackage,
                AnalysisScope::RootAndDirectDeps => kind == PackageSourceScope::RootPackage || kind
                    == PackageSourceScope::DirectDependency,
            };
            if covered {
                paths.push(self.roots[i].path.dup());
                assert(views(paths@) =~= views(start).push(self@[i as int].path));
            }
            i = i + 1;
        }
        Some(paths)
    }

    /// How the package of a file, given by its canonical path, stands to the one that is analyzed.
    pub fn classify_path(&self, path: &SourcePath) -> (r: PackageSourceScope)
        ensures
            r == classify_spec(self@, path@),
    {
        let mut best: Option<usize> = None;
        let mut i: usize = 0;
        while i < self.roots.len()
            invariant
                i <= self.roots@.len(),
                match best {
                    Some(k) => k < i && deepest_root(self@, path@, i as nat) == Some(k as int),
                    None => deepest_root(self@, path@, i as nat) is None,
                },
            decreases self.roots@.len() - i,
        {
            if starts_with(path, &self.roots[i].path) {
                let deeper: bool = match best {
                    Some(k) => self.roots[k].path.components.len()
                        <= self.roots[i].path.components.len(),
                    None => true,
                };
                if deeper {
                    best = Some(i);
                }
            }
            i = i + 1;
        }
        match best {
            Some(k) => self.roots[k].scope,
            None => PackageSourceScope::Unknown,
        }
    }
}

/// A package of a resolved dependency graph.
#[derive(Clone, Debug)]
pub struct PackageEntry {
    pub name: String,
    pub path: SourcePath,
}

#[verifier::ext_equal]
pub struct PackageEntryView {
    pub name: Seq<char>,
    pub path: Seq<Seq<char>>,
}

impl View for PackageEntry {
    type V = PackageEntryView;

    open spec fn view(&self) -> PackageEntryView {
        PackageEntryView { name: self.name@, path: self.path@ }
    }
}

/// The directories of the root package and of the first `n` packages of the graph.
pub open spec fn roots_of_graph(
    root: PackageEntryView,
    packages: Seq<PackageEntryView>,
    direct: Seq<Seq<char>>,
    n: nat,
) -> Seq<ScopeRootView>
    decreases n,
{
    if n == 0 || n > packages.len() {
        seq![ScopeRootView { path: root.path, scope: PackageSourceScope::RootPackage }]
    } else {
        let before = roots_of_graph(root, packages, direct, (n - 1) as nat);
        let package = packages[n - 1];
        if package.name == root.name {
            before
        } else {
            before.push(
                ScopeRootView {
                    path: package.path,
                    scope: if direct.contains(package.name) {
                        PackageSourceScope::DirectDependency
                    } else {
                        PackageSourceScope::TransitiveDependency
                    },
                },
            )
        }
    }
}

/// The directories of all packages of a dependency graph, given the root package and the names
/// of its direct dependencies.
pub fn scope_roots_from_graph(
    root: &PackageEntry,
    packages: &Vec<PackageEntry>,
    direct: &Vec<String>,
) -> (r: PackageScopeRoots)
    ensures
        r@ == roots_of_graph(root@, views(packages@), views(direct@), packages@.len()),
{
    let ghost all = views(packages@);
    let mut roots: Vec<ScopeRoot> = Vec::new();
    let first = ScopeRoot { path: root.path.dup(), scope: PackageSourceScope::RootPackage };
    roots.push(first);
    let mut i: usize = 0;
    assert(views(roots@) =~= roots_of_graph(root@, all, views(direct@), 0));
    while i < packages.len()
        invariant
            i <= packages@.len(),
            all == views(packages@),
            views(roots@) == roots_of_graph(root@, all, views(direct@), i as nat),
        decreases packages@.len() - i,
    {
        let ghost start = roots@;
        if packages[i].name != root.name {
            let scope: PackageSourceScope = if holds(direct, &packages[i].name) {
                PackageSourceScope::DirectDependency
            } else {
                PackageSourceScope::TransitiveDependency
            };
            let entry = ScopeRoot { path: packages[i].path.dup(), scope };
            roots.push(entry);
            assert(views(roots@) =~= views(start).push(entry@));
        }
        i = i + 1;
    }
    PackageScopeRoots::new(roots)
}

proof fn lemma_deepest(roots: Seq<ScopeRootView>, path: Seq<Seq<char>>, n: nat, j: int)
    requires
        n <= roots.len(),
        0 <= j < n,
        starts_with_spec(path, roots[j].path),
    ensures
        ({
            let best = deepest_root(roots, path, n);
            &&& best is Some
            &&& 0 <= best->0 < n
            &&& starts_with_spec(path, roots[best->0].path)
            &&& roots[j].path.len() <= roots[best->0].path.len()
            &&& roots[j].path.len() == roots[best->0].path.len() ==> j <= best->0
        }),
    decreases n,
{
    let before = deepest_root(roots, path, (n - 1) as nat);
    if j < n - 1 {
        lemma_deepest(roots, path, (n - 1) as nat, j);
    } else if before is Some {
        lemma_deepest_is_root(roots, path, (n - 1) as nat);
    }
}

proof fn lemma_deepest_is_root(roots: Seq<ScopeRootView>, path: Seq<Seq<char>>, n: nat)
    requires
        n <= roots.len(),
        deepest_root(roots, path, n) is Some,
    ensures
        0 <= deepest_root(roots, path, n)->0 < n,
        starts_with_spec(path, roots[deepest_root(roots, path, n)->0].path),
    decreases n,
{
    if n > 0 && deepest_root(roots, path, (n - 1) as nat) is Some {
        lemma_deepest_is_root(roots, path, (n - 1) as nat);
    }
}

/// A file belongs to the innermost package whose directory holds it: no directory that holds it
/// is deeper than the one that decides, and of two equally deep ones the later decides. It is
/// unknown exactly where no directory holds it, as far as no package is registered as unknown.
pub proof fn innermost_package_decides(roots: Seq<ScopeRootView>, path: Seq<Seq<char>>, j: int)
    requires
        0 <= j < roots.len(),
        starts_with_spec(path, roots[j].path),
    ensures
        exists|i: int|
            0 <= i < roots.len() && starts_with_spec(path, #[trigger] roots[i].path)
                && classify_spec(roots, path) == roots[i].scope && roots[j].path.len()
                <= roots[i].path.len() && (roots[j].path.len() == roots[i].path.len() ==> j <= i),
{
    lemma_deepest(roots, path, roots.len(), j);
    let i = deepest_root(roots, path, roots.len())->0;
    assert(starts_with_spec(path, roots[i].path));
}

proof fn lemma_covered(
    roots: Seq<ScopeRootView>,
    analysis: AnalysisScope,
    n: nat,
    path: Seq<Seq<char>>,
)
    requires
        n <= roots.len(),
    ensures
        in_scope_spec(path, covered_roots(roots, analysis, n)) <==> exists|i: int|
            0 <= i < n && covers(analysis, roots[i].scope) && starts_with_spec(
                path,
                #[trigger] roots[i].path,
            ),
    decreases n,
{
    let all = covered_roots(roots, analysis, n);
    if n > 0 {
        let before = covered_roots(roots, analysis, (n - 1) as nat);
        lemma_covered(roots, analysis, (n - 1) as nat, path);
        let last = roots[n - 1];
        if in_scope_spec(path, all) {
            let k = choose|k: int| 0 <= k < all.len() && starts_with_spec(path, #[trigger] all[k]);
            if k < before.len() {
                assert(before[k] == all[k]);
                assert(in_scope_spec(path, before));
            } else {
                assert(starts_with_spec(path, roots[n - 1].path));
            }
        }
        if exists|i: int|
            0 <= i < n && covers(analysis, roots[i].scope) && starts_with_spec(
                path,
                #[trigger] roots[i].path,
            ) {
            let i = choose|i: int|
                0 <= i < n && covers(analysis, roots[i].scope) && starts_with_spec(
                    path,
                    #[trigger] roots[i].path,
                );
            if i == n - 1 {
                assert(all[before.len() as int] == last.path);
            } else {
                assert(starts_with_spec(path, roots[i].path));
                assert(in_scope_spec(path, before));
                let k = choose|k: int|
                    0 <= k < before.len() && starts_with_spec(path, #[trigger] before[k]);
                assert(all[k] == before[k]);
            }
        }
    }
}

/// A file is analyzed under a scope exactly where it lies in a package that the scope covers;
/// so whatever a narrower scope takes in, a wider one does too.
pub proof fn wider_scopes_take_in_more(roots: Seq<ScopeRootView>, path: Seq<Seq<char>>)
    ensures
        in_scope_spec(path, covered_roots(roots, AnalysisScope::RootOnly, roots.len()))
            ==> in_scope_spec(
            path,
            covered_roots(roots, AnalysisScope::RootAndDirectDeps, roots.len()),
        ),
        in_scope_spec(path, covered_roots(roots, AnalysisScope::RootOnly, roots.len())) <==> (
        exists|i: int|
            0 <= i < roots.len() && roots[i].scope is RootPackage && starts_with_spec(
                path,
                #[trigger] roots[i].path,
            )),
        in_scope_spec(path, covered_roots(roots, AnalysisScope::RootAndDirectDeps, roots.len()))
            <==> (exists|i: int|
            0 <= i < roots.len() && (roots[i].scope is RootPackage
                || roots[i].scope is DirectDependency) && starts_with_spec(
                path,
                #[trigger] roots[i].path,
            )),
{
    lemma_covered(roots, AnalysisScope::RootOnly, roots.len(), path);
    lemma_covered(roots, AnalysisScope::RootAndDirectDeps, roots.len(), path);
    if exists|i: int|
        0 <= i < roots.len() && roots[i].scope is RootPackage && starts_with_spec(
            path,
            #[trigger] roots[i].path,
        ) {
        let i = choose|i: int|
            0 <= i < roots.len() && roots[i].scope is RootPackage && starts_with_spec(
                path,
                #[trigger] roots[i].path,
            );
        assert(starts_with_spec(path, roots[i].path));
    }
}

} // verus!
