//! Scopes: which files belong to which package.

use crate::scope::{
    roots_of_graph, starts_with_spec, PackageEntryView, PackageSourceScope, ScopeRootView,
};
use vstd::prelude::*;

verus! {

/// Whether a path is a directory or lies under it: the components of the directory come first.
pub open spec fn lies_under(path: Seq<Seq<char>>, root: Seq<Seq<char>>) -> bool {
    &&& root.len() <= path.len()
    &&& forall|i: int| 0 <= i < root.len() ==> #[trigger] path[i] == root[i]
}

/// Paths are compared component by component.
pub proof fn paths_lie_under_by_component(path: Seq<Seq<char>>, root: Seq<Seq<char>>)
    ensures
        starts_with_spec(path, root) <==> lies_under(path, root),
{
    if root.len() <= path.len() {
        let first = path.take(root.len() as int);
        if starts_with_spec(path, root) {
            assert forall|i: int| 0 <= i < root.len() implies #[trigger] path[i] == root[i] by {
                assert(first[i] == path[i]);
            }
        }
        if lies_under(path, root) {
            assert(first =~= root);
        }
    }
}

/// How packages stand to the one that is analyzed, as it is shown.
pub proof fn scopes_are_labelled(scope: PackageSourceScope)
    ensures
        scope is RootPackage ==> scope.label_spec() == "root"@,
        scope is DirectDependency ==> scope.label_spec() == "direct-dependency"@,
        scope is TransitiveDependency ==> scope.label_spec() == "transitive-dependency"@,
        scope is Unknown ==> scope.label_spec() == "unknown"@,
{
}

/// The packages of a graph stand to the analyzed one as they should: it comes first, as the root;
/// every other package is a direct dependency where it is named as one, and a transitive one where
/// it is not; and no directory comes from nowhere.
pub proof fn packages_are_registered_by_dependency(
    root: PackageEntryView,
    packages: Seq<PackageEntryView>,
    direct: Seq<Seq<char>>,
    n: nat,
    entry: ScopeRootView,
)
    requires
        n <= packages.len(),
    ensures
        ({
            let roots = roots_of_graph(root, packages, direct, n);
            &&& roots.len() > 0
            &&& roots[0].path == root.path
            &&& roots[0].scope is RootPackage
            &&& roots.skip(1).contains(entry) <==> exists|i: int|
                0 <= i < n && (#[trigger] packages[i]).name != root.name && packages[i].path
                    == entry.path && (direct.contains(packages[i].name)
                    ==> entry.scope is DirectDependency) && (!direct.contains(packages[i].name)
                    ==> entry.scope is TransitiveDependency)
        }),
    decreases n,
{
    let roots = roots_of_graph(root, packages, direct, n);
    if n > 0 {
        let before = roots_of_graph(root, packages, direct, (n - 1) as nat);
        packages_are_registered_by_dependency(root, packages, direct, (n - 1) as nat, entry);
        let package = packages[n - 1];
        if package.name != root.name {
            let last = roots.last();
            assert(roots.skip(1) =~= before.skip(1).push(last));
            if before.skip(1).contains(entry) {
                let k = choose|k: int| 0 <= k < before.skip(1).len() && before.skip(1)[k] == entry;
                assert(roots.skip(1)[k] == entry);
            }
            assert(roots.skip(1)[before.len() - 1] == last);
            if roots.skip(1).contains(entry) && entry != last {
                let k = choose|k: int| 0 <= k < roots.skip(1).len() && roots.skip(1)[k] == entry;
                assert(before.skip(1)[k] == entry);
            }
        }
    } else {
        assert(roots.skip(1).len() == 0);
    }
}

} // verus!
