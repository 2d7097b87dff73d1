//! What holds of every synchronization plan.

use vstd::prelude::*;
use crate::folder_id::{folder_name_of, FolderIdView};
use crate::layout::hoisted_dir;
use crate::links::{
    at_odds, consistent, empty_tables, links_to_make, recorded_all, LinkRequestView, TableRefView,
};
use crate::sync::{
    busted, copies, dep_link, dep_links, exposure_link, exposures, fetches, id_views,
    lemma_second_sync_is_idle, materialized, newest_from, package_ids, package_links,
    packages_links, requests_of, ContentActionView, SyncDependency, SyncPackage, SyncSnapshot,
};

verus! {

/// No two of the packages have the same folder name.
pub open spec fn distinct_folders(packages: Seq<SyncPackage>) -> bool {
    forall|i: int, j: int|
        0 <= i < packages.len() && 0 <= j < packages.len() && i != j ==> folder_name_of(
            (#[trigger] packages[i]).id@,
        ) != folder_name_of((#[trigger] packages[j]).id@)
}

/// No two dependencies of the package are imported under the same name.
pub open spec fn distinct_dependency_names(p: SyncPackage) -> bool {
    forall|i: int, j: int|
        0 <= i < p.dependencies@.len() && 0 <= j < p.dependencies@.len() && i != j ==> (
        #[trigger] p.dependencies@[i]).name@ != (#[trigger] p.dependencies@[j]).name@
}

/// A snapshot is well formed where every package and copy has a folder of
/// its own and names each of its dependencies once.
pub open spec fn snapshot_wf(s: SyncSnapshot) -> bool {
    &&& distinct_folders(s.packages@ + s.copy_packages@)
    &&& forall|i: int|
        0 <= i < (s.packages@ + s.copy_packages@).len() ==> distinct_dependency_names(
            #[trigger] (s.packages@ + s.copy_packages@)[i],
        )
}

/// The request is the link for the dependency at `j` of the package at `i`.
pub open spec fn is_dep_of(
    root: Seq<char>,
    packages: Seq<SyncPackage>,
    i: int,
    j: int,
    r: LinkRequestView,
) -> bool {
    &&& 0 <= i < packages.len()
    &&& 0 <= j < packages[i].dependencies@.len()
    &&& r == dep_link(root, folder_name_of(packages[i].id@), packages[i].dependencies@[j])
}

/// The request opens a table, or is the link for a dependency of one of the packages.
pub open spec fn is_package_request(root: Seq<char>, packages: Seq<SyncPackage>, r: LinkRequestView)
    -> bool {
    r is Open || exists|i: int, j: int| #[trigger] is_dep_of(root, packages, i, j, r)
}

/// The request exposes, in the given table, the newest identity of some name.
pub open spec fn is_exposure(
    root: Seq<char>,
    ids: Seq<FolderIdView>,
    table: TableRefView,
    base: Seq<char>,
    r: LinkRequestView,
) -> bool {
    r is Link && r->table == table && newest_from(ids, r->key, ids.len() as int) is Some
        && r->target_folder == folder_name_of(
        ids[newest_from(ids, r->key, ids.len() as int)->0],
    )
}

proof fn lemma_dep_links_come_from_deps(
    root: Seq<char>,
    folder: Seq<char>,
    deps: Seq<SyncDependency>,
    k: int,
)
    requires
        0 <= k < dep_links(root, folder, deps).len(),
    ensures
        exists|j: int|
            0 <= j < deps.len() && dep_links(root, folder, deps)[k] == dep_link(
                root,
                folder,
                #[trigger] deps[j],
            ),
    decreases deps.len(),
{
    if deps.len() > 0 {
        let before = dep_links(root, folder, deps.drop_last());
        if k < before.len() {
            lemma_dep_links_come_from_deps(root, folder, deps.drop_last(), k);
            let j = choose|j: int|
                0 <= j < deps.drop_last().len() && before[k] == dep_link(
                    root,
                    folder,
                    #[trigger] deps.drop_last()[j],
                );
            assert(deps.drop_last()[j] == deps[j]);
        } else {
            assert(dep_links(root, folder, deps)[k] == dep_link(
                root,
                folder,
                deps[deps.len() - 1],
            ));
        }
    }
}

proof fn lemma_packages_links_are_package_requests(
    root: Seq<char>,
    packages: Seq<SyncPackage>,
    k: int,
)
    requires
        0 <= k < packages_links(root, packages).len(),
    ensures
        is_package_request(root, packages, packages_links(root, packages)[k]),
    decreases packages.len(),
{
    if packages.len() > 0 {
        let before = packages_links(root, packages.drop_last());
        let last = packages.last();
        let r = packages_links(root, packages)[k];
        if k < before.len() {
            lemma_packages_links_are_package_requests(root, packages.drop_last(), k);
            if !(r is Open) {
                let (i, j) = choose|i: int, j: int| #[trigger]
                    is_dep_of(root, packages.drop_last(), i, j, r);
                assert(packages.drop_last()[i] == packages[i]);
                assert(is_dep_of(root, packages, i, j, r));
            }
        } else {
            let at = k - before.len();
            assert(r == package_links(root, last)[at]);
            if at > 0 {
                let folder = folder_name_of(last.id@);
                assert(r == dep_links(root, folder, last.dependencies@)[at - 1]);
                lemma_dep_links_come_from_deps(root, folder, last.dependencies@, at - 1);
                let j = choose|j: int|
                    0 <= j < last.dependencies@.len() && dep_links(
                        root,
                        folder,
                        last.dependencies@,
                    )[at - 1] == dep_link(root, folder, #[trigger] last.dependencies@[j]);
                assert(is_dep_of(root, packages, packages.len() - 1, j, r));
            }
        }
    }
}

proof fn lemma_exposures_are_exposures(
    root: Seq<char>,
    ids: Seq<FolderIdView>,
    hidden: Seq<FolderIdView>,
    table: TableRefView,
    base: Seq<char>,
    n: int,
    k: int,
)
    requires
        0 <= k < exposures(root, ids, hidden, table, base, n).len(),
    ensures
        is_exposure(root, ids, table, base, exposures(root, ids, hidden, table, base, n)[k]),
    decreases n,
{
    if !(n <= 0 || n > ids.len()) {
        let before = exposures(root, ids, hidden, table, base, n - 1);
        if k < before.len() {
            lemma_exposures_are_exposures(root, ids, hidden, table, base, n - 1, k);
        }
    }
}

/// The requests of two lists of packages, one after the other, are the
/// requests of the two lists joined.
proof fn lemma_packages_links_join(
    root: Seq<char>,
    a: Seq<SyncPackage>,
    b: Seq<SyncPackage>,
)
    ensures
        packages_links(root, a) + packages_links(root, b) == packages_links(root, a + b),
    decreases b.len(),
{
    if b.len() == 0 {
        assert(a + b =~= a);
        assert(packages_links(root, a) + packages_links(root, b) =~= packages_links(root, a));
    } else {
        lemma_packages_links_join(root, a, b.drop_last());
        assert((a + b).drop_last() =~= a + b.drop_last());
        assert((a + b).last() == b.last());
        assert(packages_links(root, a) + (packages_links(root, b.drop_last()) + package_links(
            root,
            b.last(),
        )) =~= (packages_links(root, a) + packages_links(root, b.drop_last())) + package_links(
            root,
            b.last(),
        ));
    }
}

/// The requests of a well-formed snapshot are consistent: no two of them
/// ask for different links under the same name in the same table.
pub proof fn lemma_requests_consistent(root: Seq<char>, s: SyncSnapshot)
    requires
        snapshot_wf(s),
    ensures
        consistent(requests_of(root, s)),
{
    let all = s.packages@ + s.copy_packages@;
    let inside = packages_links(root, all);
    let top = exposures(
        root,
        id_views(s.top_level@),
        Seq::empty(),
        TableRefView::Root,
        root,
        s.top_level@.len() as int,
    );
    let hoisted = exposures(
        root,
        package_ids(s.packages@),
        id_views(s.top_level@),
        TableRefView::Deno,
        hoisted_dir(root),
        s.packages@.len() as int,
    );
    let requests = requests_of(root, s);
    lemma_packages_links_join(root, s.packages@, s.copy_packages@);
    assert(requests =~= inside + top + hoisted);
    // What each request is, by the part of the list in which it stands.
    assert forall|k: int| 0 <= k < requests.len() implies (is_package_request(
        root,
        all,
        #[trigger] requests[k],
    ) || is_exposure(
        root,
        id_views(s.top_level@),
        TableRefView::Root,
        root,
        requests[k],
    ) || is_exposure(
        root,
        package_ids(s.packages@),
        TableRefView::Deno,
        hoisted_dir(root),
        requests[k],
    )) by {
        if k < inside.len() {
            lemma_packages_links_are_package_requests(root, all, k);
        } else if k < inside.len() + top.len() {
            assert(requests[k] == top[k - inside.len()]);
            lemma_exposures_are_exposures(
                root,
                id_views(s.top_level@),
                Seq::empty(),
                TableRefView::Root,
                root,
                s.top_level@.len() as int,
                k - inside.len(),
            );
        } else {
            assert(requests[k] == hoisted[k - inside.len() - top.len()]);
            lemma_exposures_are_exposures(
                root,
                package_ids(s.packages@),
                id_views(s.top_level@),
                TableRefView::Deno,
                hoisted_dir(root),
                s.packages@.len() as int,
                k - inside.len() - top.len(),
            );
        }
    }
    assert forall|x: int, y: int| 0 <= x < requests.len() && 0 <= y < requests.len() implies !at_odds(
        #[trigger] requests[x],
        #[trigger] requests[y],
    ) by {
        let a = requests[x];
        let b = requests[y];
        if a is Link && b is Link && a->table == b->table && a->key == b->key {
            if a->table is Dep {
                let (i1, j1) = choose|i: int, j: int| #[trigger] is_dep_of(root, all, i, j, a);
                let (i2, j2) = choose|i: int, j: int| #[trigger] is_dep_of(root, all, i, j, b);
                assert(is_dep_of(root, all, i1, j1, a));
                assert(is_dep_of(root, all, i2, j2, b));
                if i1 != i2 {
                    assert(folder_name_of(all[i1].id@) != folder_name_of(all[i2].id@));
                }
                assert(distinct_dependency_names(all[i1]));
                if j1 != j2 {
                    assert(all[i1].dependencies@[j1].name@ != all[i1].dependencies@[j2].name@);
                }
            }
        }
    }
}

/// A synchronization that runs again on an unchanged, well-formed
/// snapshot has nothing to do: with every package content in place, and with
/// the tables that the first run left, no content is put in place, no link
/// is made, and the tables that the run sets up are those that it found, so
/// that they are not written.
pub proof fn lemma_unchanged_snapshot_is_idle(root: Seq<char>, snapshot: SyncSnapshot)
    requires
        snapshot_wf(snapshot),
        materialized(snapshot),
    ensures
        ({
            let left = recorded_all(empty_tables(), requests_of(root, snapshot));
            &&& fetches(root, snapshot.packages@) + copies(root, snapshot.copy_packages@) == Seq::<
                ContentActionView,
            >::empty()
            &&& busted(Some(left), snapshot.packages@) == Some(left)
            &&& links_to_make(Some(left), requests_of(root, snapshot)) == Seq::<
                (Seq<char>, Seq<char>),
            >::empty()
        }),
{
    lemma_requests_consistent(root, snapshot);
    lemma_second_sync_is_idle(root, snapshot);
}

} // verus!
