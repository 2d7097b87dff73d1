//! What a synchronization of the store has to do for a dependency
//! snapshot: which package contents are missing, and which links are wanted.

use vstd::prelude::*;
use crate::folder_id::{
    folder_name_of, get_package_folder_id_folder_name, FolderIdView, NpmPackageCacheFolderId,
};
use crate::layout::{
    hoisted_dir, hoisted_dir_path, initialized_file_path, join_package_name_chars,
    package_content_path, package_folder_path, package_name_joined, sentinel_path,
    slot_node_modules,
};
use crate::links::{
    action_views, consistent, empty_tables, lemma_repeated_requests_are_idle, links_to_make,
    process_requests, recorded_all, request_views, LinkAction, LinkRequest, LinkRequestView,
    TableRef, TableRefView,
};
use crate::path::path_join;
use crate::semver::version_precedes;
use crate::setup_cache::{opt_data_view, SetupCache, SetupCacheDataView};
use crate::text::{chars_of, same_text, string_of};

verus! {

/// One dependency of a package of the snapshot.
#[derive(Debug)]
pub struct SyncDependency {
    /// The name under which the package imports the dependency.
    pub name: String,
    /// The package that the name stands for.
    pub target: NpmPackageCacheFolderId,
    /// Set for an optional dependency that is not meant for this system.
    pub skipped: bool,
}

/// One package of the snapshot.
#[derive(Debug)]
pub struct SyncPackage {
    pub id: NpmPackageCacheFolderId,
    pub dependencies: Vec<SyncDependency>,
    /// Whether the sentinel file of the package's folder exists.
    pub initialized: bool,
    /// Whether the cache policy lets existing content of the package be used.
    pub use_cache: bool,
}

/// A dependency snapshot, as far as a synchronization reads it.
#[derive(Debug)]
pub struct SyncSnapshot {
    /// The packages meant for this system.
    pub packages: Vec<SyncPackage>,
    /// The copies of packages that serve other resolutions of peer dependencies.
    pub copy_packages: Vec<SyncPackage>,
    /// The packages that the project depends on directly.
    pub top_level: Vec<NpmPackageCacheFolderId>,
    /// Whether the project declares workspace packages.
    pub has_workspace_packages: bool,
}

/// Content of a package folder that is missing.
#[derive(Debug, PartialEq, Eq)]
pub enum ContentAction {
    /// The package is fetched and unpacked, copied to `package_path`, and
    /// the sentinel file is written.
    Fetch { folder_name: String, package_name: String, package_path: String, sentinel: String },
    /// The content at `source_path` is copied to `package_path`, and the
    /// sentinel file is written.
    Copy { source_path: String, package_path: String, sentinel: String },
}

/// The mathematical content of a `ContentAction`.
pub enum ContentActionView {
    Fetch {
        folder_name: Seq<char>,
        package_name: Seq<char>,
        package_path: Seq<char>,
        sentinel: Seq<char>,
    },
    Copy { source_path: Seq<char>, package_path: Seq<char>, sentinel: Seq<char> },
}

impl View for ContentAction {
    type V = ContentActionView;

    open spec fn view(&self) -> ContentActionView {
        match self {
            ContentAction::Fetch { folder_name, package_name, package_path, sentinel } => {
                ContentActionView::Fetch {
                    folder_name: folder_name@,
                    package_name: package_name@,
                    package_path: package_path@,
                    sentinel: sentinel@,
                }
            },
            ContentAction::Copy { source_path, package_path, sentinel } => ContentActionView::Copy {
                source_path: source_path@,
                package_path: package_path@,
                sentinel: sentinel@,
            },
        }
    }
}

/// The contents of a list of content actions.
pub open spec fn content_views(v: Seq<ContentAction>) -> Seq<ContentActionView> {
    v.map_values(|a: ContentAction| a@)
}

/// The identities of a list.
pub open spec fn id_views(v: Seq<NpmPackageCacheFolderId>) -> Seq<FolderIdView> {
    v.map_values(|id: NpmPackageCacheFolderId| id@)
}

/// The identities of a list of packages.
pub open spec fn package_ids(v: Seq<SyncPackage>) -> Seq<FolderIdView> {
    v.map_values(|p: SyncPackage| p.id@)
}

/// Whether the content of a package has to be fetched.
pub open spec fn needs_fetch(p: SyncPackage) -> bool {
    !p.use_cache || !p.initialized
}

/// What fetches the content of a package.
pub open spec fn fetch_of(root: Seq<char>, id: FolderIdView) -> ContentActionView {
    ContentActionView::Fetch {
        folder_name: folder_name_of(id),
        package_name: id.name,
        package_path: package_content_path(root, folder_name_of(id), id.name),
        sentinel: sentinel_path(root, folder_name_of(id)),
    }
}

/// What copies the content of a package to one of its copies.
pub open spec fn copy_of(root: Seq<char>, id: FolderIdView) -> ContentActionView {
    ContentActionView::Copy {
        source_path: package_content_path(
            root,
            folder_name_of(FolderIdView { copy_index: 0, ..id }),
            id.name,
        ),
        package_path: package_content_path(root, folder_name_of(id), id.name),
        sentinel: sentinel_path(root, folder_name_of(id)),
    }
}

/// The fetches that the packages need, in order.
pub open spec fn fetches(root: Seq<char>, packages: Seq<SyncPackage>) -> Seq<ContentActionView>
    decreases packages.len(),
{
    if packages.len() == 0 {
        Seq::empty()
    } else {
        let before = fetches(root, packages.drop_last());
        if needs_fetch(packages.last()) {
            before.push(fetch_of(root, packages.last().id@))
        } else {
            before
        }
    }
}

/// The copies that the copy packages need, in order.
pub open spec fn copies(root: Seq<char>, packages: Seq<SyncPackage>) -> Seq<ContentActionView>
    decreases packages.len(),
{
    if packages.len() == 0 {
        Seq::empty()
    } else {
        let before = copies(root, packages.drop_last());
        if !packages.last().initialized {
            before.push(copy_of(root, packages.last().id@))
        } else {
            before
        }
    }
}

/// The tables of the last synchronization once the links inside every
/// package that is fetched anew are forgotten.
pub open spec fn busted(previous: Option<SetupCacheDataView>, packages: Seq<SyncPackage>) -> Option<
    SetupCacheDataView,
>
    decreases packages.len(),
{
    if packages.len() == 0 {
        previous
    } else {
        let before = busted(previous, packages.drop_last());
        if needs_fetch(packages.last()) {
            match before {
                Some(t) => Some(
                    SetupCacheDataView {
                        dep_symlinks: t.dep_symlinks.remove(folder_name_of(packages.last().id@)),
                        ..t
                    },
                ),
                None => None,
            }
        } else {
            before
        }
    }
}

/// The link for one dependency of the package in the folder `folder`.
pub open spec fn dep_link(root: Seq<char>, folder: Seq<char>, dep: SyncDependency)
    -> LinkRequestView {
    LinkRequestView::Link {
        table: TableRefView::Dep(folder),
        key: dep.name@,
        target_folder: folder_name_of(dep.target@),
        target_path: package_content_path(root, folder_name_of(dep.target@), dep.target@.name),
        link_path: package_name_joined(slot_node_modules(root, folder), dep.name@),
    }
}

/// The links for the dependencies of a package, those that are skipped left out.
pub open spec fn dep_links(root: Seq<char>, folder: Seq<char>, deps: Seq<SyncDependency>) -> Seq<
    LinkRequestView,
>
    decreases deps.len(),
{
    if deps.len() == 0 {
        Seq::empty()
    } else {
        let before = dep_links(root, folder, deps.drop_last());
        if deps.last().skipped {
            before
        } else {
            before.push(dep_link(root, folder, deps.last()))
        }
    }
}

/// What one package asks of the tables: a table of its own, and a link for each dependency.
pub open spec fn package_links(root: Seq<char>, p: SyncPackage) -> Seq<LinkRequestView> {
    seq![LinkRequestView::Open { folder: folder_name_of(p.id@) }] + dep_links(
        root,
        folder_name_of(p.id@),
        p.dependencies@,
    )
}

/// What a list of packages asks of the tables.
pub open spec fn packages_links(root: Seq<char>, packages: Seq<SyncPackage>) -> Seq<
    LinkRequestView,
>
    decreases packages.len(),
{
    if packages.len() == 0 {
        Seq::empty()
    } else {
        packages_links(root, packages.drop_last()) + package_links(root, packages.last())
    }
}

/// The position, among the first `n` identities, of the newest one named
/// `name`: going through them in order, an identity of that name replaces
/// the one kept so far where its version stands after that one's.
pub open spec fn newest_from(ids: Seq<FolderIdView>, name: Seq<char>, n: int) -> Option<int>
    decreases n,
{
    if n <= 0 || n > ids.len() {
        None
    } else {
        let before = newest_from(ids, name, n - 1);
        if ids[n - 1].name == name && (before is None || version_precedes(
            ids[before->0].version,
            ids[n - 1].version,
        )) {
            Some(n - 1)
        } else {
            before
        }
    }
}

/// Whether no identity before position `i` has the name of the one at `i`.
pub open spec fn first_of_name(ids: Seq<FolderIdView>, i: int) -> bool {
    forall|j: int| 0 <= j < i ==> (#[trigger] ids[j]).name != ids[i].name
}

/// Whether one of the identities has the given name.
pub open spec fn has_name(ids: Seq<FolderIdView>, name: Seq<char>) -> bool {
    exists|j: int| 0 <= j < ids.len() && (#[trigger] ids[j]).name == name
}

/// The link that exposes the package `name` in the directory `base`.
pub open spec fn exposure_link(
    root: Seq<char>,
    table: TableRefView,
    base: Seq<char>,
    name: Seq<char>,
    chosen: FolderIdView,
) -> LinkRequestView {
    LinkRequestView::Link {
        table,
        key: name,
        target_folder: folder_name_of(chosen),
        target_path: package_content_path(root, folder_name_of(chosen), name),
        link_path: package_name_joined(base, name),
    }
}

/// The links that expose, in the directory `base`, the newest of each
/// name among the first `n` of `ids`, in the order in which the names
/// first occur; names of `hidden` are left out.
pub open spec fn exposures(
    root: Seq<char>,
    ids: Seq<FolderIdView>,
    hidden: Seq<FolderIdView>,
    table: TableRefView,
    base: Seq<char>,
    n: int,
) -> Seq<LinkRequestView>
    decreases n,
{
    if n <= 0 || n > ids.len() {
        Seq::empty()
    } else {
        let before = exposures(root, ids, hidden, table, base, n - 1);
        let name = ids[n - 1].name;
        let newest = newest_from(ids, name, ids.len() as int);
        if first_of_name(ids, n - 1) && !has_name(hidden, name) && newest is Some {
            before.push(exposure_link(root, table, base, name, ids[newest->0]))
        } else {
            before
        }
    }
}

/// Everything that a snapshot asks of the tables: the links inside every
/// package folder, the links at the top of the project, and the links
/// hoisted into the store for the packages that the top does not show.
pub open spec fn requests_of(root: Seq<char>, s: SyncSnapshot) -> Seq<LinkRequestView> {
    packages_links(root, s.packages@) + packages_links(root, s.copy_packages@) + exposures(
        root,
        id_views(s.top_level@),
        Seq::empty(),
        TableRefView::Root,
        root,
        s.top_level@.len() as int,
    ) + exposures(
        root,
        package_ids(s.packages@),
        id_views(s.top_level@),
        TableRefView::Deno,
        hoisted_dir(root),
        s.packages@.len() as int,
    )
}

/// Whether a snapshot gives a synchronization nothing to do.
pub open spec fn nothing_to_sync(s: SyncSnapshot) -> bool {
    s.packages@.len() == 0 && s.copy_packages@.len() == 0 && !s.has_workspace_packages
}

/// Whether the content of every package of a snapshot is in place and may be used.
pub open spec fn materialized(s: SyncSnapshot) -> bool {
    &&& forall|i: int| 0 <= i < s.packages@.len() ==> !needs_fetch(#[trigger] s.packages@[i])
    &&& forall|i: int| 0 <= i < s.copy_packages@.len() ==> (#[trigger] s.copy_packages@[i]).initialized
}

/// What a synchronization has to do.
#[derive(Debug)]
pub struct SyncPlan {
    /// Set where there is nothing to synchronize and nothing is to be created.
    pub skip: bool,
    /// The package contents to put in place, in order.
    pub content: Vec<ContentAction>,
    /// The links to make, in order.
    pub links: Vec<LinkAction>,
    /// Whether the tables have to be written.
    pub write_cache: bool,
}

fn fetch_action(root: &str, id: &NpmPackageCacheFolderId) -> (a: ContentAction)
    ensures
        a@ == fetch_of(root@, id@),
{
    let folder_name = get_package_folder_id_folder_name(id);
    let package_path = package_folder_path(root, folder_name.as_str(), id.nv.name.as_str());
    let sentinel = initialized_file_path(root, folder_name.as_str());
    ContentAction::Fetch {
        folder_name,
        package_name: id.nv.name.clone(),
        package_path,
        sentinel,
    }
}

fn copy_action(root: &str, id: &NpmPackageCacheFolderId) -> (a: ContentAction)
    ensures
        a@ == copy_of(root@, id@),
{
    let folder_name = get_package_folder_id_folder_name(id);
    let primary = id.with_no_count();
    assert(primary@ == FolderIdView { copy_index: 0, ..id@ });
    let source_folder = get_package_folder_id_folder_name(&primary);
    let source_path = package_folder_path(root, source_folder.as_str(), id.nv.name.as_str());
    let package_path = package_folder_path(root, folder_name.as_str(), id.nv.name.as_str());
    let sentinel = initialized_file_path(root, folder_name.as_str());
    ContentAction::Copy { source_path, package_path, sentinel }
}

/// Adds what one package asks of the tables.
fn add_package_requests(root: &str, p: &SyncPackage, out: &mut Vec<LinkRequest>)
    ensures
        request_views(final(out)@) == request_views(old(out)@) + package_links(root@, *p),
{
    let ghost start = request_views(out@);
    let folder = get_package_folder_id_folder_name(&p.id);
    let ghost f = folder@;
    out.push(LinkRequest::Open { folder: folder.clone() });
    assert(request_views(out@) =~= start + seq![LinkRequestView::Open { folder: f }]);
    let modules = {
        let slot = crate::layout::package_slot_path(root, folder.as_str());
        let s = chars_of(slot.as_str());
        let nm = chars_of("node_modules");
        path_join(s.as_slice(), nm.as_slice())
    };
    let mut i: usize = 0;
    assert(p.dependencies@.take(0) =~= Seq::<SyncDependency>::empty());
    assert(dep_links(root@, f, p.dependencies@.take(0)) =~= Seq::<LinkRequestView>::empty());
    while i < p.dependencies.len()
        invariant
            i <= p.dependencies.len(),
            f == folder@,
            f == folder_name_of(p.id@),
            modules@ == slot_node_modules(root@, f),
            request_views(out@) == start + seq![LinkRequestView::Open { folder: f }] + dep_links(
                root@,
                f,
                p.dependencies@.take(i as int),
            ),
        decreases p.dependencies.len() - i,
    {
        let dep = &p.dependencies[i];
        proof {
            assert(p.dependencies@.take(i + 1).drop_last() =~= p.dependencies@.take(i as int));
            assert(p.dependencies@.take(i + 1).last() == *dep);
        }
        if !dep.skipped {
            let target_folder = get_package_folder_id_folder_name(&dep.target);
            let target_path = package_folder_path(
                root,
                target_folder.as_str(),
                dep.target.nv.name.as_str(),
            );
            let name = chars_of(dep.name.as_str());
            let link = join_package_name_chars(modules.as_slice(), name.as_slice());
            let ghost before = request_views(out@);
            out.push(
                LinkRequest::Link {
                    table: TableRef::Dep(folder.clone()),
                    key: dep.name.clone(),
                    target_folder,
                    target_path,
                    link_path: string_of(link.as_slice()),
                },
            );
            assert(request_views(out@) =~= before.push(dep_link(root@, f, *dep)));
        }
        i += 1;
    }
    assert(p.dependencies@.take(p.dependencies.len() as int) =~= p.dependencies@);
    assert(request_views(out@) =~= start + package_links(root@, *p));
}

/// Adds what a list of packages asks of the tables.
fn add_packages_requests(root: &str, packages: &Vec<SyncPackage>, out: &mut Vec<LinkRequest>)
    ensures
        request_views(final(out)@) == request_views(old(out)@) + packages_links(root@, packages@),
{
    let ghost start = request_views(out@);
    let mut i: usize = 0;
    assert(packages@.take(0) =~= Seq::<SyncPackage>::empty());
    assert(start + packages_links(root@, packages@.take(0)) =~= start);
    while i < packages.len()
        invariant
            i <= packages.len(),
            request_views(out@) == start + packages_links(root@, packages@.take(i as int)),
        decreases packages.len() - i,
    {
        proof {
            assert(packages@.take(i + 1).drop_last() =~= packages@.take(i as int));
            assert(packages@.take(i + 1).last() == packages@[i as int]);
        }
        let ghost before = request_views(out@);
        add_package_requests(root, &packages[i], out);
        assert(request_views(out@) =~= start + (packages_links(root@, packages@.take(i as int))
            + package_links(root@, packages@[i as int])));
        i += 1;
    }
    assert(packages@.take(packages.len() as int) =~= packages@);
}

/// The position of the newest identity named `name`.
fn find_newest(ids: &Vec<NpmPackageCacheFolderId>, name: &str) -> (r: Option<usize>)
    ensures
        match r {
            Some(k) => k < ids.len() && newest_from(id_views(ids@), name@, ids@.len() as int)
                == Some(k as int),
            None => newest_from(id_views(ids@), name@, ids@.len() as int) is None,
        },
{
    let mut best: Option<usize> = None;
    let mut n: usize = 0;
    while n < ids.len()
        invariant
            n <= ids.len(),
            match best {
                Some(k) => k < n && newest_from(id_views(ids@), name@, n as int) == Some(k as int),
                None => newest_from(id_views(ids@), name@, n as int) is None,
            },
        decreases ids.len() - n,
    {
        let id = &ids[n];
        assert(id_views(ids@)[n as int] == id@);
        if same_text(id.nv.name.as_str(), name) {
            let replace = match best {
                Some(k) => {
                    assert(id_views(ids@)[k as int] == ids@[k as int]@);
                    ids[k].nv.version.precedes(&id.nv.version)
                },
                None => true,
            };
            if replace {
                best = Some(n);
            }
        }
        n += 1;
    }
    best
}

/// Whether one of the identities has the given name.
fn names_hold(ids: &Vec<NpmPackageCacheFolderId>, name: &str, upto: usize) -> (b: bool)
    requires
        upto <= ids.len(),
    ensures
        b == exists|j: int| 0 <= j < upto && (#[trigger] id_views(ids@)[j]).name == name@,
{
    let mut j: usize = 0;
    while j < upto
        invariant
            j <= upto <= ids.len(),
            forall|x: int| 0 <= x < j ==> (#[trigger] id_views(ids@)[x]).name != name@,
        decreases upto - j,
    {
        assert(id_views(ids@)[j as int] == ids@[j as int]@);
        if same_text(ids[j].nv.name.as_str(), name) {
            return true;
        }
        j += 1;
    }
    false
}

/// Adds the links that expose the newest of each name in the directory `base`.
fn add_exposures(
    root: &str,
    ids: &Vec<NpmPackageCacheFolderId>,
    hidden: &Vec<NpmPackageCacheFolderId>,
    hoisted: bool,
    base: &str,
    out: &mut Vec<LinkRequest>,
)
    ensures
        request_views(final(out)@) == request_views(old(out)@) + exposures(
            root@,
            id_views(ids@),
            id_views(hidden@),
            if hoisted {
                TableRefView::Deno
            } else {
                TableRefView::Root
            },
            base@,
            ids@.len() as int,
        ),
{
    let ghost start = request_views(out@);
    let ghost table = if hoisted {
        TableRefView::Deno
    } else {
        TableRefView::Root
    };
    let ghost views = id_views(ids@);
    let ghost hidden_views = id_views(hidden@);
    let mut n: usize = 0;
    assert(start + exposures(root@, views, hidden_views, table, base@, 0) =~= start);
    while n < ids.len()
        invariant
            n <= ids.len(),
            views == id_views(ids@),
            hidden_views == id_views(hidden@),
            table == (if hoisted {
                TableRefView::Deno
            } else {
                TableRefView::Root
            }),
            request_views(out@) == start + exposures(
                root@,
                views,
                hidden_views,
                table,
                base@,
                n as int,
            ),
        decreases ids.len() - n,
    {
        let id = &ids[n];
        assert(views[n as int] == id@);
        let name = id.nv.name.as_str();
        let seen_before = names_hold(ids, name, n);
        let is_hidden = names_hold(hidden, name, hidden.len());
        proof {
            assert(first_of_name(views, n as int) == !seen_before);
            assert(has_name(hidden_views, name@) == is_hidden);
        }
        if !seen_before && !is_hidden {
            match find_newest(ids, name) {
                Some(k) => {
                    assert(views[k as int] == ids@[k as int]@);
                    let chosen = &ids[k];
                    let target_folder = get_package_folder_id_folder_name(chosen);
                    let target_path = package_folder_path(root, target_folder.as_str(), name);
                    let link_path = crate::layout::join_package_name(base, name);
                    let ghost before = request_views(out@);
                    out.push(
                        LinkRequest::Link {
                            table: if hoisted {
                                TableRef::Deno
                            } else {
                                TableRef::Root
                            },
                            key: id.nv.name.clone(),
                            target_folder,
                            target_path,
                            link_path,
                        },
                    );
                    assert(request_views(out@) =~= before.push(
                        crate::sync::exposure_link(root@, table, base@, name@, views[k as int]),
                    ));
                },
                None => {},
            }
        }
        n += 1;
        assert(request_views(out@) =~= start + exposures(
            root@,
            views,
            hidden_views,
            table,
            base@,
            n as int,
        ));
    }
}

/// The identities of a list of packages.
fn ids_of_packages(packages: &Vec<SyncPackage>) -> (ids: Vec<NpmPackageCacheFolderId>)
    ensures
        id_views(ids@) == package_ids(packages@),
{
    let mut ids: Vec<NpmPackageCacheFolderId> = Vec::new();
    let mut i: usize = 0;
    while i < packages.len()
        invariant
            i <= packages.len(),
            ids@.len() == i,
            forall|j: int| 0 <= j < i ==> ids@[j]@ == packages@[j].id@,
        decreases packages.len() - i,
    {
        ids.push(packages[i].id.duplicate());
        i += 1;
    }
    assert(id_views(ids@) =~= package_ids(packages@));
    ids
}

/// Everything that a snapshot asks of the tables.
pub fn collect_requests(snapshot: &SyncSnapshot, root: &str) -> (requests: Vec<LinkRequest>)
    ensures
        request_views(requests@) == requests_of(root@, *snapshot),
{
    let mut requests: Vec<LinkRequest> = Vec::new();
    assert(request_views(requests@) =~= Seq::<LinkRequestView>::empty());
    add_packages_requests(root, &snapshot.packages, &mut requests);
    assert(request_views(requests@) =~= packages_links(root@, snapshot.packages@));
    add_packages_requests(root, &snapshot.copy_packages, &mut requests);
    let none: Vec<NpmPackageCacheFolderId> = Vec::new();
    assert(id_views(none@) =~= Seq::<FolderIdView>::empty());
    add_exposures(root, &snapshot.top_level, &none, false, root, &mut requests);
    let ids = ids_of_packages(&snapshot.packages);
    let hoisted = hoisted_dir_path(root);
    add_exposures(root, &ids, &snapshot.top_level, true, hoisted.as_str(), &mut requests);
    requests
}

/// The package contents that a snapshot is missing, the links inside
/// every package that is fetched anew forgotten on the way.
pub fn collect_content(snapshot: &SyncSnapshot, root: &str, cache: &mut SetupCache) -> (content:
    Vec<ContentAction>)
    requires
        old(cache).wf(),
    ensures
        final(cache).wf(),
        final(cache).current == old(cache).current,
        final(cache).file_path == old(cache).file_path,
        opt_data_view(final(cache).previous) == busted(
            opt_data_view(old(cache).previous),
            snapshot.packages@,
        ),
        content_views(content@) == fetches(root@, snapshot.packages@) + copies(
            root@,
            snapshot.copy_packages@,
        ),
{
    let mut content: Vec<ContentAction> = Vec::new();
    let ghost start = opt_data_view(cache.previous);
    let mut i: usize = 0;
    assert(snapshot.packages@.take(0) =~= Seq::<SyncPackage>::empty());
    assert(content_views(content@) =~= Seq::<ContentActionView>::empty());
    while i < snapshot.packages.len()
        invariant
            i <= snapshot.packages.len(),
            cache.wf(),
            cache.current == old(cache).current,
            cache.file_path == old(cache).file_path,
            opt_data_view(cache.previous) == busted(start, snapshot.packages@.take(i as int)),
            content_views(content@) == fetches(root@, snapshot.packages@.take(i as int)),
        decreases snapshot.packages.len() - i,
    {
        let p = &snapshot.packages[i];
        proof {
            assert(snapshot.packages@.take(i + 1).drop_last() =~= snapshot.packages@.take(
                i as int,
            ));
            assert(snapshot.packages@.take(i + 1).last() == *p);
        }
        if !p.use_cache || !p.initialized {
            let folder_name = get_package_folder_id_folder_name(&p.id);
            let ghost before = opt_data_view(cache.previous);
            cache.remove_dep(folder_name.as_str());
            proof {
                match before {
                    Some(t) => {
                        assert(opt_data_view(cache.previous) == Some(
                            SetupCacheDataView {
                                dep_symlinks: t.dep_symlinks.remove(folder_name_of(p.id@)),
                                ..t
                            },
                        ));
                    },
                    None => {},
                }
            }
            let ghost shown = content_views(content@);
            content.push(fetch_action(root, &p.id));
            assert(content_views(content@) =~= shown.push(fetch_of(root@, p.id@)));
        }
        i += 1;
    }
    assert(snapshot.packages@.take(snapshot.packages.len() as int) =~= snapshot.packages@);
    let ghost fetched = content_views(content@);
    let mut j: usize = 0;
    assert(snapshot.copy_packages@.take(0) =~= Seq::<SyncPackage>::empty());
    assert(fetched + copies(root@, snapshot.copy_packages@.take(0)) =~= fetched);
    while j < snapshot.copy_packages.len()
        invariant
            j <= snapshot.copy_packages.len(),
            content_views(content@) == fetched + copies(
                root@,
                snapshot.copy_packages@.take(j as int),
            ),
        decreases snapshot.copy_packages.len() - j,
    {
        let p = &snapshot.copy_packages[j];
        proof {
            assert(snapshot.copy_packages@.take(j + 1).drop_last()
                =~= snapshot.copy_packages@.take(j as int));
            assert(snapshot.copy_packages@.take(j + 1).last() == *p);
        }
        if !p.initialized {
            let ghost shown = content_views(content@);
            content.push(copy_action(root, &p.id));
            assert(content_views(content@) =~= shown.push(copy_of(root@, p.id@)));
            assert(shown.push(copy_of(root@, p.id@)) =~= fetched + copies(
                root@,
                snapshot.copy_packages@.take(j as int),
            ).push(copy_of(root@, p.id@)));
        }
        j += 1;
    }
    assert(snapshot.copy_packages@.take(snapshot.copy_packages.len() as int)
        =~= snapshot.copy_packages@);
    content
}

/// Decides what a synchronization of the store below `root` has to do for
/// a snapshot, and records in `cache` what it sets up.
///
/// A snapshot without packages in a project without workspace packages
/// asks for nothing at all. Otherwise every missing package content is
/// put in place, every link that the last synchronization did not leave
/// is made, and the tables are written where they differ from what the
/// last synchronization left.
pub fn plan_sync(snapshot: &SyncSnapshot, root: &str, cache: &mut SetupCache) -> (plan: SyncPlan)
    requires
        old(cache).wf(),
    ensures
        final(cache).wf(),
        final(cache).file_path == old(cache).file_path,
        plan.skip == nothing_to_sync(*snapshot),
        plan.skip ==> *final(cache) == *old(cache) && plan.content@.len() == 0 && plan.links@.len()
            == 0 && !plan.write_cache,
        !plan.skip ==> {
            &&& content_views(plan.content@) == fetches(root@, snapshot.packages@) + copies(
                root@,
                snapshot.copy_packages@,
            )
            &&& opt_data_view(final(cache).previous) == busted(
                opt_data_view(old(cache).previous),
                snapshot.packages@,
            )
            &&& final(cache).current@ == recorded_all(
                old(cache).current@,
                requests_of(root@, *snapshot),
            )
            &&& action_views(plan.links@) == links_to_make(
                opt_data_view(final(cache).previous),
                requests_of(root@, *snapshot),
            )
            &&& plan.write_cache == !(opt_data_view(final(cache).previous) == Some(
                final(cache).current@,
            ))
        },
{
    if snapshot.packages.len() == 0 && snapshot.copy_packages.len() == 0
        && !snapshot.has_workspace_packages {
        return SyncPlan { skip: true, content: Vec::new(), links: Vec::new(), write_cache: false };
    }
    let content = collect_content(snapshot, root, cache);
    let requests = collect_requests(snapshot, root);
    let links = process_requests(cache, &requests);
    let write_cache = cache.save();
    SyncPlan { skip: false, content, links, write_cache }
}

/// Nothing is fetched where every package is in place and may be used.
pub proof fn lemma_no_fetches(
    root: Seq<char>,
    packages: Seq<SyncPackage>,
    previous: Option<SetupCacheDataView>,
)
    requires
        forall|i: int| 0 <= i < packages.len() ==> !needs_fetch(#[trigger] packages[i]),
    ensures
        fetches(root, packages) == Seq::<ContentActionView>::empty(),
        busted(previous, packages) == previous,
    decreases packages.len(),
{
    if packages.len() > 0 {
        assert forall|i: int| 0 <= i < packages.drop_last().len() implies !needs_fetch(
            #[trigger] packages.drop_last()[i],
        ) by {
            assert(packages.drop_last()[i] == packages[i]);
        }
        lemma_no_fetches(root, packages.drop_last(), previous);
        assert(!needs_fetch(packages[packages.len() - 1]));
    }
}

/// Nothing is copied where every copy is in place.
pub proof fn lemma_no_copies(root: Seq<char>, packages: Seq<SyncPackage>)
    requires
        forall|i: int| 0 <= i < packages.len() ==> (#[trigger] packages[i]).initialized,
    ensures
        copies(root, packages) == Seq::<ContentActionView>::empty(),
    decreases packages.len(),
{
    if packages.len() > 0 {
        assert forall|i: int| 0 <= i < packages.drop_last().len() implies (
        #[trigger] packages.drop_last()[i]).initialized by {
            assert(packages.drop_last()[i] == packages[i]);
        }
        lemma_no_copies(root, packages.drop_last());
        assert(packages[packages.len() - 1].initialized);
    }
}

/// A synchronization that runs again on an unchanged snapshot has nothing
/// to do: with every package content in place, and with the tables that the
/// first run left, no content is put in place, no link is made, and the
/// tables that the run sets up are those that it found, so that they are not written.
pub proof fn lemma_second_sync_is_idle(root: Seq<char>, snapshot: SyncSnapshot)
    requires
        materialized(snapshot),
        consistent(requests_of(root, snapshot)),
    ensures
        ({
            let left = recorded_all(empty_tables(), requests_of(root, snapshot));
            &&& fetches(root, snapshot.packages@) + copies(root, snapshot.copy_packages@) == Seq::<
                ContentActionView,
            >::empty()
            &&& busted(Some(left), snapshot.packages@) == Some(left)
            &&& links_to_make(Some(left), requests_of(root, snapshot)) == Seq::<
                (Seq<char>, Seq<char>),
            >::empty()
            &&& recorded_all(empty_tables(), requests_of(root, snapshot)) == left
        }),
{
    let left = recorded_all(empty_tables(), requests_of(root, snapshot));
    lemma_no_fetches(root, snapshot.packages@, Some(left));
    lemma_no_copies(root, snapshot.copy_packages@);
    lemma_repeated_requests_are_idle(requests_of(root, snapshot));
    assert(Seq::<ContentActionView>::empty() + Seq::<ContentActionView>::empty() =~= Seq::<
        ContentActionView,
    >::empty());
}

} // verus!
