//! The links of a synchronization, one request each, and what becomes of
//! them: every request is recorded, and those that the last
//! synchronization did not already satisfy are to be made.

use vstd::prelude::*;
use crate::setup_cache::{already_linked, opt_data_view, SetupCache, SetupCacheDataView};

verus! {

/// The table that a link is recorded in.
#[derive(Debug)]
pub enum TableRef {
    /// The links at the top of the project.
    Root,
    /// The links hoisted into the store.
    Deno,
    /// The links inside the package folder of the given name.
    Dep(String),
}

/// The mathematical content of a `TableRef`.
pub enum TableRefView {
    Root,
    Deno,
    Dep(Seq<char>),
}

impl View for TableRef {
    type V = TableRefView;

    open spec fn view(&self) -> TableRefView {
        match self {
            TableRef::Root => TableRefView::Root,
            TableRef::Deno => TableRefView::Deno,
            TableRef::Dep(f) => TableRefView::Dep(f@),
        }
    }
}

/// What a synchronization asks of the tables.
#[derive(Debug)]
pub enum LinkRequest {
    /// The package folder of the given name gets a table of its own,
    /// empty where it had none.
    Open { folder: String },
    /// A link is wanted.
    Link {
        table: TableRef,
        /// The name under which the link is recorded.
        key: String,
        /// The folder name of the package linked to.
        target_folder: String,
        /// Where the link points.
        target_path: String,
        /// Where the link lies.
        link_path: String,
    },
}

/// The mathematical content of a `LinkRequest`.
pub enum LinkRequestView {
    Open { folder: Seq<char> },
    Link {
        table: TableRefView,
        key: Seq<char>,
        target_folder: Seq<char>,
        target_path: Seq<char>,
        link_path: Seq<char>,
    },
}

impl View for LinkRequest {
    type V = LinkRequestView;

    open spec fn view(&self) -> LinkRequestView {
        match self {
            LinkRequest::Open { folder } => LinkRequestView::Open { folder: folder@ },
            LinkRequest::Link { table, key, target_folder, target_path, link_path } => {
                LinkRequestView::Link {
                    table: table@,
                    key: key@,
                    target_folder: target_folder@,
                    target_path: target_path@,
                    link_path: link_path@,
                }
            },
        }
    }
}

/// The contents of a list of requests.
pub open spec fn request_views(v: Seq<LinkRequest>) -> Seq<LinkRequestView> {
    v.map_values(|r: LinkRequest| r@)
}

/// A link to be made.
#[derive(Debug, PartialEq, Eq)]
pub struct LinkAction {
    /// Where the link points.
    pub target: String,
    /// Where the link lies.
    pub link: String,
}

/// The contents of a list of links to be made: for each, where it points and where it lies.
pub open spec fn action_views(v: Seq<LinkAction>) -> Seq<(Seq<char>, Seq<char>)> {
    v.map_values(|a: LinkAction| (a.target@, a.link@))
}

/// Tables without any entry.
pub open spec fn empty_tables() -> SetupCacheDataView {
    SetupCacheDataView {
        root_symlinks: Map::empty(),
        deno_symlinks: Map::empty(),
        dep_symlinks: Map::empty(),
    }
}

/// The links recorded for a package folder, none recorded yet counting as an empty table.
pub open spec fn dep_table(t: SetupCacheDataView, folder: Seq<char>) -> Map<Seq<char>, Seq<char>> {
    if t.dep_symlinks.contains_key(folder) {
        t.dep_symlinks[folder]
    } else {
        Map::empty()
    }
}

/// The tables once a link is recorded in one of them.
pub open spec fn with_link(
    t: SetupCacheDataView,
    table: TableRefView,
    key: Seq<char>,
    target_folder: Seq<char>,
) -> SetupCacheDataView {
    match table {
        TableRefView::Root => SetupCacheDataView {
            root_symlinks: t.root_symlinks.insert(key, target_folder),
            ..t
        },
        TableRefView::Deno => SetupCacheDataView {
            deno_symlinks: t.deno_symlinks.insert(key, target_folder),
            ..t
        },
        TableRefView::Dep(folder) => SetupCacheDataView {
            dep_symlinks: t.dep_symlinks.insert(
                folder,
                dep_table(t, folder).insert(key, target_folder),
            ),
            ..t
        },
    }
}

/// The tables once a request is recorded in them.
pub open spec fn recorded(t: SetupCacheDataView, r: LinkRequestView) -> SetupCacheDataView {
    match r {
        LinkRequestView::Open { folder } => SetupCacheDataView {
            dep_symlinks: t.dep_symlinks.insert(folder, dep_table(t, folder)),
            ..t
        },
        LinkRequestView::Link { table, key, target_folder, .. } => with_link(
            t,
            table,
            key,
            target_folder,
        ),
    }
}

/// The tables once all requests are recorded in them, in order.
pub open spec fn recorded_all(t: SetupCacheDataView, requests: Seq<LinkRequestView>)
    -> SetupCacheDataView
    decreases requests.len(),
{
    if requests.len() == 0 {
        t
    } else {
        recorded(recorded_all(t, requests.drop_last()), requests.last())
    }
}

/// The table of the last synchronization that a link is compared with.
pub open spec fn table_of(previous: Option<SetupCacheDataView>, table: TableRefView) -> Option<
    Map<Seq<char>, Seq<char>>,
> {
    match previous {
        Some(p) => match table {
            TableRefView::Root => Some(p.root_symlinks),
            TableRefView::Deno => Some(p.deno_symlinks),
            TableRefView::Dep(folder) => if p.dep_symlinks.contains_key(folder) {
                Some(p.dep_symlinks[folder])
            } else {
                None
            },
        },
        None => None,
    }
}

/// Whether tables hold a link.
pub open spec fn holds_link(
    t: SetupCacheDataView,
    table: TableRefView,
    key: Seq<char>,
    target_folder: Seq<char>,
) -> bool {
    already_linked(table_of(Some(t), table), key, target_folder)
}

/// Whether something has to be made for a request: it asks for a link, and
/// the last synchronization did not leave exactly that link.
pub open spec fn is_new(previous: Option<SetupCacheDataView>, r: LinkRequestView) -> bool {
    match r {
        LinkRequestView::Open { .. } => false,
        LinkRequestView::Link { table, key, target_folder, .. } => !already_linked(
            table_of(previous, table),
            key,
            target_folder,
        ),
    }
}

/// The link that a request asks for: where it points and where it lies.
pub open spec fn link_of(r: LinkRequestView) -> (Seq<char>, Seq<char>) {
    match r {
        LinkRequestView::Open { folder } => (folder, folder),
        LinkRequestView::Link { target_path, link_path, .. } => (target_path, link_path),
    }
}

/// The links to be made for a list of requests, in order.
pub open spec fn links_to_make(previous: Option<SetupCacheDataView>, requests: Seq<LinkRequestView>)
    -> Seq<(Seq<char>, Seq<char>)>
    decreases requests.len(),
{
    if requests.len() == 0 {
        Seq::empty()
    } else {
        let before = links_to_make(previous, requests.drop_last());
        if is_new(previous, requests.last()) {
            before.push(link_of(requests.last()))
        } else {
            before
        }
    }
}

/// Whether two requests ask for links under the same name in the same
/// table, but to different folders.
pub open spec fn at_odds(a: LinkRequestView, b: LinkRequestView) -> bool {
    match (a, b) {
        (
            LinkRequestView::Link { table: t1, key: k1, target_folder: f1, .. },
            LinkRequestView::Link { table: t2, key: k2, target_folder: f2, .. },
        ) => t1 == t2 && k1 == k2 && f1 != f2,
        _ => false,
    }
}

/// No two requests are at odds.
pub open spec fn consistent(requests: Seq<LinkRequestView>) -> bool {
    forall|i: int, j: int|
        0 <= i < requests.len() && 0 <= j < requests.len() ==> !at_odds(
            #[trigger] requests[i],
            #[trigger] requests[j],
        )
}

/// Recording a request that is not at odds with a link leaves the link in the tables.
pub proof fn lemma_link_stays(
    t: SetupCacheDataView,
    r: LinkRequestView,
    table: TableRefView,
    key: Seq<char>,
    target_folder: Seq<char>,
)
    requires
        holds_link(t, table, key, target_folder),
        match r {
            LinkRequestView::Link { table: t2, key: k2, target_folder: f2, .. } => !(t2 == table
                && k2 == key && f2 != target_folder),
            _ => true,
        },
    ensures
        holds_link(recorded(t, r), table, key, target_folder),
{
    match r {
        LinkRequestView::Open { folder } => {
            match table {
                TableRefView::Dep(f) => {
                    if f == folder {
                        assert(t.dep_symlinks.contains_key(folder));
                    }
                },
                _ => {},
            }
        },
        LinkRequestView::Link { table: t2, key: k2, target_folder: f2, .. } => {
            match (table, t2) {
                (TableRefView::Dep(f), TableRefView::Dep(g)) => {
                    if f == g {
                        assert(t.dep_symlinks.contains_key(f));
                    }
                },
                _ => {},
            }
        },
    }
}

/// Once consistent requests are recorded, the tables hold the link of each of them.
pub proof fn lemma_recorded_holds(t: SetupCacheDataView, requests: Seq<LinkRequestView>, i: int)
    requires
        consistent(requests),
        0 <= i < requests.len(),
        requests[i] is Link,
    ensures
        holds_link(
            recorded_all(t, requests),
            requests[i]->table,
            requests[i]->key,
            requests[i]->target_folder,
        ),
    decreases requests.len(),
{
    let last = requests.last();
    let before = recorded_all(t, requests.drop_last());
    if i < requests.len() - 1 {
        assert(requests.drop_last()[i] == requests[i]);
        assert(consistent(requests.drop_last())) by {
            assert forall|a: int, b: int|
                0 <= a < requests.drop_last().len() && 0 <= b < requests.drop_last().len()
                implies !at_odds(
                #[trigger] requests.drop_last()[a],
                #[trigger] requests.drop_last()[b],
            ) by {
                assert(requests.drop_last()[a] == requests[a]);
                assert(requests.drop_last()[b] == requests[b]);
            }
        }
        lemma_recorded_holds(t, requests.drop_last(), i);
        assert(!at_odds(requests[requests.len() - 1], requests[i]));
        lemma_link_stays(
            before,
            last,
            requests[i]->table,
            requests[i]->key,
            requests[i]->target_folder,
        );
    } else {
        match requests[i]->table {
            TableRefView::Dep(f) => {},
            _ => {},
        }
    }
}

/// Requests that the tables already satisfy ask for no link to be made.
pub proof fn lemma_nothing_to_make(previous: SetupCacheDataView, requests: Seq<LinkRequestView>)
    requires
        forall|i: int|
            0 <= i < requests.len() ==> !is_new(Some(previous), #[trigger] requests[i]),
    ensures
        links_to_make(Some(previous), requests) == Seq::<(Seq<char>, Seq<char>)>::empty(),
    decreases requests.len(),
{
    if requests.len() > 0 {
        assert forall|i: int| 0 <= i < requests.drop_last().len() implies !is_new(
            Some(previous),
            #[trigger] requests.drop_last()[i],
        ) by {
            assert(requests.drop_last()[i] == requests[i]);
        }
        lemma_nothing_to_make(previous, requests.drop_last());
        assert(!is_new(Some(previous), requests[requests.len() - 1]));
    }
}

/// A synchronization that finds the tables which its own requests leave
/// makes no link.
pub proof fn lemma_repeated_requests_are_idle(requests: Seq<LinkRequestView>)
    requires
        consistent(requests),
    ensures
        links_to_make(Some(recorded_all(empty_tables(), requests)), requests) == Seq::<
            (Seq<char>, Seq<char>),
        >::empty(),
{
    let done = recorded_all(empty_tables(), requests);
    assert forall|i: int| 0 <= i < requests.len() implies !is_new(
        Some(done),
        #[trigger] requests[i],
    ) by {
        if requests[i] is Link {
            lemma_recorded_holds(empty_tables(), requests, i);
        }
    }
    lemma_nothing_to_make(done, requests);
}

/// Records every request in the tables of this synchronization and gives
/// the links that have to be made.
pub fn process_requests(cache: &mut SetupCache, requests: &Vec<LinkRequest>) -> (links: Vec<
    LinkAction,
>)
    requires
        old(cache).wf(),
    ensures
        final(cache).wf(),
        final(cache).previous == old(cache).previous,
        final(cache).file_path == old(cache).file_path,
        final(cache).current@ == recorded_all(old(cache).current@, request_views(requests@)),
        action_views(links@) == links_to_make(
            opt_data_view(old(cache).previous),
            request_views(requests@),
        ),
{
    let mut links: Vec<LinkAction> = Vec::new();
    let ghost all = request_views(requests@);
    let ghost previous = opt_data_view(cache.previous);
    let ghost start = cache.current@;
    let mut i: usize = 0;
    assert(all.take(0) =~= Seq::<LinkRequestView>::empty());
    assert(action_views(links@) =~= Seq::<(Seq<char>, Seq<char>)>::empty());
    while i < requests.len()
        invariant
            i <= requests.len(),
            all == request_views(requests@),
            cache.wf(),
            cache.previous == old(cache).previous,
            cache.file_path == old(cache).file_path,
            previous == opt_data_view(cache.previous),
            cache.current@ == recorded_all(start, all.take(i as int)),
            action_views(links@) == links_to_make(previous, all.take(i as int)),
        decreases requests.len() - i,
    {
        let request = &requests[i];
        proof {
            assert(all.take(i + 1).drop_last() =~= all.take(i as int));
            assert(all.take(i + 1).last() == request@);
        }
        let ghost before = cache.current@;
        match request {
            LinkRequest::Open { folder } => {
                let dep = cache.with_dep(folder.as_str());
            },
            LinkRequest::Link { table, key, target_folder, target_path, link_path } => {
                let changed = match table {
                    TableRef::Root => cache.insert_root_symlink(
                        key.as_str(),
                        target_folder.as_str(),
                    ),
                    TableRef::Deno => cache.insert_deno_symlink(
                        key.as_str(),
                        target_folder.as_str(),
                    ),
                    TableRef::Dep(folder) => {
                        let mut dep = cache.with_dep(folder.as_str());
                        dep.insert(key.as_str(), target_folder.as_str())
                    },
                };
                assert(changed == is_new(previous, request@));
                if changed {
                    let ghost shown = action_views(links@);
                    links.push(LinkAction { target: target_path.clone(), link: link_path.clone() });
                    assert(action_views(links@) =~= shown.push(link_of(request@)));
                }
            },
        }
        assert(cache.current@ == recorded(before, request@));
        i += 1;
    }
    assert(all.take(requests.len() as int) =~= all);
    links
}

} // verus!
