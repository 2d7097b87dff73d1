//! What the last synchronization of the store set up, kept to tell which
//! links the next one can leave alone.

use vstd::prelude::*;
use crate::table::{
    key_index, lemma_key_index, lemma_key_index_facts, lemma_no_key_facts_empty, lemma_no_key_index,
    lemma_push_pair, lemma_remove_pair, lemma_unique_index, lemma_update_pair, pairs_map,
    unique_keys, SymlinkTable,
};
use crate::text::{chars_of, same_chars};

verus! {

/// The pairs of name and table that a list holds.
pub open spec fn dep_pairs(v: Seq<(String, SymlinkTable)>) -> Seq<
    (Seq<char>, Map<Seq<char>, Seq<char>>),
> {
    v.map_values(|p: (String, SymlinkTable)| (p.0@, p.1@))
}

/// Every table of the list is well formed.
pub open spec fn tables_wf(v: Seq<(String, SymlinkTable)>) -> bool {
    forall|i: int| 0 <= i < v.len() ==> (#[trigger] v[i]).1.wf()
}

/// A table from package folder names to the links set up inside each.
#[derive(Debug)]
pub struct DepTable {
    entries: Vec<(String, SymlinkTable)>,
}

impl View for DepTable {
    type V = Map<Seq<char>, Map<Seq<char>, Seq<char>>>;

    closed spec fn view(&self) -> Map<Seq<char>, Map<Seq<char>, Seq<char>>> {
        pairs_map(dep_pairs(self.entries@))
    }
}

impl DepTable {
    /// No name occurs twice, and every table held is well formed.
    pub closed spec fn wf(&self) -> bool {
        unique_keys(dep_pairs(self.entries@)) && tables_wf(self.entries@)
    }

    /// The number of entries.
    pub closed spec fn count(&self) -> nat {
        self.entries@.len()
    }

    /// The entries in the order in which the table holds them.
    pub closed spec fn listed(&self) -> Seq<(Seq<char>, Map<Seq<char>, Seq<char>>)> {
        dep_pairs(self.entries@)
    }

    /// The table without entries.
    pub fn new() -> (t: DepTable)
        ensures
            t.wf(),
            t@ == Map::<Seq<char>, Map<Seq<char>, Seq<char>>>::empty(),
    {
        let t = DepTable { entries: Vec::new() };
        proof {
            lemma_no_key_facts_empty(dep_pairs(t.entries@));
        }
        t
    }

    fn find(&self, key: &[char]) -> (r: Option<usize>)
        ensures
            match r {
                Some(i) => i < self.entries.len() && key_index(dep_pairs(self.entries@), key@)
                    == Some(i as int) && dep_pairs(self.entries@)[i as int].0 == key@,
                None => key_index(dep_pairs(self.entries@), key@) is None,
            },
    {
        let mut i: usize = 0;
        while i < self.entries.len()
            invariant
                i <= self.entries.len(),
                forall|j: int| 0 <= j < i ==> dep_pairs(self.entries@)[j].0 != key@,
            decreases self.entries.len() - i,
        {
            let k = chars_of(self.entries[i].0.as_str());
            if same_chars(k.as_slice(), key) {
                proof {
                    lemma_key_index(dep_pairs(self.entries@), key@, i as int);
                }
                return Some(i);
            }
            i += 1;
        }
        proof {
            lemma_no_key_index(dep_pairs(self.entries@), key@);
        }
        None
    }

    /// The number of entries.
    pub fn len(&self) -> (n: usize)
        ensures
            n == self.count(),
    {
        self.entries.len()
    }

    /// The links recorded for the package folder `key`.
    pub fn get(&self, key: &str) -> (r: Option<&SymlinkTable>)
        ensures
            match r {
                Some(t) => self@.contains_key(key@) && self@[key@] == t@ && (self.wf() ==> t.wf()),
                None => !self@.contains_key(key@),
            },
    {
        let k = chars_of(key);
        match self.find(k.as_slice()) {
            Some(i) => {
                assert(dep_pairs(self.entries@)[i as int].1 == self.entries@[i as int].1@);
                Some(&self.entries[i].1)
            },
            None => None,
        }
    }

    /// The entry at position `i`.
    pub fn pair_at(&self, i: usize) -> (r: (&String, &SymlinkTable))
        requires
            self.wf(),
            i < self.count(),
        ensures
            self@.contains_key(r.0@),
            self@[r.0@] == r.1@,
            self.listed()[i as int] == (r.0@, r.1@),
            r.1.wf(),
    {
        proof {
            assert(dep_pairs(self.entries@)[i as int] == (
                self.entries@[i as int].0@,
                self.entries@[i as int].1@,
            ));
            lemma_unique_index(dep_pairs(self.entries@), i as int);
        }
        (&self.entries[i].0, &self.entries[i].1)
    }

    /// Forgets the links recorded for the package folder `key`.
    pub fn remove(&mut self, key: &str)
        requires
            old(self).wf(),
        ensures
            final(self).wf(),
            final(self)@ == old(self)@.remove(key@),
    {
        let k = chars_of(key);
        let ghost before = dep_pairs(self.entries@);
        match self.find(k.as_slice()) {
            Some(i) => {
                self.entries.remove(i);
                proof {
                    assert(dep_pairs(self.entries@) =~= before.remove(i as int));
                    lemma_remove_pair(before, i as int);
                }
            },
            None => {
                proof {
                    assert(self@ =~= self@.remove(key@));
                }
            },
        }
    }

    /// Sets the links recorded for the package folder `key`.
    pub fn insert(&mut self, key: &str, table: SymlinkTable)
        requires
            old(self).wf(),
            table.wf(),
        ensures
            final(self).wf(),
            final(self)@ == old(self)@.insert(key@, table@),
    {
        let k = chars_of(key);
        let ghost before = dep_pairs(self.entries@);
        match self.find(k.as_slice()) {
            Some(i) => {
                self.entries[i] = (key.to_owned(), table);
                proof {
                    assert(dep_pairs(self.entries@) =~= before.update(
                        i as int,
                        (before[i as int].0, table@),
                    ));
                    lemma_update_pair(before, i as int, table@);
                }
            },
            None => {
                self.entries.push((key.to_owned(), table));
                proof {
                    assert(dep_pairs(self.entries@) =~= before.push((key@, table@)));
                    lemma_push_pair(before, key@, table@);
                }
            },
        }
    }

    /// The links recorded for the package folder `key`, to be changed in
    /// place; an empty table is recorded first where there is none.
    pub fn entry(&mut self, key: &str) -> (t: &mut SymlinkTable)
        requires
            old(self).wf(),
        ensures
            t.wf(),
            t@ == if old(self)@.contains_key(key@) {
                old(self)@[key@]
            } else {
                Map::<Seq<char>, Seq<char>>::empty()
            },
            final(self)@ == old(self)@.insert(key@, final(t)@),
            final(t).wf() ==> final(self).wf(),
    {
        let k = chars_of(key);
        let found = self.find(k.as_slice());
        let at: usize = match found {
            Some(i) => i,
            None => {
                let ghost before = dep_pairs(self.entries@);
                let fresh = SymlinkTable::new();
                self.entries.push((key.to_owned(), fresh));
                proof {
                    assert(dep_pairs(self.entries@) =~= before.push((key@, fresh@)));
                    lemma_push_pair(before, key@, fresh@);
                    lemma_unique_index(dep_pairs(self.entries@), before.len() as int);
                }
                self.entries.len() - 1
            },
        };
        let ghost mid = self.entries@;
        proof {
            assert(dep_pairs(mid)[at as int] == (mid[at as int].0@, mid[at as int].1@));
            lemma_unique_index(dep_pairs(mid), at as int);
            // Whatever table is left at the position, the list stands for
            // the old table with that table under the key.
            assert forall|fin: SymlinkTable|
                unique_keys(
                    #[trigger] dep_pairs(mid.update(at as int, (mid[at as int].0, fin))),
                ) && pairs_map(dep_pairs(mid.update(at as int, (mid[at as int].0, fin))))
                    == pairs_map(dep_pairs(mid)).insert(key@, fin@) && (fin.wf() ==> tables_wf(
                    mid.update(at as int, (mid[at as int].0, fin)),
                )) by {
                let after = mid.update(at as int, (mid[at as int].0, fin));
                assert(dep_pairs(after) =~= dep_pairs(mid).update(
                    at as int,
                    (dep_pairs(mid)[at as int].0, fin@),
                ));
                lemma_update_pair(dep_pairs(mid), at as int, fin@);
            }
            assert(pairs_map(dep_pairs(mid)).insert(key@, mid[at as int].1@).insert(
                key@,
                mid[at as int].1@,
            ) =~= pairs_map(dep_pairs(mid)).insert(key@, mid[at as int].1@));
        }
        &mut self.entries[at].1
    }

    /// Whether every entry of this table is an entry of `other`.
    pub fn included_in(&self, other: &DepTable) -> (b: bool)
        requires
            self.wf(),
            other.wf(),
        ensures
            b == (forall|k: Seq<char>| #[trigger]
                self@.contains_key(k) ==> other@.contains_key(k) && other@[k] == self@[k]),
    {
        let mut i: usize = 0;
        while i < self.entries.len()
            invariant
                self.wf(),
                other.wf(),
                i <= self.entries.len(),
                forall|j: int|
                    0 <= j < i ==> other@.contains_key(#[trigger] dep_pairs(self.entries@)[j].0)
                        && other@[dep_pairs(self.entries@)[j].0] == dep_pairs(self.entries@)[j].1,
            decreases self.entries.len() - i,
        {
            let pair = self.pair_at(i);
            assert(dep_pairs(self.entries@)[i as int] == (pair.0@, pair.1@));
            let same = match other.get(pair.0.as_str()) {
                Some(t) => pair.1.same_content(t),
                None => false,
            };
            if !same {
                return false;
            }
            i += 1;
        }
        proof {
            assert forall|k: Seq<char>| #[trigger] self@.contains_key(k) implies other@.contains_key(
                k,
            ) && other@[k] == self@[k] by {
                lemma_key_index_facts(dep_pairs(self.entries@), k);
                let m = key_index(dep_pairs(self.entries@), k)->0;
                assert(dep_pairs(self.entries@)[m].0 == k);
            }
        }
        true
    }

    /// Whether two tables hold the same entries.
    pub fn same_content(&self, other: &DepTable) -> (b: bool)
        requires
            self.wf(),
            other.wf(),
        ensures
            b == (self@ == other@),
    {
        let b = self.included_in(other) && other.included_in(self);
        proof {
            if b {
                assert(self@ =~= other@);
            }
        }
        b
    }
}

/// The three tables of a synchronization: the links at the top of the
/// project, the links hoisted into the store, and the links inside each package folder.
#[derive(Debug)]
pub struct SetupCacheData {
    pub root_symlinks: SymlinkTable,
    pub deno_symlinks: SymlinkTable,
    pub dep_symlinks: DepTable,
}

/// The mathematical content of a `SetupCacheData`.
pub struct SetupCacheDataView {
    pub root_symlinks: Map<Seq<char>, Seq<char>>,
    pub deno_symlinks: Map<Seq<char>, Seq<char>>,
    pub dep_symlinks: Map<Seq<char>, Map<Seq<char>, Seq<char>>>,
}

impl View for SetupCacheData {
    type V = SetupCacheDataView;

    open spec fn view(&self) -> SetupCacheDataView {
        SetupCacheDataView {
            root_symlinks: self.root_symlinks@,
            deno_symlinks: self.deno_symlinks@,
            dep_symlinks: self.dep_symlinks@,
        }
    }
}

impl SetupCacheData {
    /// All three tables are well formed.
    pub open spec fn wf(&self) -> bool {
        self.root_symlinks.wf() && self.deno_symlinks.wf() && self.dep_symlinks.wf()
    }

    /// Three empty tables.
    pub fn new() -> (d: SetupCacheData)
        ensures
            d.wf(),
            d@.root_symlinks == Map::<Seq<char>, Seq<char>>::empty(),
            d@.deno_symlinks == Map::<Seq<char>, Seq<char>>::empty(),
            d@.dep_symlinks == Map::<Seq<char>, Map<Seq<char>, Seq<char>>>::empty(),
    {
        SetupCacheData {
            root_symlinks: SymlinkTable::new(),
            deno_symlinks: SymlinkTable::new(),
            dep_symlinks: DepTable::new(),
        }
    }

    /// Whether two sets of tables hold the same entries.
    pub fn same_content(&self, other: &SetupCacheData) -> (b: bool)
        requires
            self.wf(),
            other.wf(),
        ensures
            b == (self@ == other@),
    {
        self.root_symlinks.same_content(&other.root_symlinks) && self.deno_symlinks.same_content(
            &other.deno_symlinks,
        ) && self.dep_symlinks.same_content(&other.dep_symlinks)
    }
}

/// The content of optional tables.
pub open spec fn opt_data_view(d: Option<SetupCacheData>) -> Option<SetupCacheDataView> {
    match d {
        Some(x) => Some(x@),
        None => None,
    }
}

/// Whether the tables `previous` already give `target` for `name`.
pub open spec fn already_linked(
    previous: Option<Map<Seq<char>, Seq<char>>>,
    name: Seq<char>,
    target: Seq<char>,
) -> bool {
    match previous {
        Some(p) => p.contains_key(name) && p[name] == target,
        None => false,
    }
}

/// The links inside one package folder: those of the last
/// synchronization, to compare with, and those of this one, to fill.
pub struct SetupCacheDep<'a> {
    pub previous: Option<&'a SymlinkTable>,
    pub current: &'a mut SymlinkTable,
}

/// The content of an optional table reference.
pub open spec fn opt_table_view(t: Option<&SymlinkTable>) -> Option<Map<Seq<char>, Seq<char>>> {
    match t {
        Some(x) => Some(x@),
        None => None,
    }
}

impl<'a> SetupCacheDep<'a> {
    /// Records that the dependency `name` links to `target_folder_name`,
    /// and tells whether the link has to be made: whether the last
    /// synchronization did not leave exactly this link.
    pub fn insert(&mut self, name: &str, target_folder_name: &str) -> (changed: bool)
        requires
            old(self).current.wf(),
        ensures
            final(self).current.wf(),
            final(self).current@ == old(self).current@.insert(name@, target_folder_name@),
            final(self).previous == old(self).previous,
            *final(final(self).current) == *final(old(self).current),
            changed == !already_linked(
                opt_table_view(old(self).previous),
                name@,
                target_folder_name@,
            ),
    {
        self.current.insert(name, target_folder_name);
        match self.previous {
            Some(p) => !p.maps_to(name, target_folder_name),
            None => true,
        }
    }
}

/// The state of one synchronization: what the last one left, and what this one sets up.
pub struct SetupCache {
    pub file_path: String,
    pub previous: Option<SetupCacheData>,
    pub current: SetupCacheData,
}

impl SetupCache {
    /// The tables of both synchronizations are well formed.
    pub open spec fn wf(&self) -> bool {
        self.current.wf() && match self.previous {
            Some(p) => p.wf(),
            None => true,
        }
    }

    /// The state at the start of a synchronization: `previous` is what was
    /// read from `file_path`, none where nothing usable was there; nothing is set up yet.
    pub fn load(file_path: String, previous: Option<SetupCacheData>) -> (c: SetupCache)
        requires
            match previous {
                Some(p) => p.wf(),
                None => true,
            },
        ensures
            c.wf(),
            c.file_path == file_path,
            c.previous == previous,
            c.current@.root_symlinks == Map::<Seq<char>, Seq<char>>::empty(),
            c.current@.deno_symlinks == Map::<Seq<char>, Seq<char>>::empty(),
            c.current@.dep_symlinks == Map::<Seq<char>, Map<Seq<char>, Seq<char>>>::empty(),
    {
        SetupCache { file_path, previous, current: SetupCacheData::new() }
    }

    /// Whether the tables have to be written: whether this synchronization
    /// set up anything other than what the last one left.
    pub fn save(&self) -> (write: bool)
        requires
            self.wf(),
        ensures
            write == !(opt_data_view(self.previous) == Some(self.current@)),
    {
        match &self.previous {
            Some(previous) => !previous.same_content(&self.current),
            None => true,
        }
    }

    /// Records the link `node_modules/<name>` to the package folder
    /// `target_folder_name`, and tells whether the link has to be made.
    pub fn insert_root_symlink(&mut self, name: &str, target_folder_name: &str) -> (changed: bool)
        requires
            old(self).wf(),
        ensures
            final(self).wf(),
            final(self).previous == old(self).previous,
            final(self).file_path == old(self).file_path,
            final(self).current@.root_symlinks == old(self).current@.root_symlinks.insert(
                name@,
                target_folder_name@,
            ),
            final(self).current@.deno_symlinks == old(self).current@.deno_symlinks,
            final(self).current@.dep_symlinks == old(self).current@.dep_symlinks,
            changed == !already_linked(
                match old(self).previous {
                    Some(p) => Some(p@.root_symlinks),
                    None => None,
                },
                name@,
                target_folder_name@,
            ),
    {
        self.current.root_symlinks.insert(name, target_folder_name);
        match &self.previous {
            Some(p) => !p.root_symlinks.maps_to(name, target_folder_name),
            None => true,
        }
    }

    /// Records the link `node_modules/.deno/node_modules/<name>` to the
    /// package folder `target_folder_name`, and tells whether the link has to be made.
    pub fn insert_deno_symlink(&mut self, name: &str, target_folder_name: &str) -> (changed: bool)
        requires
            old(self).wf(),
        ensures
            final(self).wf(),
            final(self).previous == old(self).previous,
            final(self).file_path == old(self).file_path,
            final(self).current@.deno_symlinks == old(self).current@.deno_symlinks.insert(
                name@,
                target_folder_name@,
            ),
            final(self).current@.root_symlinks == old(self).current@.root_symlinks,
            final(self).current@.dep_symlinks == old(self).current@.dep_symlinks,
            changed == !already_linked(
                match old(self).previous {
                    Some(p) => Some(p@.deno_symlinks),
                    None => None,
                },
                name@,
                target_folder_name@,
            ),
    {
        self.current.deno_symlinks.insert(name, target_folder_name);
        match &self.previous {
            Some(p) => !p.deno_symlinks.maps_to(name, target_folder_name),
            None => true,
        }
    }

    /// The links inside the package folder `parent_name`: those that the
    /// last synchronization left there, and those of this one, which has a
    /// table for the folder from now on.
    pub fn with_dep(&mut self, parent_name: &str) -> (dep: SetupCacheDep<'_>)
        requires
            old(self).wf(),
        ensures
            dep.current.wf(),
            opt_table_view(dep.previous) == match old(self).previous {
                Some(p) => if p@.dep_symlinks.contains_key(parent_name@) {
                    Some(p@.dep_symlinks[parent_name@])
                } else {
                    None
                },
                None => None,
            },
            dep.current@ == if old(self).current@.dep_symlinks.contains_key(parent_name@) {
                old(self).current@.dep_symlinks[parent_name@]
            } else {
                Map::<Seq<char>, Seq<char>>::empty()
            },
            final(self).current@.dep_symlinks == old(self).current@.dep_symlinks.insert(
                parent_name@,
                final(dep.current)@,
            ),
            final(self).current@.root_symlinks == old(self).current@.root_symlinks,
            final(self).current@.deno_symlinks == old(self).current@.deno_symlinks,
            final(self).previous == old(self).previous,
            final(self).file_path == old(self).file_path,
            final(dep.current).wf() ==> final(self).wf(),
    {
        let previous: Option<&SymlinkTable> = match &self.previous {
            Some(p) => p.dep_symlinks.get(parent_name),
            None => None,
        };
        let current = self.current.dep_symlinks.entry(parent_name);
        SetupCacheDep { previous, current }
    }

    /// Forgets what the last synchronization set up inside the package
    /// folder `parent_name`, so that every link there is made again.
    pub fn remove_dep(&mut self, parent_name: &str)
        requires
            old(self).wf(),
        ensures
            final(self).wf(),
            final(self).current == old(self).current,
            final(self).file_path == old(self).file_path,
            match old(self).previous {
                Some(p) => final(self).previous is Some && final(self).previous->0@.root_symlinks
                    == p@.root_symlinks && final(self).previous->0@.deno_symlinks
                    == p@.deno_symlinks && final(self).previous->0@.dep_symlinks
                    == p@.dep_symlinks.remove(parent_name@),
                None => final(self).previous is None,
            },
    {
        match &mut self.previous {
            Some(previous) => {
                previous.dep_symlinks.remove(parent_name);
            },
            None => {},
        }
    }
}

} // verus!
