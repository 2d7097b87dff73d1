//! Small tables from names to values, kept as lists in which no name occurs twice.

use vstd::prelude::*;
use crate::text::{chars_of, same_chars, same_text};

verus! {

/// `i` is the position of the first pair whose key is `key`.
pub open spec fn is_first_key<V>(pairs: Seq<(Seq<char>, V)>, key: Seq<char>, i: int) -> bool {
    &&& 0 <= i < pairs.len()
    &&& pairs[i].0 == key
    &&& forall|j: int| 0 <= j < i ==> pairs[j].0 != key
}

/// The position of the first pair whose key is `key`.
pub open spec fn key_index<V>(pairs: Seq<(Seq<char>, V)>, key: Seq<char>) -> Option<int> {
    if exists|i: int| is_first_key(pairs, key, i) {
        Some(choose|i: int| is_first_key(pairs, key, i))
    } else {
        None
    }
}

/// No key occurs twice.
pub open spec fn unique_keys<V>(pairs: Seq<(Seq<char>, V)>) -> bool {
    forall|i: int, j: int|
        0 <= i < pairs.len() && 0 <= j < pairs.len() && i != j ==> #[trigger] pairs[i].0
            != #[trigger] pairs[j].0
}

/// The table that a list of pairs stands for.
pub open spec fn pairs_map<V>(pairs: Seq<(Seq<char>, V)>) -> Map<Seq<char>, V> {
    Map::new(
        |k: Seq<char>| key_index(pairs, k) is Some,
        |k: Seq<char>| pairs[key_index(pairs, k)->0].1,
    )
}

pub proof fn lemma_key_index<V>(pairs: Seq<(Seq<char>, V)>, key: Seq<char>, i: int)
    requires
        is_first_key(pairs, key, i),
    ensures
        key_index(pairs, key) == Some(i),
{
    let k = choose|k: int| is_first_key(pairs, key, k);
    assert(is_first_key(pairs, key, k));
    if k < i {
        assert(pairs[k].0 != key);
    } else if i < k {
        assert(pairs[i].0 != key);
    }
}

pub proof fn lemma_no_key_index<V>(pairs: Seq<(Seq<char>, V)>, key: Seq<char>)
    requires
        forall|j: int| 0 <= j < pairs.len() ==> pairs[j].0 != key,
    ensures
        key_index(pairs, key) is None,
{
    assert forall|i: int| !is_first_key(pairs, key, i) by {}
}

/// What `key_index` says of the pairs.
pub proof fn lemma_key_index_facts<V>(pairs: Seq<(Seq<char>, V)>, key: Seq<char>)
    ensures
        match key_index(pairs, key) {
            Some(i) => is_first_key(pairs, key, i),
            None => forall|j: int| 0 <= j < pairs.len() ==> pairs[j].0 != key,
        },
{
    if key_index(pairs, key) is None {
        assert forall|j: int| 0 <= j < pairs.len() implies pairs[j].0 != key by {
            if pairs[j].0 == key {
                lemma_some_key_index(pairs, key, j);
            }
        }
    }
}

proof fn lemma_some_key_index<V>(pairs: Seq<(Seq<char>, V)>, key: Seq<char>, j: int)
    requires
        0 <= j < pairs.len(),
        pairs[j].0 == key,
    ensures
        exists|i: int| is_first_key(pairs, key, i),
    decreases j,
{
    if forall|k: int| 0 <= k < j ==> pairs[k].0 != key {
        assert(is_first_key(pairs, key, j));
    } else {
        let k = choose|k: int| 0 <= k < j && pairs[k].0 == key;
        lemma_some_key_index(pairs, key, k);
    }
}

/// In a list without repeated keys, the pair at `i` is the one found for its key.
pub proof fn lemma_unique_index<V>(pairs: Seq<(Seq<char>, V)>, i: int)
    requires
        unique_keys(pairs),
        0 <= i < pairs.len(),
    ensures
        key_index(pairs, pairs[i].0) == Some(i),
{
    assert(is_first_key(pairs, pairs[i].0, i));
    lemma_key_index(pairs, pairs[i].0, i);
}

/// Adding a pair under a new key leaves no key twice.
proof fn lemma_push_keeps_unique<V>(pairs: Seq<(Seq<char>, V)>, key: Seq<char>, value: V)
    requires
        unique_keys(pairs),
        key_index(pairs, key) is None,
    ensures
        unique_keys(pairs.push((key, value))),
{
    let after = pairs.push((key, value));
    lemma_key_index_facts(pairs, key);
    assert forall|i: int, j: int|
        0 <= i < after.len() && 0 <= j < after.len() && i != j implies #[trigger] after[i].0
        != #[trigger] after[j].0 by {
        if i < pairs.len() && j < pairs.len() {
            assert(pairs[i].0 != pairs[j].0);
        }
    }
}

/// What the table says of the key `k` once a pair is added under a new key.
proof fn lemma_push_pair_at<V>(pairs: Seq<(Seq<char>, V)>, key: Seq<char>, value: V, k: Seq<char>)
    requires
        unique_keys(pairs),
        key_index(pairs, key) is None,
    ensures
        pairs_map(pairs.push((key, value))).dom().contains(k) == pairs_map(pairs).insert(
            key,
            value,
        ).dom().contains(k),
        pairs_map(pairs.push((key, value))).dom().contains(k) ==> pairs_map(
            pairs.push((key, value)),
        )[k] == pairs_map(pairs).insert(key, value)[k],
{
    let after = pairs.push((key, value));
    lemma_push_keeps_unique(pairs, key, value);
    lemma_key_index_facts(pairs, k);
    lemma_key_index_facts(after, k);
    if k == key {
        lemma_unique_index(after, pairs.len() as int);
    } else {
        match key_index(pairs, k) {
            Some(i) => {
                assert(after[i] == pairs[i]);
                lemma_unique_index(after, i);
            },
            None => {
                if key_index(after, k) is Some {
                    let m = key_index(after, k)->0;
                    assert(m < pairs.len());
                    assert(pairs[m].0 == k);
                }
            },
        }
    }
}

/// Adding a pair under a new key adds it to the table.
pub proof fn lemma_push_pair<V>(pairs: Seq<(Seq<char>, V)>, key: Seq<char>, value: V)
    requires
        unique_keys(pairs),
        key_index(pairs, key) is None,
    ensures
        unique_keys(pairs.push((key, value))),
        pairs_map(pairs.push((key, value))) == pairs_map(pairs).insert(key, value),
{
    let after = pairs.push((key, value));
    let wanted = pairs_map(pairs).insert(key, value);
    lemma_push_keeps_unique(pairs, key, value);
    assert forall|k: Seq<char>| #[trigger]
        pairs_map(after).dom().contains(k) == wanted.dom().contains(k) by {
        lemma_push_pair_at(pairs, key, value, k);
    }
    assert(pairs_map(after).dom() =~= wanted.dom());
    assert forall|k: Seq<char>| pairs_map(after).dom().contains(k) implies #[trigger] pairs_map(
        after,
    )[k] == wanted[k] by {
        lemma_push_pair_at(pairs, key, value, k);
    }
    assert(pairs_map(after) =~= wanted);
}

/// Replacing the value of the pair at `i` leaves no key twice.
proof fn lemma_update_keeps_unique<V>(pairs: Seq<(Seq<char>, V)>, i: int, value: V)
    requires
        unique_keys(pairs),
        0 <= i < pairs.len(),
    ensures
        unique_keys(pairs.update(i, (pairs[i].0, value))),
{
    let after = pairs.update(i, (pairs[i].0, value));
    assert forall|a: int, b: int|
        0 <= a < after.len() && 0 <= b < after.len() && a != b implies #[trigger] after[a].0
        != #[trigger] after[b].0 by {
        assert(after[a].0 == pairs[a].0);
        assert(after[b].0 == pairs[b].0);
    }
}

/// What the table says of the key `k` once the value of the pair at `i` is replaced.
proof fn lemma_update_pair_at<V>(pairs: Seq<(Seq<char>, V)>, i: int, value: V, k: Seq<char>)
    requires
        unique_keys(pairs),
        0 <= i < pairs.len(),
    ensures
        pairs_map(pairs.update(i, (pairs[i].0, value))).dom().contains(k) == pairs_map(
            pairs,
        ).insert(pairs[i].0, value).dom().contains(k),
        pairs_map(pairs.update(i, (pairs[i].0, value))).dom().contains(k) ==> pairs_map(
            pairs.update(i, (pairs[i].0, value)),
        )[k] == pairs_map(pairs).insert(pairs[i].0, value)[k],
{
    let key = pairs[i].0;
    let after = pairs.update(i, (key, value));
    lemma_update_keeps_unique(pairs, i, value);
    lemma_key_index_facts(pairs, k);
    lemma_key_index_facts(after, k);
    if k == key {
        lemma_unique_index(after, i);
        lemma_unique_index(pairs, i);
    } else {
        match key_index(pairs, k) {
            Some(m) => {
                assert(after[m] == pairs[m]);
                lemma_unique_index(after, m);
            },
            None => {
                if key_index(after, k) is Some {
                    let m = key_index(after, k)->0;
                    assert(pairs[m].0 == after[m].0);
                }
            },
        }
    }
}

/// Replacing the value of the pair at `i` replaces it in the table.
pub proof fn lemma_update_pair<V>(pairs: Seq<(Seq<char>, V)>, i: int, value: V)
    requires
        unique_keys(pairs),
        0 <= i < pairs.len(),
    ensures
        unique_keys(pairs.update(i, (pairs[i].0, value))),
        pairs_map(pairs.update(i, (pairs[i].0, value))) == pairs_map(pairs).insert(
            pairs[i].0,
            value,
        ),
{
    let after = pairs.update(i, (pairs[i].0, value));
    let wanted = pairs_map(pairs).insert(pairs[i].0, value);
    lemma_update_keeps_unique(pairs, i, value);
    assert forall|k: Seq<char>| #[trigger]
        pairs_map(after).dom().contains(k) == wanted.dom().contains(k) by {
        lemma_update_pair_at(pairs, i, value, k);
    }
    assert(pairs_map(after).dom() =~= wanted.dom());
    assert forall|k: Seq<char>| pairs_map(after).dom().contains(k) implies #[trigger] pairs_map(
        after,
    )[k] == wanted[k] by {
        lemma_update_pair_at(pairs, i, value, k);
    }
    assert(pairs_map(after) =~= wanted);
}

/// Taking the pair at `i` out leaves no key twice.
proof fn lemma_remove_keeps_unique<V>(pairs: Seq<(Seq<char>, V)>, i: int)
    requires
        unique_keys(pairs),
        0 <= i < pairs.len(),
    ensures
        unique_keys(pairs.remove(i)),
{
    let after = pairs.remove(i);
    assert forall|a: int, b: int|
        0 <= a < after.len() && 0 <= b < after.len() && a != b implies #[trigger] after[a].0
        != #[trigger] after[b].0 by {
        let a0 = if a < i {
            a
        } else {
            a + 1
        };
        let b0 = if b < i {
            b
        } else {
            b + 1
        };
        assert(after[a] == pairs[a0]);
        assert(after[b] == pairs[b0]);
    }
}

/// What the table says of the key `k` once the pair at `i` is taken out.
proof fn lemma_remove_pair_at<V>(pairs: Seq<(Seq<char>, V)>, i: int, k: Seq<char>)
    requires
        unique_keys(pairs),
        0 <= i < pairs.len(),
    ensures
        pairs_map(pairs.remove(i)).dom().contains(k) == pairs_map(pairs).remove(
            pairs[i].0,
        ).dom().contains(k),
        pairs_map(pairs.remove(i)).dom().contains(k) ==> pairs_map(pairs.remove(i))[k]
            == pairs_map(pairs).remove(pairs[i].0)[k],
{
    let key = pairs[i].0;
    let after = pairs.remove(i);
    lemma_remove_keeps_unique(pairs, i);
    lemma_key_index_facts(pairs, k);
    lemma_key_index_facts(after, k);
    if key_index(after, k) is Some {
        let m = key_index(after, k)->0;
        let m0 = if m < i {
            m
        } else {
            m + 1
        };
        assert(after[m] == pairs[m0]);
        lemma_unique_index(pairs, m0);
        assert(pairs[m0].0 != pairs[i].0);
    }
    if k != key && key_index(pairs, k) is Some {
        let m0 = key_index(pairs, k)->0;
        let m = if m0 < i {
            m0
        } else {
            m0 - 1
        };
        assert(after[m] == pairs[m0]);
        lemma_unique_index(after, m);
    }
}

/// Taking the pair at `i` out takes its key out of the table.
pub proof fn lemma_remove_pair<V>(pairs: Seq<(Seq<char>, V)>, i: int)
    requires
        unique_keys(pairs),
        0 <= i < pairs.len(),
    ensures
        unique_keys(pairs.remove(i)),
        pairs_map(pairs.remove(i)) == pairs_map(pairs).remove(pairs[i].0),
{
    let after = pairs.remove(i);
    let wanted = pairs_map(pairs).remove(pairs[i].0);
    lemma_remove_keeps_unique(pairs, i);
    assert forall|k: Seq<char>| #[trigger]
        pairs_map(after).dom().contains(k) == wanted.dom().contains(k) by {
        lemma_remove_pair_at(pairs, i, k);
    }
    assert(pairs_map(after).dom() =~= wanted.dom());
    assert forall|k: Seq<char>| pairs_map(after).dom().contains(k) implies #[trigger] pairs_map(
        after,
    )[k] == wanted[k] by {
        lemma_remove_pair_at(pairs, i, k);
    }
    assert(pairs_map(after) =~= wanted);
}

/// The pairs of texts that a list of pairs of strings holds.
pub open spec fn text_pairs(v: Seq<(String, String)>) -> Seq<(Seq<char>, Seq<char>)> {
    v.map_values(|p: (String, String)| (p.0@, p.1@))
}

/// A table from names to names.
#[derive(Debug)]
pub struct SymlinkTable {
    entries: Vec<(String, String)>,
}

impl View for SymlinkTable {
    type V = Map<Seq<char>, Seq<char>>;

    closed spec fn view(&self) -> Map<Seq<char>, Seq<char>> {
        pairs_map(text_pairs(self.entries@))
    }
}

impl SymlinkTable {
    /// No name occurs twice in the list that holds the table.
    pub closed spec fn wf(&self) -> bool {
        unique_keys(text_pairs(self.entries@))
    }

    /// The entries in the order in which the table holds them.
    pub closed spec fn listed(&self) -> Seq<(Seq<char>, Seq<char>)> {
        text_pairs(self.entries@)
    }

    /// The table without entries.
    pub fn new() -> (t: SymlinkTable)
        ensures
            t.wf(),
            t@ == Map::<Seq<char>, Seq<char>>::empty(),
    {
        let t = SymlinkTable { entries: Vec::new() };
        proof {
            lemma_no_key_facts_empty(text_pairs(t.entries@));
        }
        t
    }

    fn find(&self, key: &[char]) -> (r: Option<usize>)
        ensures
            match r {
                Some(i) => i < self.entries.len() && key_index(text_pairs(self.entries@), key@)
                    == Some(i as int) && text_pairs(self.entries@)[i as int].0 == key@,
                None => key_index(text_pairs(self.entries@), key@) is None,
            },
    {
        let mut i: usize = 0;
        while i < self.entries.len()
            invariant
                i <= self.entries.len(),
                forall|j: int| 0 <= j < i ==> text_pairs(self.entries@)[j].0 != key@,
            decreases self.entries.len() - i,
        {
            let k = chars_of(self.entries[i].0.as_str());
            if same_chars(k.as_slice(), key) {
                proof {
                    lemma_key_index(text_pairs(self.entries@), key@, i as int);
                }
                return Some(i);
            }
            i += 1;
        }
        proof {
            lemma_no_key_index(text_pairs(self.entries@), key@);
        }
        None
    }

    /// The number of entries.
    pub fn len(&self) -> (n: usize)
        ensures
            n == self.listed().len(),
    {
        self.entries.len()
    }

    /// The name that the table gives for `key`.
    pub fn get(&self, key: &str) -> (r: Option<&String>)
        ensures
            match r {
                Some(v) => self@.contains_key(key@) && self@[key@] == v@,
                None => !self@.contains_key(key@),
            },
    {
        let k = chars_of(key);
        match self.find(k.as_slice()) {
            Some(i) => Some(&self.entries[i].1),
            None => None,
        }
    }

    /// Whether the table gives exactly `value` for `key`.
    pub fn maps_to(&self, key: &str, value: &str) -> (b: bool)
        ensures
            b == (self@.contains_key(key@) && self@[key@] == value@),
    {
        match self.get(key) {
            Some(v) => same_text(v.as_str(), value),
            None => false,
        }
    }

    /// Sets the name that the table gives for `key`.
    pub fn insert(&mut self, key: &str, value: &str)
        requires
            old(self).wf(),
        ensures
            final(self).wf(),
            final(self)@ == old(self)@.insert(key@, value@),
    {
        let k = chars_of(key);
        let ghost before = text_pairs(self.entries@);
        match self.find(k.as_slice()) {
            Some(i) => {
                self.entries[i] = (key.to_owned(), value.to_owned());
                proof {
                    assert(text_pairs(self.entries@) =~= before.update(
                        i as int,
                        (before[i as int].0, value@),
                    ));
                    lemma_update_pair(before, i as int, value@);
                }
            },
            None => {
                self.entries.push((key.to_owned(), value.to_owned()));
                proof {
                    assert(text_pairs(self.entries@) =~= before.push((key@, value@)));
                    lemma_push_pair(before, key@, value@);
                }
            },
        }
    }

    /// The pair at position `i` of the list that holds the table.
    pub fn pair_at(&self, i: usize) -> (r: (&String, &String))
        requires
            self.wf(),
            i < self.listed().len(),
        ensures
            self@.contains_key(r.0@),
            self@[r.0@] == r.1@,
            self.listed()[i as int] == (r.0@, r.1@),
    {
        proof {
            assert(text_pairs(self.entries@)[i as int] == (
                self.entries@[i as int].0@,
                self.entries@[i as int].1@,
            ));
            lemma_unique_index(text_pairs(self.entries@), i as int);
        }
        (&self.entries[i].0, &self.entries[i].1)
    }

    /// Whether every entry of this table is an entry of `other`.
    pub fn included_in(&self, other: &SymlinkTable) -> (b: bool)
        requires
            self.wf(),
        ensures
            b == (forall|k: Seq<char>| #[trigger]
                self@.contains_key(k) ==> other@.contains_key(k) && other@[k] == self@[k]),
    {
        let mut i: usize = 0;
        while i < self.entries.len()
            invariant
                self.wf(),
                i <= self.entries.len(),
                forall|j: int|
                    0 <= j < i ==> other@.contains_key(#[trigger] text_pairs(self.entries@)[j].0)
                        && other@[text_pairs(self.entries@)[j].0] == text_pairs(
                        self.entries@,
                    )[j].1,
            decreases self.entries.len() - i,
        {
            let pair = self.pair_at(i);
            assert(text_pairs(self.entries@)[i as int] == (pair.0@, pair.1@));
            if !other.maps_to(pair.0.as_str(), pair.1.as_str()) {
                return false;
            }
            i += 1;
        }
        proof {
            assert forall|k: Seq<char>| #[trigger] self@.contains_key(k) implies other@.contains_key(
                k,
            ) && other@[k] == self@[k] by {
                lemma_key_index_facts(text_pairs(self.entries@), k);
                let m = key_index(text_pairs(self.entries@), k)->0;
                assert(text_pairs(self.entries@)[m].0 == k);
            }
        }
        true
    }

    /// Whether two tables hold the same entries.
    pub fn same_content(&self, other: &SymlinkTable) -> (b: bool)
        requires
            self.wf(),
            other.wf(),
        ensures
            b == (self@ == other@),
    {
        let b = self.included_in(other) && other.included_in(self);
        proof {
            if b {
                assert(self@ =~= other@);
            }
        }
        b
    }

    /// A copy of the entries, in the order of the list that holds the table.
    pub fn pairs(&self) -> (r: Vec<(String, String)>)
        ensures
            text_pairs(r@) == self.listed(),
            pairs_map(text_pairs(r@)) == self@,
    {
        let mut r: Vec<(String, String)> = Vec::new();
        let mut i: usize = 0;
        while i < self.entries.len()
            invariant
                i <= self.entries.len(),
                text_pairs(r@) == text_pairs(self.entries@).take(i as int),
            decreases self.entries.len() - i,
        {
            let ghost before = text_pairs(r@);
            r.push((self.entries[i].0.clone(), self.entries[i].1.clone()));
            assert(text_pairs(r@) =~= before.push(text_pairs(self.entries@)[i as int]));
            assert(text_pairs(self.entries@).take(i + 1) == text_pairs(self.entries@).take(
                i as int,
            ).push(text_pairs(self.entries@)[i as int]));
            i += 1;
        }
        assert(text_pairs(self.entries@).take(self.entries.len() as int) == text_pairs(
            self.entries@,
        ));
        r
    }

    /// A copy of the table.
    pub fn duplicate(&self) -> (r: SymlinkTable)
        ensures
            r@ == self@,
            self.wf() ==> r.wf(),
    {
        SymlinkTable { entries: self.pairs() }
    }
}

/// A list without pairs stands for the empty table.
pub proof fn lemma_no_key_facts_empty<V>(pairs: Seq<(Seq<char>, V)>)
    requires
        pairs.len() == 0,
    ensures
        unique_keys(pairs),
        pairs_map(pairs) == Map::<Seq<char>, V>::empty(),
{
    assert forall|k: Seq<char>| !pairs_map(pairs).dom().contains(k) by {
        lemma_key_index_facts(pairs, k);
    }
    assert(pairs_map(pairs) =~= Map::<Seq<char>, V>::empty());
}

} // verus!
