//! Matching a request against the keys of an `exports` or `imports` map.

use vstd::prelude::*;
use crate::model::{Target, TargetView, entries_view};
use crate::path::{split, split_on, texts};
use crate::pattern::{base_len, compare_keys, pattern_key_order};
use crate::text::{
    chars_of, ends_with, find_char, first_index, has_prefix, has_suffix, head_before, last_index,
    lemma_index_iff_contains, replace_char, replaced_char, rfind_char, slice_of, starts_with,
    str_is, tail_after,
};

verus! {

/// A path segment that no target and no subpath may hold.
pub open spec fn is_forbidden_segment(seg: Seq<char>) -> bool {
    seg == "."@ || seg == ".."@ || seg == "node_modules"@
}

/// The segments of `s`, separated by `/` or `\`.
pub open spec fn segments(s: Seq<char>) -> Seq<Seq<char>> {
    split_on(replaced_char(s, '\\', '/'), '/')
}

/// Whether some segment of `s` is `.`, `..` or `node_modules`.
pub open spec fn has_invalid_segment(s: Seq<char>) -> bool {
    exists|i: int| 0 <= i < segments(s).len() && is_forbidden_segment(#[trigger] segments(s)[i])
}

/// Whether some segment of `s` is `.`, `..` or `node_modules`.
pub fn contains_invalid_segment(s: &[char]) -> (b: bool)
    ensures
        b == has_invalid_segment(s@),
{
    let unified = replace_char(s, '\\', '/');
    let parts = split(unified.as_slice(), '/');
    let mut i: usize = 0;
    while i < parts.len()
        invariant
            i <= parts.len(),
            texts(parts@) == segments(s@),
            forall|j: int| 0 <= j < i ==> !is_forbidden_segment(#[trigger] segments(s@)[j]),
        decreases parts.len() - i,
    {
        let part = &parts[i];
        assert(texts(parts@)[i as int] == part@);
        if str_is(".", part.as_slice()) || str_is("..", part.as_slice()) || str_is(
            "node_modules",
            part.as_slice(),
        ) {
            assert(is_forbidden_segment(segments(s@)[i as int]));
            return true;
        }
        i += 1;
    }
    false
}

/// Whether `key`, a key with exactly one `*`, matches `name`: what stands
/// before the `*` begins `name`, what stands after it ends `name`, and
/// the `*` stands for at least one character.
pub open spec fn pattern_matches(key: Seq<char>, name: Seq<char>) -> bool {
    match first_index(key, '*') {
        Some(i) => {
            &&& last_index(key, '*') == Some(i)
            &&& has_prefix(name, key.take(i))
            &&& has_suffix(name, key.skip(i + 1))
            &&& name.len() >= key.len()
        },
        None => false,
    }
}

/// The part of `name` that the `*` of a matching `key` stands for.
pub open spec fn matched_part(key: Seq<char>, name: Seq<char>) -> Seq<char> {
    match first_index(key, '*') {
        Some(i) => name.subrange(i, name.len() - (key.len() - i - 1)),
        None => Seq::empty(),
    }
}

/// `k` is the position of the best of the keys that match `name`: it
/// matches, it is more specific than every matching key before it, and no
/// matching key after it is more specific.
pub open spec fn is_best_match(
    entries: Seq<(Seq<char>, TargetView)>,
    name: Seq<char>,
    k: int,
) -> bool {
    &&& 0 <= k < entries.len()
    &&& pattern_matches(entries[k].0, name)
    &&& forall|j: int|
        0 <= j < k && pattern_matches(#[trigger] entries[j].0, name) ==> pattern_key_order(
            entries[j].0,
            entries[k].0,
        ) == 1
    &&& forall|j: int|
        k < j < entries.len() && pattern_matches(#[trigger] entries[j].0, name)
            ==> pattern_key_order(entries[k].0, entries[j].0) != 1
}

/// The position of the best of the keys that match `name`; none where no key matches.
pub open spec fn best_match(entries: Seq<(Seq<char>, TargetView)>, name: Seq<char>)
    -> Option<int> {
    if exists|k: int| is_best_match(entries, name, k) {
        Some(choose|k: int| is_best_match(entries, name, k))
    } else {
        None
    }
}

/// Among keys that hold a wildcard, `b` is more specific than `a` exactly
/// where its literal head is longer, or the heads are equally long and `b`
/// is the longer key.
pub proof fn lemma_order_of_patterns(a: Seq<char>, b: Seq<char>)
    requires
        a.contains('*'),
        b.contains('*'),
    ensures
        pattern_key_order(a, b) == 1 <==> (base_len(a) < base_len(b) || (base_len(a) == base_len(b)
            && a.len() < b.len())),
        pattern_key_order(a, b) == -1 <==> (base_len(a) > base_len(b) || (base_len(a) == base_len(
            b,
        ) && a.len() > b.len())),
{
    lemma_index_iff_contains(a, '*');
    lemma_index_iff_contains(b, '*');
}

/// A key that matches holds a wildcard.
pub proof fn lemma_match_has_wildcard(key: Seq<char>, name: Seq<char>)
    requires
        pattern_matches(key, name),
    ensures
        key.contains('*'),
{
    lemma_index_iff_contains(key, '*');
}

/// There is at most one best match.
pub proof fn lemma_best_match_unique(
    entries: Seq<(Seq<char>, TargetView)>,
    name: Seq<char>,
    k: int,
)
    requires
        is_best_match(entries, name, k),
    ensures
        best_match(entries, name) == Some(k),
{
    let c = choose|c: int| is_best_match(entries, name, c);
    assert(is_best_match(entries, name, c));
    lemma_match_has_wildcard(entries[k].0, name);
    lemma_match_has_wildcard(entries[c].0, name);
    lemma_order_of_patterns(entries[k].0, entries[c].0);
    lemma_order_of_patterns(entries[c].0, entries[k].0);
    if c < k {
        assert(pattern_key_order(entries[c].0, entries[k].0) == 1);
        assert(pattern_key_order(entries[c].0, entries[k].0) != 1);
    } else if k < c {
        assert(pattern_key_order(entries[k].0, entries[c].0) == 1);
        assert(pattern_key_order(entries[k].0, entries[c].0) != 1);
    }
}

/// Where no key matches, there is no best match.
pub proof fn lemma_no_best_match(
    entries: Seq<(Seq<char>, TargetView)>,
    name: Seq<char>)
    requires
        forall|j: int| 0 <= j < entries.len() ==> !pattern_matches(
            #[trigger] entries[j].0,
            name, ),
    ensures
        best_match(entries, name) is None,
{
    assert forall|k: int| !is_best_match(entries, name, k) by {}
}

/// Whether `key` matches `name`, and the part of `name` that its `*` stands for.
pub fn match_pattern(key: &[char], name: &[char]) -> (r: Option<Vec<char>>)
    ensures
        match r {
            Some(part) => pattern_matches(key@, name@) && part@ == matched_part(
                key@,
                name@,
            ),
            None => !pattern_matches(key@, name@),
        },
{
    let first = find_char(key, '*');
    match first {
        Some(i) => {
            let last = rfind_char(key, '*');
            let single = match last {
                Some(j) => j == i,
                None => false,
            };
            if !single {
                return None;
            }
            let head = head_before(key, i);
            let trailer = tail_after(key, i);
            let key_len: usize = key.len();
            let name_len: usize = name.len();
            let long_enough = name_len >= key_len;
            if starts_with(name, head.as_slice()) && ends_with(name, trailer.as_slice())
                && long_enough {
                let part = slice_of(name, i, name_len - trailer.len());
                Some(part)
            } else {
                None
            }
        },
        None => None,
    }
}

/// The position of the best of the keys that match `name`, and the part of
/// `name` that its `*` stands for.
pub fn find_best_match(entries: &Vec<(String, Target)>, name: &[char]) -> (r: Option<
    (usize, Vec<char>),
>)
    ensures
        match r {
            Some(found) => found.0 < entries.len() && best_match(
                entries_view(entries@), name@) == Some(found.0 as int) && found.1@ == matched_part(
                entries_view(entries@)[found.0 as int].0,
                name@,
            ),
            None => best_match(entries_view(entries@), name@) is None,
        },
{
    let ghost view = entries_view(entries@);
    let mut best: Option<usize> = None;
    let mut best_part: Vec<char> = Vec::new();
    let mut best_key: Vec<char> = Vec::new();
    let mut i: usize = 0;
    while i < entries.len()
        invariant
            i <= entries.len(),
            view == entries_view(entries@),
            match best {
                Some(at) => {
                    &&& at < i
                    &&& best_key@ == view[at as int].0
                    &&& best_part@ == matched_part(view[at as int].0, name@)
                    &&& is_best_match(view.take(i as int), name@, at as int)
                },
                None => forall|j: int|
                    0 <= j < i ==> !pattern_matches(#[trigger] view[j].0, name@),
            },
        decreases entries.len() - i,
    {
        let key = chars_of(entries[i].0.as_str());
        assert(key@ == view[i as int].0);
        let matched = match_pattern(key.as_slice(), name);
        let ghost before = view.take(i as int);
        let ghost after = view.take(i + 1);
        assert(forall|j: int| 0 <= j < i ==> after[j] == before[j]);
        assert(after[i as int] == view[i as int]);
        let ghost b: int = match best {
            Some(at) => at as int,
            None => 0,
        };
        let mut replaced = false;
        match matched {
            Some(part) => {
                let better = match best {
                    Some(_) => compare_keys(best_key.as_slice(), key.as_slice()) == 1,
                    None => true,
                };
                proof {
                    lemma_match_has_wildcard(key@, name@);
                    if best is Some {
                        lemma_match_has_wildcard(view[b].0, name@);
                        lemma_order_of_patterns(view[b].0, key@);
                        assert forall|j: int|
                            0 <= j < i && pattern_matches(
                                #[trigger] after[j].0, name@) && better implies pattern_key_order(after[j].0, key@) == 1 by {
                            assert(after[j].0 == before[j].0);
                            lemma_match_has_wildcard(before[j].0, name@);
                            lemma_order_of_patterns(before[j].0, key@);
                            lemma_order_of_patterns(before[j].0, view[b].0);
                            lemma_order_of_patterns(view[b].0, before[j].0);
                            if j < b {
                                assert(pattern_key_order(before[j].0, before[b].0) == 1);
                            } else if j > b {
                                assert(pattern_key_order(before[b].0, before[j].0) != 1);
                            }
                        }
                    }
                }
                if better {
                    best = Some(i);
                    best_part = part;
                    best_key = key;
                    replaced = true;
                    assert(is_best_match(after, name@, i as int));
                }
            },
            None => {},
        }
        proof {
            if !replaced && best is Some {
                assert(is_best_match(after, name@, b)) by {
                    assert(after[b] == before[b]);
                    assert forall|j: int|
                        0 <= j < b && pattern_matches(
                            #[trigger] after[j].0, name@) implies pattern_key_order(after[j].0, after[b].0) == 1 by {
                        assert(after[j].0 == before[j].0);
                    }
                    assert forall|j: int|
                        b < j < after.len() && pattern_matches(
                            #[trigger] after[j].0, name@) implies pattern_key_order(after[b].0, after[j].0) != 1 by {
                        if j < i {
                            assert(after[j].0 == before[j].0);
                        }
                    }
                }
            }
        }
        i += 1;
    }
    assert(view.take(entries.len() as int) == view);
    match best {
        Some(at) => {
            proof {
                lemma_best_match_unique(view, name@, at as int);
            }
            Some((at, best_part))
        },
        None => {
            proof {
                lemma_no_best_match(view, name@);
            }
            None
        },
    }
}

} // verus!
