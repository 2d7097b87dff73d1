//! Ordering of the keys of an `exports` or `imports` map that hold a wildcard.

use vstd::prelude::*;
use crate::text::{chars_of, find_char, first_index, lemma_index_iff_contains};

verus! {

/// The length of a key's literal head: up to and including its first `*`,
/// or the whole key where it has none.
pub open spec fn base_len(key: Seq<char>) -> int {
    match first_index(key, '*') {
        Some(i) => i + 1,
        None => key.len() as int,
    }
}

/// How two keys compare: `-1` where `a` is the more specific, `1` where `b`
/// is, `0` where neither is.
///
/// The longer literal head wins. With equal heads a key without a wildcard
/// wins over one with a wildcard; of two keys with wildcards the longer wins.
pub open spec fn pattern_key_order(a: Seq<char>, b: Seq<char>) -> int {
    if base_len(a) > base_len(b) {
        -1
    } else if base_len(b) > base_len(a) {
        1
    } else if first_index(a, '*') is None && first_index(b, '*') is None {
        0
    } else if first_index(a, '*') is None {
        -1
    } else if first_index(b, '*') is None {
        1
    } else if a.len() > b.len() {
        -1
    } else if b.len() > a.len() {
        1
    } else {
        0
    }
}

/// Compares two keys of an `exports` or `imports` map by how specific they are.
pub fn pattern_key_compare(a: &str, b: &str) -> (r: i32)
    ensures
        r == pattern_key_order(a@, b@),
{
    let a_chars = chars_of(a);
    let b_chars = chars_of(b);
    compare_keys(a_chars.as_slice(), b_chars.as_slice())
}

/// `pattern_key_compare` on character sequences.
pub fn compare_keys(a: &[char], b: &[char]) -> (r: i32)
    ensures
        r == pattern_key_order(a@, b@),
{
    let a_pattern_index = find_char(a, '*');
    let b_pattern_index = find_char(b, '*');
    let a_len: usize = a.len();
    let b_len: usize = b.len();
    let base_len_a: usize = match a_pattern_index {
        Some(index) => index + 1,
        None => a_len,
    };
    let base_len_b: usize = match b_pattern_index {
        Some(index) => index + 1,
        None => b_len,
    };
    if base_len_a > base_len_b {
        return -1;
    }
    if base_len_b > base_len_a {
        return 1;
    }
    if a_pattern_index.is_none() && b_pattern_index.is_none() {
        return 0;
    }
    if a_pattern_index.is_none() {
        return -1;
    }
    if b_pattern_index.is_none() {
        return 1;
    }
    if a_len > b_len {
        return -1;
    }
    if b_len > a_len {
        return 1;
    }
    0
}

/// Swapping the arguments of a comparison negates the result.
pub proof fn lemma_pattern_key_order_antisymmetric(a: Seq<char>, b: Seq<char>)
    ensures
        pattern_key_order(a, b) == -pattern_key_order(b, a),
{
    lemma_index_iff_contains(a, '*');
    lemma_index_iff_contains(b, '*');
}

/// The order is transitive: a key that is at least as specific as a second,
/// which is at least as specific as a third, is at least as specific as the third.
pub proof fn lemma_pattern_key_order_transitive(a: Seq<char>, b: Seq<char>, c: Seq<char>)
    requires
        pattern_key_order(a, b) <= 0,
        pattern_key_order(b, c) <= 0,
    ensures
        pattern_key_order(a, c) <= 0,
{
    lemma_index_iff_contains(a, '*');
    lemma_index_iff_contains(b, '*');
    lemma_index_iff_contains(c, '*');
}

/// With equal literal heads, a key without a wildcard is ranked ahead of a
/// key with one, whichever way round the two are given.
pub proof fn lemma_exact_key_beats_pattern(exact: Seq<char>, pattern: Seq<char>)
    requires
        !exact.contains('*'),
        pattern.contains('*'),
        base_len(exact) >= base_len(pattern),
    ensures
        pattern_key_order(pattern, exact) == 1,
        pattern_key_order(exact, pattern) == -1,
{
    lemma_index_iff_contains(exact, '*');
    lemma_index_iff_contains(pattern, '*');
}

} // verus!
