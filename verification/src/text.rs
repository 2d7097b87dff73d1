//! Character-level text operations.
//!
//! Every string the library reads is first turned into its sequence of
//! characters; the contracts in this crate are stated over `Seq<char>`.

use vstd::prelude::*;

verus! {

/// `i` is the position of the first `c` in `s`.
pub open spec fn is_first_index(s: Seq<char>, c: char, i: int) -> bool {
    &&& 0 <= i < s.len()
    &&& s[i] == c
    &&& forall|j: int| 0 <= j < i ==> s[j] != c
}

/// `i` is the position of the last `c` in `s`.
pub open spec fn is_last_index(s: Seq<char>, c: char, i: int) -> bool {
    &&& 0 <= i < s.len()
    &&& s[i] == c
    &&& forall|j: int| i < j < s.len() ==> s[j] != c
}

/// The position of the first `c` in `s`, if `c` occurs at all.
pub open spec fn first_index(s: Seq<char>, c: char) -> Option<int> {
    if exists|i: int| is_first_index(s, c, i) {
        Some(choose|i: int| is_first_index(s, c, i))
    } else {
        None
    }
}

/// The position of the last `c` in `s`, if `c` occurs at all.
pub open spec fn last_index(s: Seq<char>, c: char) -> Option<int> {
    if exists|i: int| is_last_index(s, c, i) {
        Some(choose|i: int| is_last_index(s, c, i))
    } else {
        None
    }
}

/// `p` followed by something is `s`.
pub open spec fn has_prefix(s: Seq<char>, p: Seq<char>) -> bool {
    p.len() <= s.len() && s.subrange(0, p.len() as int) == p
}

/// Something followed by `p` is `s`.
pub open spec fn has_suffix(s: Seq<char>, p: Seq<char>) -> bool {
    p.len() <= s.len() && s.subrange(s.len() - p.len(), s.len() as int) == p
}

/// `s` with every `from` turned into `to`.
pub open spec fn replaced_char(s: Seq<char>, from: char, to: char) -> Seq<char> {
    Seq::new(s.len(), |i: int| if s[i] == from { to } else { s[i] })
}

/// `s` with its first `c` replaced by `with`; `s` itself where `c` does not occur.
pub open spec fn replaced_first(s: Seq<char>, c: char, with: Seq<char>) -> Seq<char> {
    match first_index(s, c) {
        Some(i) => s.subrange(0, i) + with + s.subrange(i + 1, s.len() as int),
        None => s,
    }
}

/// `s` with every `c` replaced by `with`.
pub open spec fn replaced_all(s: Seq<char>, c: char, with: Seq<char>) -> Seq<char>
    decreases s.len(),
{
    if s.len() == 0 {
        s
    } else if s[0] == c {
        with + replaced_all(s.drop_first(), c, with)
    } else {
        seq![s[0]] + replaced_all(s.drop_first(), c, with)
    }
}

/// The text of an optional character vector.
pub open spec fn opt_seq(o: Option<Vec<char>>) -> Option<Seq<char>> {
    match o {
        Some(v) => Some(v@),
        None => None,
    }
}

/// Whether `pat` occurs in `s` as a run of neighbouring characters.
pub open spec fn has_sub(s: Seq<char>, pat: Seq<char>) -> bool {
    exists|i: int| 0 <= i <= s.len() - pat.len() && #[trigger] s.subrange(i, i + pat.len()) == pat
}

/// The lower-case form of an ASCII letter; any other character unchanged.
pub open spec fn ascii_lower(c: char) -> char {
    if 'A' <= c <= 'Z' {
        ((c as u8) + 32) as char
    } else {
        c
    }
}

/// `s` with its ASCII letters in lower case.
pub open spec fn ascii_lowered(s: Seq<char>) -> Seq<char> {
    Seq::new(s.len(), |i: int| ascii_lower(s[i]))
}

pub proof fn lemma_first_index(s: Seq<char>, c: char, i: int)
    requires
        is_first_index(s, c, i),
    ensures
        first_index(s, c) == Some(i),
{
    let k = choose|k: int| is_first_index(s, c, k);
    assert(is_first_index(s, c, k));
    if k < i {
        assert(s[k] != c);
    } else if i < k {
        assert(s[i] != c);
    }
}

pub proof fn lemma_no_first_index(s: Seq<char>, c: char)
    requires
        forall|j: int| 0 <= j < s.len() ==> s[j] != c,
    ensures
        first_index(s, c) is None,
{
    assert forall|i: int| !is_first_index(s, c, i) by {}
}

pub proof fn lemma_last_index(s: Seq<char>, c: char, i: int)
    requires
        is_last_index(s, c, i),
    ensures
        last_index(s, c) == Some(i),
{
    let k = choose|k: int| is_last_index(s, c, k);
    assert(is_last_index(s, c, k));
    if k < i {
        assert(s[i] != c);
    } else if i < k {
        assert(s[k] != c);
    }
}

pub proof fn lemma_no_last_index(s: Seq<char>, c: char)
    requires
        forall|j: int| 0 <= j < s.len() ==> s[j] != c,
    ensures
        last_index(s, c) is None,
{
    assert forall|i: int| !is_last_index(s, c, i) by {}
}

/// What `first_index` says when it finds a position, and when it does not.
pub proof fn lemma_first_index_facts(s: Seq<char>, c: char)
    ensures
        match first_index(s, c) {
            Some(i) => is_first_index(s, c, i),
            None => forall|j: int| 0 <= j < s.len() ==> s[j] != c,
        },
{
    if first_index(s, c) is None {
        assert forall|j: int| 0 <= j < s.len() implies s[j] != c by {
            if s[j] == c {
                lemma_some_first_index(s, c, j);
            }
        }
    }
}

/// What `last_index` says when it finds a position, and when it does not.
pub proof fn lemma_last_index_facts(s: Seq<char>, c: char)
    ensures
        match last_index(s, c) {
            Some(i) => is_last_index(s, c, i),
            None => forall|j: int| 0 <= j < s.len() ==> s[j] != c,
        },
{
    if last_index(s, c) is None {
        assert forall|j: int| 0 <= j < s.len() implies s[j] != c by {
            if s[j] == c {
                lemma_some_last_index(s, c, j);
            }
        }
    }
}

/// A character has a first and a last position exactly where it occurs.
pub proof fn lemma_index_iff_contains(s: Seq<char>, c: char)
    ensures
        first_index(s, c) is Some <==> s.contains(c),
        last_index(s, c) is Some <==> s.contains(c),
{
    lemma_first_index_facts(s, c);
    lemma_last_index_facts(s, c);
    if first_index(s, c) is Some {
        assert(s[first_index(s, c)->0] == c);
    }
    if last_index(s, c) is Some {
        assert(s[last_index(s, c)->0] == c);
    }
}

proof fn lemma_some_first_index(s: Seq<char>, c: char, j: int)
    requires
        0 <= j < s.len(),
        s[j] == c,
    ensures
        exists|i: int| is_first_index(s, c, i),
    decreases j,
{
    if forall|k: int| 0 <= k < j ==> s[k] != c {
        assert(is_first_index(s, c, j));
    } else {
        let k = choose|k: int| 0 <= k < j && s[k] == c;
        lemma_some_first_index(s, c, k);
    }
}

proof fn lemma_some_last_index(s: Seq<char>, c: char, j: int)
    requires
        0 <= j < s.len(),
        s[j] == c,
    ensures
        exists|i: int| is_last_index(s, c, i),
    decreases s.len() - j,
{
    if forall|k: int| j < k < s.len() ==> s[k] != c {
        assert(is_last_index(s, c, j));
    } else {
        let k = choose|k: int| j < k < s.len() && s[k] == c;
        lemma_some_last_index(s, c, k);
    }
}

/// Appends one character to a string. Stands for `String::push`, which adds
/// the character at the end and changes nothing else.
#[verifier::external_body]
fn push_char(s: &mut String, c: char)
    ensures
        final(s)@ == old(s)@.push(c),
{
    s.push(c)
}

/// The characters of a string slice, in order.
pub fn chars_of(s: &str) -> (v: Vec<char>)
    ensures
        v@ == s@,
{
    let mut v: Vec<char> = Vec::new();
    for c in it: s.chars()
        invariant
            it.seq() == s@,
            v@ == it.seq().take(it.index()),
    {
        v.push(c);
    }
    v
}

/// The string made of the given characters.
pub fn string_of(v: &[char]) -> (s: String)
    ensures
        s@ == v@,
{
    let mut s = String::new();
    let mut i: usize = 0;
    while i < v.len()
        invariant
            i <= v.len(),
            s@ == v@.take(i as int),
        decreases v.len() - i,
    {
        push_char(&mut s, v[i]);
        i += 1;
    }
    s
}

/// Whether two character sequences are the same.
pub fn same_chars(a: &[char], b: &[char]) -> (r: bool)
    ensures
        r == (a@ == b@),
{
    if a.len() != b.len() {
        return false;
    }
    let mut i: usize = 0;
    while i < a.len()
        invariant
            i <= a.len(),
            a.len() == b.len(),
            a@.take(i as int) == b@.take(i as int),
        decreases a.len() - i,
    {
        if a[i] != b[i] {
            return false;
        }
        assert(a@.take(i + 1) == a@.take(i as int).push(a@[i as int]));
        assert(b@.take(i + 1) == b@.take(i as int).push(b@[i as int]));
        i += 1;
    }
    assert(a@.take(a.len() as int) == a@);
    assert(b@.take(b.len() as int) == b@);
    true
}

/// Whether a string slice and a character sequence hold the same text.
pub fn str_is(s: &str, chars: &[char]) -> (r: bool)
    ensures
        r == (s@ == chars@),
{
    let v = chars_of(s);
    same_chars(v.as_slice(), chars)
}

/// Whether two string slices hold the same text.
pub fn same_text(a: &str, b: &str) -> (r: bool)
    ensures
        r == (a@ == b@),
{
    let x = chars_of(a);
    let y = chars_of(b);
    same_chars(x.as_slice(), y.as_slice())
}

/// The characters of `s` from position `from` up to, not including, `to`.
pub fn slice_of(s: &[char], from: usize, to: usize) -> (v: Vec<char>)
    requires
        from <= to <= s.len(),
    ensures
        v@ == s@.subrange(from as int, to as int),
{
    let mut v: Vec<char> = Vec::new();
    let mut i: usize = from;
    while i < to
        invariant
            from <= i <= to <= s.len(),
            v@ == s@.subrange(from as int, i as int),
        decreases to - i,
    {
        v.push(s[i]);
        assert(s@.subrange(from as int, i + 1) == s@.subrange(from as int, i as int).push(
            s@[i as int],
        ));
        i += 1;
    }
    v
}

/// The characters of `s` before position `i`.
pub fn head_before(s: &[char], i: usize) -> (v: Vec<char>)
    requires
        i <= s.len(),
    ensures
        v@ == s@.take(i as int),
{
    slice_of(s, 0, i)
}

/// The characters of `s` from position `i` on.
pub fn tail_from(s: &[char], i: usize) -> (v: Vec<char>)
    requires
        i <= s.len(),
    ensures
        v@ == s@.skip(i as int),
{
    let n: usize = s.len();
    slice_of(s, i, n)
}

/// The characters of `s` after position `i`.
pub fn tail_after(s: &[char], i: usize) -> (v: Vec<char>)
    requires
        i < s.len(),
    ensures
        v@ == s@.skip(i + 1),
{
    let n: usize = s.len();
    slice_of(s, i + 1, n)
}

/// Appends the characters of `tail` to `v`.
pub fn append_chars(v: &mut Vec<char>, tail: &[char])
    ensures
        final(v)@ == old(v)@ + tail@,
{
    let mut i: usize = 0;
    while i < tail.len()
        invariant
            i <= tail.len(),
            v@ == old(v)@ + tail@.take(i as int),
        decreases tail.len() - i,
    {
        v.push(tail[i]);
        assert(tail@.take(i + 1) == tail@.take(i as int).push(tail@[i as int]));
        i += 1;
    }
    assert(tail@.take(tail.len() as int) == tail@);
}

/// `a` followed by `b`.
pub fn joined(a: &[char], b: &[char]) -> (v: Vec<char>)
    ensures
        v@ == a@ + b@,
{
    let mut v: Vec<char> = Vec::new();
    append_chars(&mut v, a);
    append_chars(&mut v, b);
    v
}

/// Whether `s` begins with `p`.
pub fn starts_with(s: &[char], p: &[char]) -> (r: bool)
    ensures
        r == has_prefix(s@, p@),
{
    if p.len() > s.len() {
        return false;
    }
    let mut i: usize = 0;
    while i < p.len()
        invariant
            i <= p.len() <= s.len(),
            s@.subrange(0, i as int) == p@.take(i as int),
        decreases p.len() - i,
    {
        if s[i] != p[i] {
            assert(s@.subrange(0, p.len() as int)[i as int] != p@[i as int]);
            return false;
        }
        assert(s@.subrange(0, i + 1) == s@.subrange(0, i as int).push(s@[i as int]));
        assert(p@.take(i + 1) == p@.take(i as int).push(p@[i as int]));
        i += 1;
    }
    assert(p@.take(p.len() as int) == p@);
    true
}

/// Whether `s` ends with `p`.
pub fn ends_with(s: &[char], p: &[char]) -> (r: bool)
    ensures
        r == has_suffix(s@, p@),
{
    if p.len() > s.len() {
        return false;
    }
    let base: usize = s.len() - p.len();
    let mut i: usize = 0;
    while i < p.len()
        invariant
            i <= p.len() <= s.len(),
            base == s.len() - p.len(),
            s@.subrange(base as int, base + i) == p@.take(i as int),
        decreases p.len() - i,
    {
        if s[base + i] != p[i] {
            assert(s@.subrange(base as int, s.len() as int)[i as int] != p@[i as int]);
            return false;
        }
        assert(s@.subrange(base as int, base + i + 1) == s@.subrange(base as int, base + i).push(
            s@[base + i],
        ));
        assert(p@.take(i + 1) == p@.take(i as int).push(p@[i as int]));
        i += 1;
    }
    assert(p@.take(p.len() as int) == p@);
    true
}

/// The position of the first `c` in `s`.
pub fn find_char(s: &[char], c: char) -> (r: Option<usize>)
    ensures
        match r {
            Some(i) => first_index(s@, c) == Some(i as int) && is_first_index(s@, c, i as int),
            None => first_index(s@, c) is None && !s@.contains(c),
        },
{
    let mut i: usize = 0;
    while i < s.len()
        invariant
            i <= s.len(),
            forall|j: int| 0 <= j < i ==> s@[j] != c,
        decreases s.len() - i,
    {
        if s[i] == c {
            proof {
                lemma_first_index(s@, c, i as int);
            }
            return Some(i);
        }
        i += 1;
    }
    proof {
        lemma_no_first_index(s@, c);
    }
    None
}

/// The position of the last `c` in `s`.
pub fn rfind_char(s: &[char], c: char) -> (r: Option<usize>)
    ensures
        match r {
            Some(i) => last_index(s@, c) == Some(i as int) && is_last_index(s@, c, i as int),
            None => last_index(s@, c) is None && !s@.contains(c),
        },
{
    let mut i: usize = s.len();
    while i > 0
        invariant
            i <= s.len(),
            forall|j: int| i <= j < s.len() ==> s@[j] != c,
        decreases i,
    {
        i -= 1;
        if s[i] == c {
            proof {
                lemma_last_index(s@, c, i as int);
            }
            return Some(i);
        }
    }
    proof {
        lemma_no_last_index(s@, c);
    }
    None
}

/// Whether `c` occurs in `s`.
pub fn has_char(s: &[char], c: char) -> (r: bool)
    ensures
        r == s@.contains(c),
        r == first_index(s@, c) is Some,
{
    let f = find_char(s, c);
    proof {
        lemma_first_index_facts(s@, c);
    }
    f.is_some()
}

/// A copy of `s` with every `from` turned into `to`.
pub fn replace_char(s: &[char], from: char, to: char) -> (v: Vec<char>)
    ensures
        v@ == replaced_char(s@, from, to),
{
    let mut v: Vec<char> = Vec::new();
    let mut i: usize = 0;
    while i < s.len()
        invariant
            i <= s.len(),
            v@ == replaced_char(s@, from, to).take(i as int),
        decreases s.len() - i,
    {
        if s[i] == from {
            v.push(to);
        } else {
            v.push(s[i]);
        }
        assert(replaced_char(s@, from, to).take(i + 1) == replaced_char(s@, from, to).take(
            i as int,
        ).push(replaced_char(s@, from, to)[i as int]));
        i += 1;
    }
    assert(replaced_char(s@, from, to).take(s.len() as int) == replaced_char(s@, from, to));
    v
}

/// A copy of `s` with its first `c` replaced by `with`.
pub fn replace_first(s: &[char], c: char, with: &[char]) -> (v: Vec<char>)
    ensures
        v@ == replaced_first(s@, c, with@),
{
    let found = find_char(s, c);
    match found {
        Some(i) => {
            let mut v = slice_of(s, 0, i);
            append_chars(&mut v, with);
            let n: usize = s.len();
            let rest = slice_of(s, i + 1, n);
            append_chars(&mut v, rest.as_slice());
            v
        },
        None => {
            let v = slice_of(s, 0, s.len());
            assert(s@.subrange(0, s.len() as int) == s@);
            v
        },
    }
}

/// A copy of `s` with every `c` replaced by `with`.
pub fn replace_all(s: &[char], c: char, with: &[char]) -> (v: Vec<char>)
    ensures
        v@ == replaced_all(s@, c, with@),
{
    let mut v: Vec<char> = Vec::new();
    let mut i: usize = s.len();
    // Built from the back, so that each step matches one unfolding of the definition.
    let mut parts: Vec<char> = Vec::new();
    while i > 0
        invariant
            i <= s.len(),
            parts@ == replaced_all(s@.subrange(i as int, s.len() as int), c, with@),
        decreases i,
    {
        i -= 1;
        let ghost tail = s@.subrange(i as int, s.len() as int);
        assert(tail.drop_first() == s@.subrange(i + 1, s.len() as int));
        assert(tail[0] == s@[i as int]);
        let mut next: Vec<char> = Vec::new();
        if s[i] == c {
            append_chars(&mut next, with);
        } else {
            next.push(s[i]);
            assert(next@ == seq![s@[i as int]]);
        }
        append_chars(&mut next, parts.as_slice());
        parts = next;
    }
    assert(s@.subrange(0, s.len() as int) == s@);
    append_chars(&mut v, parts.as_slice());
    v
}

/// Whether `pat` occurs in `s` as a run of neighbouring characters.
pub fn contains_sub(s: &[char], pat: &[char]) -> (b: bool)
    ensures
        b == has_sub(s@, pat@),
{
    let n: usize = s.len();
    let m: usize = pat.len();
    if m > n {
        return false;
    }
    let limit: usize = n - m;
    let mut i: usize = 0;
    while i < limit
        invariant
            m <= n,
            n == s.len(),
            m == pat.len(),
            limit == n - m,
            i <= limit,
            forall|j: int| 0 <= j < i ==> #[trigger] s@.subrange(j, j + m) != pat@,
        decreases limit - i,
    {
        let piece = slice_of(s, i, i + m);
        if same_chars(piece.as_slice(), pat) {
            return true;
        }
        i += 1;
    }
    let piece = slice_of(s, limit, n);
    let last = same_chars(piece.as_slice(), pat);
    proof {
        assert(piece@ == s@.subrange(limit as int, limit + m));
        if !last {
            assert forall|j: int| 0 <= j <= s@.len() - pat@.len() implies #[trigger] s@.subrange(
                j,
                j + pat@.len(),
            ) != pat@ by {
                if j < limit {
                    assert(s@.subrange(j, j + m) != pat@);
                }
            }
        }
    }
    last
}

/// The lower-case form of an ASCII letter; any other character unchanged.
pub fn lower_char(c: char) -> (r: char)
    ensures
        r == ascii_lower(c),
{
    if 'A' <= c && c <= 'Z' {
        ((c as u8) + 32) as char
    } else {
        c
    }
}

/// A copy of `s` with its ASCII letters in lower case.
pub fn lowered(s: &[char]) -> (v: Vec<char>)
    ensures
        v@ == ascii_lowered(s@),
{
    let mut v: Vec<char> = Vec::new();
    let mut i: usize = 0;
    while i < s.len()
        invariant
            i <= s.len(),
            v@ == ascii_lowered(s@).take(i as int),
        decreases s.len() - i,
    {
        v.push(lower_char(s[i]));
        assert(ascii_lowered(s@).take(i + 1) == ascii_lowered(s@).take(i as int).push(
            ascii_lowered(s@)[i as int],
        ));
        i += 1;
    }
    assert(ascii_lowered(s@).take(s.len() as int) == ascii_lowered(s@));
    v
}

} // verus!
