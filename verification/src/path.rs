//! File paths as text.
//!
//! A path is a sequence of characters whose segments are separated by `/`.
//! A path that begins with `/` is absolute. Nothing here touches a file
//! system: these are computations on the text alone.

use vstd::prelude::*;
use crate::text::{
    append_chars, chars_of, find_char, first_index, is_first_index, last_index, rfind_char,
    same_chars, slice_of,
};

verus! {

/// The text `"."`.
pub open spec fn dot() -> Seq<char> {
    seq!['.']
}

/// The text `".."`.
pub open spec fn dot_dot() -> Seq<char> {
    seq!['.', '.']
}

/// The text `"/"`.
pub open spec fn slash() -> Seq<char> {
    seq!['/']
}

/// Whether the path begins at the root.
pub open spec fn is_absolute(p: Seq<char>) -> bool {
    p.len() > 0 && p[0] == '/'
}

/// The pieces of `s` between occurrences of `c`. There is always at least
/// one piece; pieces may be empty.
pub open spec fn split_on(s: Seq<char>, c: char) -> Seq<Seq<char>>
    decreases s.len(),
{
    match first_index(s, c) {
        Some(i) => if 0 <= i < s.len() {
            seq![s.take(i)] + split_on(s.skip(i + 1), c)
        } else {
            seq![s]
        },
        None => seq![s],
    }
}

/// The pieces put together again with `sep` between neighbours.
pub open spec fn join_parts(parts: Seq<Seq<char>>, sep: Seq<char>) -> Seq<char>
    decreases parts.len(),
{
    if parts.len() == 0 {
        Seq::empty()
    } else if parts.len() == 1 {
        parts[0]
    } else {
        join_parts(parts.drop_last(), sep) + sep + parts.last()
    }
}

/// A segment that names something: neither empty nor `"."`.
pub open spec fn is_name(part: Seq<char>) -> bool {
    part.len() > 0 && part != dot()
}

/// The naming segments of a path, in order.
pub open spec fn components(p: Seq<char>) -> Seq<Seq<char>> {
    split_on(p, '/').filter(|part: Seq<char>| is_name(part))
}

/// `base` extended by `rel`: `rel` alone where it is absolute or `base` is
/// empty, otherwise the two with exactly one separator put between them
/// unless `base` already ends in one.
pub open spec fn path_joined(base: Seq<char>, rel: Seq<char>) -> Seq<char> {
    if is_absolute(rel) {
        rel
    } else if base.len() == 0 {
        rel
    } else if base.last() == '/' {
        base + rel
    } else {
        base + slash() + rel
    }
}

/// The number of characters of `p` that remain once trailing separators are dropped.
pub open spec fn stem_len(p: Seq<char>) -> int
    decreases p.len(),
{
    if p.len() > 0 && p.last() == '/' {
        stem_len(p.drop_last())
    } else {
        p.len() as int
    }
}

/// `p` without trailing separators.
pub open spec fn stem(p: Seq<char>) -> Seq<char> {
    p.take(stem_len(p))
}

/// `p` without its trailing separators; a path that holds nothing but
/// separators, as the root does, is left as it is.
pub open spec fn without_trailing_separators(p: Seq<char>) -> Seq<char> {
    if stem_len(p) == 0 {
        p
    } else {
        stem(p)
    }
}

/// The last segment of a path, trailing separators aside. A path that is
/// empty, is the root, or ends in `..` has none.
pub open spec fn file_name_of(p: Seq<char>) -> Option<Seq<char>> {
    let t = stem(p);
    if t.len() == 0 {
        None
    } else {
        let name = match last_index(t, '/') {
            Some(i) => t.skip(i + 1),
            None => t,
        };
        if name == dot_dot() {
            None
        } else {
            Some(name)
        }
    }
}

/// The path without its last segment. The empty path and the root have none;
/// a single relative segment has the empty path for its parent.
pub open spec fn parent_of(p: Seq<char>) -> Option<Seq<char>> {
    let t = stem(p);
    if t.len() == 0 {
        None
    } else {
        match last_index(t, '/') {
            Some(i) => {
                let d = stem(t.take(i));
                if d.len() == 0 {
                    Some(slash())
                } else {
                    Some(d)
                }
            },
            None => Some(Seq::empty()),
        }
    }
}

/// What one segment does to the segments kept so far when a path is cleaned.
pub open spec fn clean_step(stack: Seq<Seq<char>>, part: Seq<char>, rooted: bool) -> Seq<
    Seq<char>,
> {
    if !is_name(part) {
        stack
    } else if part == dot_dot() {
        if stack.len() > 0 && stack.last() != dot_dot() {
            stack.drop_last()
        } else if rooted {
            stack
        } else {
            stack.push(part)
        }
    } else {
        stack.push(part)
    }
}

/// The segments that remain of `parts` once empty and `.` segments are
/// dropped and each `..` has removed the segment before it.
pub open spec fn clean_stack(parts: Seq<Seq<char>>, rooted: bool) -> Seq<Seq<char>>
    decreases parts.len(),
{
    if parts.len() == 0 {
        Seq::empty()
    } else {
        clean_step(clean_stack(parts.drop_last(), rooted), parts.last(), rooted)
    }
}

/// The shortest path that names the same place by text alone: no empty or
/// `.` segment, no `..` after a name, no `..` at the root, no trailing
/// separator. The empty relative path is written `"."`.
pub open spec fn cleaned(p: Seq<char>) -> Seq<char> {
    let rooted = is_absolute(p);
    let stack = clean_stack(split_on(p, '/'), rooted);
    if rooted {
        slash() + join_parts(stack, slash())
    } else if stack.len() == 0 {
        dot()
    } else {
        join_parts(stack, slash())
    }
}

/// Whether `p` lies at or below `base`, segment by segment.
pub open spec fn path_within(p: Seq<char>, base: Seq<char>) -> bool {
    let pc = components(p);
    let bc = components(base);
    &&& is_absolute(p) == is_absolute(base)
    &&& bc.len() <= pc.len()
    &&& pc.take(bc.len() as int) == bc
}

/// The texts held by a list of character vectors.
pub open spec fn texts(v: Seq<Vec<char>>) -> Seq<Seq<char>> {
    v.map_values(|x: Vec<char>| x@)
}

/// The position of the first `c` at or after `from`.
pub fn find_char_from(s: &[char], from: usize, c: char) -> (r: Option<usize>)
    requires
        from <= s.len(),
    ensures
        match r {
            Some(i) => from <= i < s.len() && is_first_index(s@.skip(from as int), c, i - from)
                && first_index(s@.skip(from as int), c) == Some(i - from),
            None => first_index(s@.skip(from as int), c) is None,
        },
{
    let rest = slice_of(s, from, s.len());
    assert(rest@ == s@.skip(from as int));
    let found = find_char(rest.as_slice(), c);
    match found {
        Some(i) => Some(from + i),
        None => None,
    }
}

/// The pieces of `s` between occurrences of `c`.
pub fn split(s: &[char], c: char) -> (parts: Vec<Vec<char>>)
    ensures
        texts(parts@) == split_on(s@, c),
        parts@.len() >= 1,
{
    let mut parts: Vec<Vec<char>> = Vec::new();
    let mut start: usize = 0;
    let n: usize = s.len();
    assert(s@.skip(0) == s@);
    assert(texts(parts@) + split_on(s@, c) == split_on(s@, c));
    loop
        invariant_except_break
            n == s.len(),
            start <= n,
            texts(parts@) + split_on(s@.skip(start as int), c) == split_on(s@, c),
        ensures
            texts(parts@) == split_on(s@, c),
            parts@.len() >= 1,
        decreases n - start,
    {
        let found = find_char_from(s, start, c);
        let ghost rest = s@.skip(start as int);
        match found {
            Some(i) => {
                let piece = slice_of(s, start, i);
                assert(piece@ == rest.take(i - start));
                assert(rest.skip(i - start + 1) == s@.skip(i + 1));
                assert(split_on(rest, c) == seq![rest.take(i - start)] + split_on(
                    s@.skip(i + 1),
                    c,
                ));
                let ghost before = texts(parts@);
                parts.push(piece);
                assert(texts(parts@) == before + seq![rest.take(i - start)]);
                start = i + 1;
            },
            None => {
                let piece = slice_of(s, start, n);
                assert(piece@ == rest);
                assert(split_on(rest, c) == seq![rest]);
                let ghost before = texts(parts@);
                parts.push(piece);
                assert(texts(parts@) == before + seq![rest]);
                break ;
            },
        }
    }
    parts
}

/// The pieces put together again with `sep` between neighbours.
pub fn join(parts: &Vec<Vec<char>>, sep: &[char]) -> (v: Vec<char>)
    ensures
        v@ == join_parts(texts(parts@), sep@),
{
    let mut v: Vec<char> = Vec::new();
    let mut i: usize = 0;
    while i < parts.len()
        invariant
            i <= parts.len(),
            v@ == join_parts(texts(parts@).take(i as int), sep@),
        decreases parts.len() - i,
    {
        let ghost done = texts(parts@).take(i as int);
        let ghost next = texts(parts@).take(i + 1);
        assert(next.drop_last() == done);
        assert(next.last() == parts@[i as int]@);
        if i > 0 {
            append_chars(&mut v, sep);
        }
        append_chars(&mut v, parts[i].as_slice());
        assert(v@ == join_parts(next, sep@)) by {
            if i == 0 {
                assert(done.len() == 0);
                assert(join_parts(done, sep@) == Seq::<char>::empty());
                assert(next.len() == 1);
            }
        }
        i += 1;
    }
    assert(texts(parts@).take(parts.len() as int) == texts(parts@));
    v
}

/// `base` extended by `rel`.
pub fn path_join(base: &[char], rel: &[char]) -> (v: Vec<char>)
    ensures
        v@ == path_joined(base@, rel@),
{
    let mut v: Vec<char> = Vec::new();
    if rel.len() > 0 && rel[0] == '/' {
        append_chars(&mut v, rel);
    } else if base.len() == 0 {
        append_chars(&mut v, rel);
    } else if base[base.len() - 1] == '/' {
        append_chars(&mut v, base);
        append_chars(&mut v, rel);
    } else {
        append_chars(&mut v, base);
        v.push('/');
        assert(v@ == base@ + slash());
        append_chars(&mut v, rel);
    }
    v
}

/// The length of `p` without its trailing separators.
pub fn stem_length(p: &[char]) -> (n: usize)
    ensures
        n == stem_len(p@),
        n <= p.len(),
{
    let mut n: usize = p.len();
    assert(p@.take(p.len() as int) == p@);
    while n > 0 && p[n - 1] == '/'
        invariant
            n <= p.len(),
            stem_len(p@.take(n as int)) == stem_len(p@),
        decreases n,
    {
        assert(p@.take(n as int).drop_last() == p@.take(n - 1));
        n -= 1;
    }
    proof {
        assert(p@.take(p.len() as int) == p@);
        if n > 0 {
            assert(p@.take(n as int).last() == p@[n - 1]);
        }
    }
    n
}

/// A copy of `p` without its trailing separators.
pub fn trim_trailing_separators(p: &[char]) -> (v: Vec<char>)
    ensures
        v@ == without_trailing_separators(p@),
{
    let n = stem_length(p);
    if n == 0 {
        let v = slice_of(p, 0, p.len());
        assert(p@.subrange(0, p.len() as int) == p@);
        v
    } else {
        slice_of(p, 0, n)
    }
}

/// The last segment of a path.
pub fn file_name(p: &[char]) -> (r: Option<Vec<char>>)
    ensures
        match r {
            Some(v) => file_name_of(p@) == Some(v@),
            None => file_name_of(p@) is None,
        },
{
    let n = stem_length(p);
    if n == 0 {
        return None;
    }
    let t = slice_of(p, 0, n);
    let found = rfind_char(t.as_slice(), '/');
    let name = match found {
        Some(i) => slice_of(t.as_slice(), i + 1, n),
        None => t,
    };
    if name.len() == 2 && name[0] == '.' && name[1] == '.' {
        assert(name@ == dot_dot());
        None
    } else {
        Some(name)
    }
}

/// The path without its last segment.
pub fn parent(p: &[char]) -> (r: Option<Vec<char>>)
    ensures
        match r {
            Some(v) => parent_of(p@) == Some(v@),
            None => parent_of(p@) is None,
        },
{
    let n = stem_length(p);
    if n == 0 {
        return None;
    }
    let t = slice_of(p, 0, n);
    let found = rfind_char(t.as_slice(), '/');
    match found {
        Some(i) => {
            let head = slice_of(t.as_slice(), 0, i);
            let m = stem_length(head.as_slice());
            if m == 0 {
                let mut root: Vec<char> = Vec::new();
                root.push('/');
                assert(root@ == slash());
                Some(root)
            } else {
                let d = slice_of(head.as_slice(), 0, m);
                Some(d)
            }
        },
        None => Some(Vec::new()),
    }
}

/// Whether a segment is exactly `..`.
fn is_dot_dot(part: &[char]) -> (r: bool)
    ensures
        r == (part@ == dot_dot()),
{
    if part.len() == 2 && part[0] == '.' && part[1] == '.' {
        assert(part@ == dot_dot());
        true
    } else {
        false
    }
}

/// Whether a segment names something.
fn names_something(part: &[char]) -> (r: bool)
    ensures
        r == is_name(part@),
{
    if part.len() == 0 {
        false
    } else if part.len() == 1 && part[0] == '.' {
        assert(part@ == dot());
        false
    } else {
        true
    }
}

/// A copy of a character vector.
pub fn copy_chars(v: &[char]) -> (r: Vec<char>)
    ensures
        r@ == v@,
{
    let r = slice_of(v, 0, v.len());
    assert(v@.subrange(0, v.len() as int) == v@);
    r
}

/// The cleaned form of a path.
pub fn clean(p: &[char]) -> (v: Vec<char>)
    ensures
        v@ == cleaned(p@),
{
    let rooted = p.len() > 0 && p[0] == '/';
    let parts = split(p, '/');
    let mut stack: Vec<Vec<char>> = Vec::new();
    let mut i: usize = 0;
    while i < parts.len()
        invariant
            i <= parts.len(),
            texts(stack@) == clean_stack(texts(parts@).take(i as int), rooted),
        decreases parts.len() - i,
    {
        let ghost done = texts(parts@).take(i as int);
        let ghost next = texts(parts@).take(i + 1);
        assert(next.drop_last() == done);
        assert(next.last() == parts@[i as int]@);
        let ghost before = texts(stack@);
        let part = &parts[i];
        if names_something(part.as_slice()) {
            if is_dot_dot(part.as_slice()) {
                let top_is_up = stack.len() > 0 && is_dot_dot(stack[stack.len() - 1].as_slice());
                if stack.len() > 0 && !top_is_up {
                    assert(before.last() == stack@[stack.len() - 1]@);
                    stack.pop();
                    assert(texts(stack@) == before.drop_last());
                } else if !rooted {
                    if stack.len() > 0 {
                        assert(before.last() == stack@[stack.len() - 1]@);
                    }
                    stack.push(copy_chars(part.as_slice()));
                    assert(texts(stack@) == before.push(part@));
                } else {
                    if stack.len() > 0 {
                        assert(before.last() == stack@[stack.len() - 1]@);
                    }
                }
            } else {
                stack.push(copy_chars(part.as_slice()));
                assert(texts(stack@) == before.push(part@));
            }
        }
        i += 1;
    }
    assert(texts(parts@).take(parts.len() as int) == texts(parts@));
    let mut sep: Vec<char> = Vec::new();
    sep.push('/');
    assert(sep@ == slash());
    let body = join(&stack, sep.as_slice());
    if rooted {
        let mut v: Vec<char> = Vec::new();
        v.push('/');
        assert(v@ == slash());
        append_chars(&mut v, body.as_slice());
        v
    } else if stack.len() == 0 {
        let mut v: Vec<char> = Vec::new();
        v.push('.');
        assert(v@ == dot());
        v
    } else {
        body
    }
}

/// The naming segments of a path, in order.
pub fn path_components(p: &[char]) -> (names: Vec<Vec<char>>)
    ensures
        texts(names@) == components(p@),
{
    let parts = split(p, '/');
    let mut names: Vec<Vec<char>> = Vec::new();
    let ghost keep = |part: Seq<char>| is_name(part);
    let mut i: usize = 0;
    while i < parts.len()
        invariant
            i <= parts.len(),
            keep == (|part: Seq<char>| is_name(part)),
            texts(names@) == texts(parts@).take(i as int).filter(keep),
        decreases parts.len() - i,
    {
        let ghost done = texts(parts@).take(i as int);
        let ghost next = texts(parts@).take(i + 1);
        assert(next.drop_last() == done);
        assert(next.last() == parts@[i as int]@);
        let ghost before = texts(names@);
        proof {
            reveal(Seq::filter);
        }
        if names_something(parts[i].as_slice()) {
            names.push(copy_chars(parts[i].as_slice()));
            assert(texts(names@) == before.push(parts@[i as int]@));
        }
        i += 1;
    }
    assert(texts(parts@).take(parts.len() as int) == texts(parts@));
    names
}

/// Whether `p` lies at or below `base`, segment by segment.
pub fn is_within(p: &[char], base: &[char]) -> (r: bool)
    ensures
        r == path_within(p@, base@),
{
    let p_rooted = p.len() > 0 && p[0] == '/';
    let b_rooted = base.len() > 0 && base[0] == '/';
    if p_rooted != b_rooted {
        return false;
    }
    let pc = path_components(p);
    let bc = path_components(base);
    if bc.len() > pc.len() {
        return false;
    }
    let mut i: usize = 0;
    while i < bc.len()
        invariant
            i <= bc.len() <= pc.len(),
            texts(pc@) == components(p@),
            texts(bc@) == components(base@),
            is_absolute(p@) == is_absolute(base@),
            texts(pc@).take(i as int) == texts(bc@).take(i as int),
        decreases bc.len() - i,
    {
        if !same_chars(pc[i].as_slice(), bc[i].as_slice()) {
            assert(texts(pc@).take(bc.len() as int)[i as int] != texts(bc@)[i as int]);
            return false;
        }
        assert(texts(pc@).take(i + 1) == texts(pc@).take(i as int).push(pc@[i as int]@));
        assert(texts(bc@).take(i + 1) == texts(bc@).take(i as int).push(bc@[i as int]@));
        i += 1;
    }
    assert(texts(bc@).take(bc.len() as int) == texts(bc@));
    true
}

/// `base` extended by `rel`, for paths held as strings.
pub fn join_paths(base: &str, rel: &str) -> (r: String)
    ensures
        r@ == path_joined(base@, rel@),
{
    let b = chars_of(base);
    let r = chars_of(rel);
    let v = path_join(b.as_slice(), r.as_slice());
    crate::text::string_of(v.as_slice())
}

} // verus!
