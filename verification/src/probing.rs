//! Lists of candidate paths and the search through them.

use vstd::prelude::*;
use crate::env::{FileSystem, NpmResolver};
use crate::model::{NodeModuleKind, NodeResolutionMode};
use crate::path::{clean, copy_chars, path_join, texts};
use crate::semantics::{
    condition_applies, conditions_for, declaration_candidates, first_existing, first_file,
    index_candidates, is_declaration_path, main_candidates, main_guess, NodeResolver,
};
use crate::specifier::with_known_extension_chars;
use crate::text::{chars_of, ends_with, joined, lowered, opt_seq, same_chars, str_is, string_of};

verus! {

/// Adds one text to a list of texts.
pub fn push_text(list: &mut Vec<Vec<char>>, item: Vec<char>)
    ensures
        texts(final(list)@) == texts(old(list)@).push(item@),
{
    let ghost before = texts(list@);
    list.push(item);
    assert(texts(list@) =~= before.push(item@));
}

/// A list of texts with nothing in it.
pub fn no_texts() -> (list: Vec<Vec<char>>)
    ensures
        texts(list@) == Seq::<Seq<char>>::empty(),
{
    let list: Vec<Vec<char>> = Vec::new();
    assert(texts(list@) =~= Seq::<Seq<char>>::empty());
    list
}

/// Whether `x` is one of the texts of `list`.
pub fn contains_text(list: &Vec<Vec<char>>, x: &[char]) -> (b: bool)
    ensures
        b == texts(list@).contains(x@),
{
    let mut i: usize = 0;
    while i < list.len()
        invariant
            i <= list.len(),
            forall|j: int| 0 <= j < i ==> texts(list@)[j] != x@,
        decreases list.len() - i,
    {
        if same_chars(list[i].as_slice(), x) {
            assert(texts(list@)[i as int] == x@);
            return true;
        }
        i += 1;
    }
    false
}

/// The conditions that are active for a referrer of the given kind.
pub fn conditions_of(kind: NodeModuleKind) -> (list: Vec<Vec<char>>)
    ensures
        texts(list@) == conditions_for(kind),
{
    let mut list = no_texts();
    match kind {
        NodeModuleKind::Esm => {
            push_text(&mut list, chars_of("deno"));
            push_text(&mut list, chars_of("node"));
            push_text(&mut list, chars_of("import"));
        },
        NodeModuleKind::Cjs => {
            push_text(&mut list, chars_of("require"));
            push_text(&mut list, chars_of("node"));
        },
    }
    list
}

/// Whether a key of a conditional target is taken.
pub fn applies(key: &[char], conditions: &Vec<Vec<char>>, mode: NodeResolutionMode) -> (b: bool)
    ensures
        b == condition_applies(key@, texts(conditions@), mode),
{
    str_is("default", key) || contains_text(conditions, key) || (mode.is_types() && str_is(
        "types",
        key,
    ))
}

/// Whether a path already names a declaration file.
pub fn is_declaration(path: &[char]) -> (b: bool)
    ensures
        b == is_declaration_path(path@),
{
    let lower = lowered(path);
    let a = chars_of(".d.ts");
    let b = chars_of(".d.cts");
    let c = chars_of(".d.mts");
    ends_with(lower.as_slice(), a.as_slice()) || ends_with(lower.as_slice(), b.as_slice())
        || ends_with(lower.as_slice(), c.as_slice())
}

/// The declaration files that may stand for the file at `path`.
pub fn declaration_candidate_list(path: &[char], kind: NodeModuleKind) -> (list: Vec<Vec<char>>)
    ensures
        texts(list@) == declaration_candidates(path@, kind),
{
    let lower = lowered(path);
    let mjs = chars_of(".mjs");
    let cjs = chars_of(".cjs");
    let is_mjs = ends_with(lower.as_slice(), mjs.as_slice());
    let is_cjs = ends_with(lower.as_slice(), cjs.as_slice());
    let d_ts = chars_of("d.ts");
    let d_mts = chars_of("d.mts");
    let d_cts = chars_of("d.cts");
    let mut list = no_texts();
    if is_mjs {
        push_text(&mut list, with_known_extension_chars(path, d_mts.as_slice()));
    } else if is_cjs {
        push_text(&mut list, with_known_extension_chars(path, d_cts.as_slice()));
    }
    push_text(&mut list, with_known_extension_chars(path, d_ts.as_slice()));
    match kind {
        NodeModuleKind::Cjs => {
            if !is_cjs || is_mjs {
                push_text(&mut list, with_known_extension_chars(path, d_cts.as_slice()));
            }
        },
        NodeModuleKind::Esm => {
            if !is_mjs {
                push_text(&mut list, with_known_extension_chars(path, d_mts.as_slice()));
            }
        },
    }
    list
}

/// The file that `main` may mean in `dir` once `ending` is added.
fn guess(dir: &[char], main: &[char], ending: &str) -> (v: Vec<char>)
    ensures
        v@ == main_guess(dir@, main@, ending@),
{
    let e = chars_of(ending);
    let name = joined(main, e.as_slice());
    let p = path_join(dir, name.as_slice());
    clean(p.as_slice())
}

/// The files that a `main` entry may mean, in the order in which they are tried.
pub fn main_candidate_list(
    dir: &[char],
    main: &[char],
    kind: NodeModuleKind,
    mode: NodeResolutionMode,
) -> (list: Vec<Vec<char>>)
    ensures
        texts(list@) == main_candidates(dir@, main@, kind, mode),
{
    let mut list = no_texts();
    let verbatim = path_join(dir, main);
    push_text(&mut list, clean(verbatim.as_slice()));
    if mode.is_types() {
        match kind {
            NodeModuleKind::Cjs => {
                push_text(&mut list, guess(dir, main, ".d.ts"));
                push_text(&mut list, guess(dir, main, ".d.cts"));
                push_text(&mut list, guess(dir, main, "/index.d.ts"));
                push_text(&mut list, guess(dir, main, "/index.d.cts"));
            },
            NodeModuleKind::Esm => {
                push_text(&mut list, guess(dir, main, ".d.ts"));
                push_text(&mut list, guess(dir, main, ".d.mts"));
                push_text(&mut list, guess(dir, main, "/index.d.ts"));
                push_text(&mut list, guess(dir, main, "/index.d.mts"));
                push_text(&mut list, guess(dir, main, ".d.cts"));
                push_text(&mut list, guess(dir, main, "/index.d.cts"));
            },
        }
    } else {
        push_text(&mut list, guess(dir, main, ".js"));
        push_text(&mut list, guess(dir, main, "/index.js"));
    }
    list
}

/// The file `name` in the directory `dir`, cleaned.
fn in_dir(dir: &[char], name: &str) -> (v: Vec<char>)
    ensures
        v@ == crate::path::cleaned(crate::path::path_joined(dir@, name@)),
{
    let n = chars_of(name);
    let p = path_join(dir, n.as_slice());
    clean(p.as_slice())
}

/// The index files of a directory, in the order in which they are tried.
pub fn index_candidate_list(dir: &[char], kind: NodeModuleKind, mode: NodeResolutionMode) -> (list:
    Vec<Vec<char>>)
    ensures
        texts(list@) == index_candidates(dir@, kind, mode),
{
    let mut list = no_texts();
    if mode.is_types() {
        match kind {
            NodeModuleKind::Cjs => {
                push_text(&mut list, in_dir(dir, "index.d.ts"));
                push_text(&mut list, in_dir(dir, "index.d.cts"));
            },
            NodeModuleKind::Esm => {
                push_text(&mut list, in_dir(dir, "index.d.ts"));
                push_text(&mut list, in_dir(dir, "index.d.mts"));
                push_text(&mut list, in_dir(dir, "index.d.cts"));
            },
        }
    } else {
        push_text(&mut list, in_dir(dir, "index.js"));
    }
    list
}

impl<'a, F: FileSystem, N: NpmResolver> NodeResolver<'a, F, N> {
    /// The first of the candidates at which anything lies.
    pub fn find_existing(&self, candidates: &Vec<Vec<char>>) -> (r: Option<Vec<char>>)
        ensures
            opt_seq(r) == first_existing(self.fs, texts(candidates@)),
    {
        let mut i: usize = 0;
        assert(texts(candidates@).skip(0) == texts(candidates@));
        while i < candidates.len()
            invariant
                i <= candidates.len(),
                first_existing(self.fs, texts(candidates@).skip(i as int)) == first_existing(
                    self.fs,
                    texts(candidates@),
                ),
            decreases candidates.len() - i,
        {
            let ghost rest = texts(candidates@).skip(i as int);
            assert(rest[0] == candidates@[i as int]@);
            assert(rest.drop_first() == texts(candidates@).skip(i + 1));
            let p = string_of(candidates[i].as_slice());
            if self.fs.path_exists(p.as_str()) {
                return Some(copy_chars(candidates[i].as_slice()));
            }
            i += 1;
        }
        None
    }

    /// The first of the candidates at which a regular file lies.
    pub fn find_file(&self, candidates: &Vec<Vec<char>>) -> (r: Option<Vec<char>>)
        ensures
            opt_seq(r) == first_file(self.fs, texts(candidates@)),
    {
        let mut i: usize = 0;
        assert(texts(candidates@).skip(0) == texts(candidates@));
        while i < candidates.len()
            invariant
                i <= candidates.len(),
                first_file(self.fs, texts(candidates@).skip(i as int)) == first_file(
                    self.fs,
                    texts(candidates@),
                ),
            decreases candidates.len() - i,
        {
            let ghost rest = texts(candidates@).skip(i as int);
            assert(rest[0] == candidates@[i as int]@);
            assert(rest.drop_first() == texts(candidates@).skip(i + 1));
            let p = string_of(candidates[i].as_slice());
            if self.fs.is_file(p.as_str()) {
                return Some(copy_chars(candidates[i].as_slice()));
            }
            i += 1;
        }
        None
    }
}

} // verus!
