//! What can be told from the text of a specifier or a file name alone.

use vstd::prelude::*;
use crate::errors::{full_error, ErrorKind, ErrorView, NodeResolveError};
use crate::path::{file_name, file_name_of, parent, parent_of, path_join, path_joined};
use crate::text::{
    append_chars, ascii_lowered, chars_of, find_char, first_index, has_char, head_before, joined,
    last_index, lowered, replace_all, replaced_all, rfind_char, slice_of, str_is, string_of,
    tail_after, tail_from,
};

verus! {

/// Whether a specifier is written relative to its referrer: `.`, `..`, or
/// something that begins with `./` or `../`.
pub open spec fn relative_specifier(s: Seq<char>) -> bool {
    &&& s.len() > 0
    &&& s[0] == '.'
    &&& (s.len() == 1 || s[1] == '/' || (s[1] == '.' && (s.len() == 2 || s[2] == '/')))
}

/// Whether a specifier names a location rather than a package: it is
/// relative, or begins with `/`.
pub open spec fn path_like_specifier(s: Seq<char>) -> bool {
    s.len() > 0 && (s[0] == '/' || relative_specifier(s))
}

/// Whether a specifier is written relative to its referrer.
pub fn is_relative_chars(s: &[char]) -> (b: bool)
    ensures
        b == relative_specifier(s@),
{
    let n: usize = s.len();
    if n > 0 && s[0] == '.' {
        if n == 1 || s[1] == '/' {
            return true;
        }
        if s[1] == '.' && (n == 2 || s[2] == '/') {
            return true;
        }
    }
    false
}

/// Whether a specifier is written relative to its referrer.
pub fn is_relative_specifier(specifier: &str) -> (b: bool)
    ensures
        b == relative_specifier(specifier@),
{
    let chars = chars_of(specifier);
    is_relative_chars(chars.as_slice())
}

/// Whether a specifier names a location rather than a package.
pub fn is_path_like_chars(s: &[char]) -> (b: bool)
    ensures
        b == path_like_specifier(s@),
{
    if s.len() == 0 {
        return false;
    }
    if s[0] == '/' {
        return true;
    }
    is_relative_chars(s)
}

/// Whether a specifier names a location rather than a package.
pub fn should_be_treated_as_relative_or_absolute_path(specifier: &str) -> (b: bool)
    ensures
        b == path_like_specifier(specifier@),
{
    let chars = chars_of(specifier);
    is_path_like_chars(chars.as_slice())
}

/// Where the package name ends in a bare specifier: at the first `/`, or,
/// in a specifier that begins with `@`, at the second.
pub open spec fn name_end(s: Seq<char>) -> Option<int> {
    match first_index(s, '/') {
        Some(i) => if s.len() > 0 && s[0] == '@' {
            match first_index(s.skip(i + 1), '/') {
                Some(j) => Some(i + 1 + j),
                None => None,
            }
        } else {
            Some(i)
        },
        None => None,
    }
}

/// The package name in a bare specifier.
pub open spec fn package_name_of(s: Seq<char>) -> Seq<char> {
    match name_end(s) {
        Some(i) => s.take(i),
        None => s,
    }
}

/// The subpath in a bare specifier: `.` followed by what comes after the name.
pub open spec fn package_subpath_of(s: Seq<char>) -> Seq<char> {
    match name_end(s) {
        Some(i) => seq!['.'] + s.skip(i),
        None => seq!['.'],
    }
}

/// Whether a bare specifier names a package: it is not empty, one that
/// begins with `@` has a `/`, and the name holds neither `%` nor `\`.
pub open spec fn names_a_package(s: Seq<char>) -> bool {
    &&& s.len() > 0
    &&& (s[0] == '@' ==> first_index(s, '/') is Some)
    &&& !package_name_of(s).contains('%')
    &&& !package_name_of(s).contains('\\')
}

/// A bare specifier taken apart: the package name, the subpath, and whether
/// the name is scoped; or the error where it names no package.
pub open spec fn parsed_package_name(specifier: Seq<char>, referrer: Seq<char>) -> Result<
    (Seq<char>, Seq<char>, bool),
    ErrorView,
> {
    if names_a_package(specifier) {
        Ok((package_name_of(specifier), package_subpath_of(specifier), specifier[0] == '@'))
    } else {
        Err(full_error(ErrorKind::InvalidModuleSpecifier, specifier, None, Some(referrer)))
    }
}

/// Takes a bare specifier apart, on character sequences.
pub fn parse_package_name_chars(specifier: &[char], referrer: &[char]) -> (r: Result<
    (Vec<char>, Vec<char>, bool),
    NodeResolveError,
>)
    ensures
        match r {
            Ok(t) => parsed_package_name(specifier@, referrer@) == Ok::<
                (Seq<char>, Seq<char>, bool),
                ErrorView,
            >((t.0@, t.1@, t.2)),
            Err(e) => parsed_package_name(specifier@, referrer@) == Err::<
                (Seq<char>, Seq<char>, bool),
                ErrorView,
            >(e@),
        },
{
    let first = find_char(specifier, '/');
    let mut valid = true;
    let mut is_scoped = false;
    let mut separator: Option<usize> = first;
    if specifier.len() == 0 {
        valid = false;
    } else if specifier[0] == '@' {
        is_scoped = true;
        match first {
            Some(index) => {
                let rest = tail_after(specifier, index);
                let second = find_char(rest.as_slice(), '/');
                separator = match second {
                    Some(j) => Some(index + 1 + j),
                    None => None,
                };
            },
            None => {
                valid = false;
            },
        }
    }
    assert(match separator {
        Some(i) => name_end(specifier@) == Some(i as int) && i <= specifier.len(),
        None => name_end(specifier@) is None,
    });
    let name = match separator {
        Some(index) => head_before(specifier, index),
        None => {
            let all = head_before(specifier, specifier.len());
            assert(specifier@.take(specifier.len() as int) == specifier@);
            all
        },
    };
    if has_char(name.as_slice(), '%') || has_char(name.as_slice(), '\\') {
        valid = false;
    }
    if !valid {
        return Err(
            NodeResolveError::new(
                ErrorKind::InvalidModuleSpecifier,
                specifier,
                None,
                Some(referrer),
            ),
        );
    }
    let mut subpath: Vec<char> = Vec::new();
    subpath.push('.');
    match separator {
        Some(index) => {
            let rest = tail_from(specifier, index);
            append_chars(&mut subpath, rest.as_slice());
        },
        None => {},
    }
    Ok((name, subpath, is_scoped))
}

/// Takes a bare specifier apart into package name, subpath, and whether the
/// name is scoped.
pub fn parse_npm_pkg_name(specifier: &str, referrer: &str) -> (r: Result<
    (String, String, bool),
    NodeResolveError,
>)
    ensures
        match r {
            Ok(t) => parsed_package_name(specifier@, referrer@) == Ok::<
                (Seq<char>, Seq<char>, bool),
                ErrorView,
            >((t.0@, t.1@, t.2)),
            Err(e) => parsed_package_name(specifier@, referrer@) == Err::<
                (Seq<char>, Seq<char>, bool),
                ErrorView,
            >(e@),
        },
{
    let s = chars_of(specifier);
    let r = chars_of(referrer);
    match parse_package_name_chars(s.as_slice(), r.as_slice()) {
        Ok(t) => Ok((string_of(t.0.as_slice()), string_of(t.1.as_slice()), t.2)),
        Err(e) => Err(e),
    }
}

/// The name of the package that holds the type declarations of
/// `package_name`: `@types/` and the name, each `/` written as `__`.
pub open spec fn types_name(package_name: Seq<char>) -> Seq<char> {
    "@types/"@ + replaced_all(package_name, '/', "__"@)
}

/// The name of the `@types` package for a package, on character sequences.
pub fn types_package_name_chars(package_name: &[char]) -> (v: Vec<char>)
    ensures
        v@ == types_name(package_name@),
{
    let prefix = chars_of("@types/");
    let under = chars_of("__");
    let body = replace_all(package_name, '/', under.as_slice());
    joined(prefix.as_slice(), body.as_slice())
}

/// The name of the `@types` package for a package.
pub fn types_package_name(package_name: &str) -> (r: String)
    ensures
        r@ == types_name(package_name@),
{
    let chars = chars_of(package_name);
    let v = types_package_name_chars(chars.as_slice());
    string_of(v.as_slice())
}

/// An extension that marks a declaration file when `.d` stands before it.
pub open spec fn is_decl_ext(ext: Seq<char>) -> bool {
    ext == "cts"@ || ext == "mts"@ || ext == "ts"@
}

/// An extension of a script, or the `d` of a name such as `types.d`.
pub open spec fn is_non_decl_ext(ext: Seq<char>) -> bool {
    ext == "cjs"@ || ext == "js"@ || ext == "json"@ || ext == "jsx"@ || ext == "mjs"@ || ext
        == "tsx"@ || ext == "d"@
}

/// Where the known extension of a lower-cased file name begins: at the
/// last `.` where a script extension follows it; at the `.` of `.d` where a
/// declaration extension follows that. None for any other name.
pub open spec fn known_ext_start(lower_name: Seq<char>) -> Option<int> {
    match last_index(lower_name, '.') {
        Some(p) => {
            let ext = lower_name.skip(p + 1);
            if is_decl_ext(ext) {
                match last_index(lower_name.take(p), '.') {
                    Some(q) => if lower_name.subrange(q + 1, p) == "d"@ {
                        Some(q)
                    } else {
                        Some(p)
                    },
                    None => Some(p),
                }
            } else if is_non_decl_ext(ext) {
                Some(p)
            } else {
                None
            }
        },
        None => None,
    }
}

/// The path with the last segment replaced by `name`.
pub open spec fn with_file_name(p: Seq<char>, name: Seq<char>) -> Seq<char> {
    match parent_of(p) {
        Some(d) => path_joined(d, name),
        None => name,
    }
}

/// The path with the known extension of its file name replaced by `ext`,
/// or with `ext` added where the name has no known extension. A path
/// without a file name is left as it is.
pub open spec fn with_extension(p: Seq<char>, ext: Seq<char>) -> Seq<char> {
    match file_name_of(p) {
        Some(name) => {
            let base = match known_ext_start(ascii_lowered(name)) {
                Some(i) => name.take(i),
                None => name,
            };
            with_file_name(p, base + seq!['.'] + ext)
        },
        None => p,
    }
}

fn decl_ext(ext: &[char]) -> (b: bool)
    ensures
        b == is_decl_ext(ext@),
{
    str_is("cts", ext) || str_is("mts", ext) || str_is("ts", ext)
}

fn non_decl_ext(ext: &[char]) -> (b: bool)
    ensures
        b == is_non_decl_ext(ext@),
{
    str_is("cjs", ext) || str_is("js", ext) || str_is("json", ext) || str_is("jsx", ext) || str_is(
        "mjs",
        ext,
    ) || str_is("tsx", ext) || str_is("d", ext)
}

fn known_extension_start(lower_name: &[char]) -> (r: Option<usize>)
    ensures
        match r {
            Some(i) => known_ext_start(lower_name@) == Some(i as int) && i < lower_name.len(),
            None => known_ext_start(lower_name@) is None,
        },
{
    let last = rfind_char(lower_name, '.');
    match last {
        Some(p) => {
            let ext = tail_after(lower_name, p);
            if decl_ext(ext.as_slice()) {
                let head = head_before(lower_name, p);
                let prev = rfind_char(head.as_slice(), '.');
                match prev {
                    Some(q) => {
                        let between = slice_of(lower_name, q + 1, p);
                        if str_is("d", between.as_slice()) {
                            Some(q)
                        } else {
                            Some(p)
                        }
                    },
                    None => Some(p),
                }
            } else if non_decl_ext(ext.as_slice()) {
                Some(p)
            } else {
                None
            }
        },
        None => None,
    }
}

/// The path with its known extension replaced by `ext`, on character sequences.
pub fn with_known_extension_chars(p: &[char], ext: &[char]) -> (v: Vec<char>)
    ensures
        v@ == with_extension(p@, ext@),
{
    let name = file_name(p);
    match name {
        Some(name) => {
            let lower = lowered(name.as_slice());
            let cut = known_extension_start(lower.as_slice());
            let mut base = match cut {
                Some(i) => head_before(name.as_slice(), i),
                None => name,
            };
            base.push('.');
            append_chars(&mut base, ext);
            let dir = parent(p);
            match dir {
                Some(d) => path_join(d.as_slice(), base.as_slice()),
                None => base,
            }
        },
        None => {
            let v = head_before(p, p.len());
            assert(p@.take(p.len() as int) == p@);
            v
        },
    }
}

/// The path with the known extension of its file name replaced by `ext`.
pub fn with_known_extension(path: &str, ext: &str) -> (r: String)
    ensures
        r@ == with_extension(path@, ext@),
{
    let p = chars_of(path);
    let e = chars_of(ext);
    let v = with_known_extension_chars(p.as_slice(), e.as_slice());
    string_of(v.as_slice())
}

} // verus!
