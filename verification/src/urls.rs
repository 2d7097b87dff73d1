//! URLs, as far as resolution needs them.
//!
//! A URL is held as its text. Parsing, joining and the conversion between
//! `file:` URLs and paths are done by the `url` crate; what it answers is
//! named here and taken on trust.

use vstd::prelude::*;
use crate::errors::opt_text;

verus! {

/// The serialization that `url::Url::parse` gives for `text`; none where it rejects the text.
pub uninterp spec fn url_normal_form(text: Seq<char>) -> Option<Seq<char>>;

/// The scheme that `url::Url::scheme` reports for the URL parsed from `text`.
pub uninterp spec fn url_scheme_of(text: Seq<char>) -> Option<Seq<char>>;

/// The path that `url::Url::path` reports for the URL parsed from `text`.
pub uninterp spec fn url_path_of(text: Seq<char>) -> Option<Seq<char>>;

/// The serialization of what `url::Url::join` makes of `input` against the URL parsed from `base`.
pub uninterp spec fn url_joined(base: Seq<char>, input: Seq<char>) -> Option<Seq<char>>;

/// The file path that `url::Url::to_file_path` gives for the URL parsed
/// from `text`, on the platform the library is built for.
pub uninterp spec fn url_file_path(text: Seq<char>) -> Option<Seq<char>>;

/// The serialization of the URL that `url::Url::from_file_path` makes of
/// `path`, on the platform the library is built for.
pub uninterp spec fn file_url_of(path: Seq<char>) -> Option<Seq<char>>;

/// The serialization of the URL that `url::Url::from_directory_path` makes
/// of `path`, on the platform the library is built for.
pub uninterp spec fn dir_url_of(path: Seq<char>) -> Option<Seq<char>>;

/// What `url::Url::make_relative` answers for the URLs parsed from `base` and `target`.
pub uninterp spec fn url_relative_to(base: Seq<char>, target: Seq<char>) -> Option<Seq<char>>;

/// Parses `text` with `url::Url::parse` and hands back the URL's
/// serialization. Claims only that the answer is a function of `text`.
#[verifier::external_body]
pub(crate) fn url_parse(text: &str) -> (r: Option<String>)
    ensures
        opt_text(r) == url_normal_form(text@),
{
    match url::Url::parse(text) {
        Ok(u) => Some(String::from(u)),
        Err(_) => None,
    }
}

/// The scheme of the URL that `text` parses to, by `url::Url::scheme`.
/// Claims only that the answer is a function of `text`.
#[verifier::external_body]
pub(crate) fn url_scheme(text: &str) -> (r: Option<String>)
    ensures
        opt_text(r) == url_scheme_of(text@),
{
    match url::Url::parse(text) {
        Ok(u) => Some(u.scheme().to_string()),
        Err(_) => None,
    }
}

/// The path of the URL that `text` parses to, by `url::Url::path`.
/// Claims only that the answer is a function of `text`.
#[verifier::external_body]
pub(crate) fn url_path(text: &str) -> (r: Option<String>)
    ensures
        opt_text(r) == url_path_of(text@),
{
    match url::Url::parse(text) {
        Ok(u) => Some(u.path().to_string()),
        Err(_) => None,
    }
}

/// Resolves `input` against the URL that `base` parses to, by
/// `url::Url::join`. Claims only that the answer is a function of the two texts.
#[verifier::external_body]
pub(crate) fn url_join(base: &str, input: &str) -> (r: Option<String>)
    ensures
        opt_text(r) == url_joined(base@, input@),
{
    match url::Url::parse(base) {
        Ok(b) => match b.join(input) {
            Ok(u) => Some(String::from(u)),
            Err(_) => None,
        },
        Err(_) => None,
    }
}

/// The file path of the URL that `text` parses to, by
/// `url::Url::to_file_path`; none where the URL names no local file or the
/// path is not Unicode. Claims only that the answer is a function of `text`.
#[verifier::external_body]
pub(crate) fn url_to_file_path(text: &str) -> (r: Option<String>)
    ensures
        opt_text(r) == url_file_path(text@),
{
    match url::Url::parse(text) {
        Ok(u) => match u.to_file_path() {
            Ok(p) => p.into_os_string().into_string().ok(),
            Err(_) => None,
        },
        Err(_) => None,
    }
}

/// The `file:` URL of a path, by `url::Url::from_file_path`; none where the
/// path is not absolute. Claims only that the answer is a function of `path`.
#[verifier::external_body]
pub(crate) fn file_path_to_url(path: &str) -> (r: Option<String>)
    ensures
        opt_text(r) == file_url_of(path@),
{
    match url::Url::from_file_path(std::path::Path::new(path)) {
        Ok(u) => Some(String::from(u)),
        Err(_) => None,
    }
}

/// The `file:` URL of a directory, by `url::Url::from_directory_path`; none
/// where the path is not absolute. Claims only that the answer is a function of `path`.
#[verifier::external_body]
pub(crate) fn dir_path_to_url(path: &str) -> (r: Option<String>)
    ensures
        opt_text(r) == dir_url_of(path@),
{
    match url::Url::from_directory_path(std::path::Path::new(path)) {
        Ok(u) => Some(String::from(u)),
        Err(_) => None,
    }
}

/// The relative reference that leads from `base` to `target`, by
/// `url::Url::make_relative`. Claims only that the answer is a function of the two texts.
#[verifier::external_body]
pub(crate) fn url_make_relative(base: &str, target: &str) -> (r: Option<String>)
    ensures
        opt_text(r) == url_relative_to(base@, target@),
{
    match (url::Url::parse(base), url::Url::parse(target)) {
        (Ok(b), Ok(t)) => b.make_relative(&t),
        _ => None,
    }
}

} // verus!
