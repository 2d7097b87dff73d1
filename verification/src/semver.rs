//! Semantic versions. They are parsed, printed and ordered by the
//! `deno_semver` crate; what it answers is taken on trust.

use vstd::prelude::*;
use crate::decimal::decimal_of;
use crate::path::join_parts;
use crate::semantics::strings_view;
use crate::text::same_text;

verus! {

/// A semantic version.
#[derive(Debug)]
pub struct Version {
    pub major: u64,
    pub minor: u64,
    pub patch: u64,
    /// The parts of the pre-release tag.
    pub pre: Vec<String>,
    /// The parts of the build tag.
    pub build: Vec<String>,
}

/// The mathematical content of a `Version`.
pub struct VersionView {
    pub major: u64,
    pub minor: u64,
    pub patch: u64,
    pub pre: Seq<Seq<char>>,
    pub build: Seq<Seq<char>>,
}

impl View for Version {
    type V = VersionView;

    open spec fn view(&self) -> VersionView {
        VersionView {
            major: self.major,
            minor: self.minor,
            patch: self.patch,
            pre: strings_view(self.pre@),
            build: strings_view(self.build@),
        }
    }
}

/// The content of an optional version.
pub open spec fn opt_version_view(v: Option<Version>) -> Option<VersionView> {
    match v {
        Some(x) => Some(x@),
        None => None,
    }
}

/// The version that `deno_semver::Version::parse_from_npm` reads from a
/// text by npm's loose grammar; none where it rejects the text.
pub uninterp spec fn npm_version_of(text: Seq<char>) -> Option<VersionView>;

/// Whether `a` stands before `b` in the order that `deno_semver` gives to versions.
pub uninterp spec fn version_precedes(a: VersionView, b: VersionView) -> bool;

/// A version as it is printed: the three numbers with `.` between them,
/// then `-` and the pre-release parts, then `+` and the build parts, the
/// parts of each tag with `.` between them.
pub open spec fn version_text_of(v: VersionView) -> Seq<char> {
    let numbers = decimal_of(v.major as nat) + seq!['.'] + decimal_of(v.minor as nat) + seq!['.']
        + decimal_of(v.patch as nat);
    let pre = if v.pre.len() > 0 {
        seq!['-'] + join_parts(v.pre, seq!['.'])
    } else {
        Seq::empty()
    };
    let build = if v.build.len() > 0 {
        seq!['+'] + join_parts(v.build, seq!['.'])
    } else {
        Seq::empty()
    };
    numbers + pre + build
}

/// Reads a version by `deno_semver::Version::parse_from_npm`. Claims only
/// that the answer is a function of the text.
#[verifier::external_body]
pub(crate) fn parse_npm_version(text: &str) -> (r: Option<Version>)
    ensures
        opt_version_view(r) == npm_version_of(text@),
{
    match deno_semver::Version::parse_from_npm(text) {
        Ok(v) => Some(
            Version { major: v.major, minor: v.minor, patch: v.patch, pre: v.pre, build: v.build },
        ),
        Err(_) => None,
    }
}

/// Prints a version by the `Display` of `deno_semver::Version`, which
/// writes the numbers and the two tags as `version_text_of` says.
#[verifier::external_body]
pub(crate) fn version_text(v: &Version) -> (r: String)
    ensures
        r@ == version_text_of(v@),
{
    let outside = deno_semver::Version {
        major: v.major,
        minor: v.minor,
        patch: v.patch,
        pre: v.pre.clone(),
        build: v.build.clone(),
    };
    outside.to_string()
}

/// Whether `a` stands before `b`, by the `<` of `deno_semver::Version`.
/// Claims only that the answer is a function of the two versions.
#[verifier::external_body]
pub(crate) fn version_less(a: &Version, b: &Version) -> (r: bool)
    ensures
        r == version_precedes(a@, b@),
{
    let x = deno_semver::Version {
        major: a.major,
        minor: a.minor,
        patch: a.patch,
        pre: a.pre.clone(),
        build: a.build.clone(),
    };
    let y = deno_semver::Version {
        major: b.major,
        minor: b.minor,
        patch: b.patch,
        pre: b.pre.clone(),
        build: b.build.clone(),
    };
    x < y
}

/// Whether two lists of strings hold the same texts.
pub fn same_strings(a: &Vec<String>, b: &Vec<String>) -> (r: bool)
    ensures
        r == (strings_view(a@) == strings_view(b@)),
{
    if a.len() != b.len() {
        assert(strings_view(a@).len() != strings_view(b@).len());
        return false;
    }
    let mut i: usize = 0;
    while i < a.len()
        invariant
            i <= a.len(),
            a.len() == b.len(),
            forall|j: int| 0 <= j < i ==> strings_view(a@)[j] == strings_view(b@)[j],
        decreases a.len() - i,
    {
        if !same_text(a[i].as_str(), b[i].as_str()) {
            assert(strings_view(a@)[i as int] != strings_view(b@)[i as int]);
            return false;
        }
        i += 1;
    }
    assert(strings_view(a@) =~= strings_view(b@));
    true
}

/// A copy of a list of strings.
pub fn copy_strings(a: &Vec<String>) -> (r: Vec<String>)
    ensures
        strings_view(r@) == strings_view(a@),
{
    let mut r: Vec<String> = Vec::new();
    let mut i: usize = 0;
    while i < a.len()
        invariant
            i <= a.len(),
            r@.len() == i,
            forall|j: int| 0 <= j < i ==> r@[j]@ == a@[j]@,
        decreases a.len() - i,
    {
        r.push(a[i].clone());
        i += 1;
    }
    assert(strings_view(r@) =~= strings_view(a@));
    r
}

impl Version {
    /// Whether two versions are the same in every part.
    pub fn same_as(&self, other: &Version) -> (r: bool)
        ensures
            r == (self@ == other@),
    {
        self.major == other.major && self.minor == other.minor && self.patch == other.patch
            && same_strings(&self.pre, &other.pre) && same_strings(&self.build, &other.build)
    }

    /// A copy of the version.
    pub fn duplicate(&self) -> (r: Version)
        ensures
            r@ == self@,
    {
        Version {
            major: self.major,
            minor: self.minor,
            patch: self.patch,
            pre: copy_strings(&self.pre),
            build: copy_strings(&self.build),
        }
    }

    /// The version that a text stands for by npm's loose grammar.
    pub fn parse_from_npm(text: &str) -> (r: Option<Version>)
        ensures
            opt_version_view(r) == npm_version_of(text@),
    {
        parse_npm_version(text)
    }

    /// The version as it is printed.
    pub fn to_text(&self) -> (r: String)
        ensures
            r@ == version_text_of(self@),
    {
        version_text(self)
    }

    /// Whether this version stands before `other`.
    pub fn precedes(&self, other: &Version) -> (r: bool)
        ensures
            r == version_precedes(self@, other@),
    {
        version_less(self, other)
    }
}

} // verus!
