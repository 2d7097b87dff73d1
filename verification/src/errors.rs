//! The failures a resolution request can end in.

use vstd::prelude::*;
use crate::text::string_of;

verus! {

/// What went wrong. Each kind is a distinct condition; none is retried.
#[derive(Debug, Clone, Copy, PartialEq, Eq, Structural)]
pub enum ErrorKind {
    /// The specifier, or a subpath derived from it, is not well formed.
    InvalidModuleSpecifier,
    /// A target in an `exports` or `imports` map is not acceptable.
    InvalidPackageTarget,
    /// The package's `exports` map has nothing for the subpath.
    PackagePathNotExported,
    /// The package's `imports` map has nothing for the name.
    PackageImportNotDefined,
    /// An `imports` target named a package that resolved to nothing.
    PackageTargetNotFound,
    /// The resolved location is neither a file nor a directory.
    ModuleNotFound,
    /// The resolved location is a directory.
    UnsupportedDirImport,
    /// The specifier is a URL whose scheme is neither `file` nor `data`.
    UnsupportedEsmUrlScheme,
    /// A TypeScript file inside an npm package.
    TypeScriptNotSupportedInNpm,
    /// The referrer lies outside the managed tree.
    NotFoundReferrer,
    /// No directory level visible from the referrer holds the package.
    NotFoundPackage,
    /// The file system failed while a package folder was looked up.
    PackageFolderIo,
    /// A `package.json` exists but could not be loaded.
    PackageJsonLoad,
    /// The directory of a file could not be made canonical.
    CanonicalizingDir,
    /// A specifier could not be joined onto a `data:` referrer.
    DataUrlReferrerFailed,
    /// A relative specifier could not be joined onto its referrer.
    RelativeJoin,
    /// A location that must be a local file is not one.
    NotAFilePath,
    /// Directories refer to each other more deeply than the resolver follows.
    TooDeep,
    /// The package folder holds no `package.json`.
    MissingPkgJson,
    /// The `package.json` names no package although its `bin` needs the name.
    MissingPkgJsonName,
    /// The `bin` entry of a `package.json` cannot be used.
    InvalidBinProperty,
}

/// A failed resolution: the kind of failure and what it was about.
#[derive(Debug, PartialEq, Eq)]
pub struct NodeResolveError {
    pub kind: ErrorKind,
    /// The offending specifier, target, subpath or path.
    pub request: String,
    /// The `package.json` whose content led to the failure, where there is one.
    pub package_json_path: Option<String>,
    /// The module that asked, where it is known.
    pub referrer: Option<String>,
}

/// The mathematical content of a `NodeResolveError`.
pub struct ErrorView {
    pub kind: ErrorKind,
    pub request: Seq<char>,
    pub package_json_path: Option<Seq<char>>,
    pub referrer: Option<Seq<char>>,
}

/// The text of an optional string.
pub open spec fn opt_text(s: Option<String>) -> Option<Seq<char>> {
    match s {
        Some(t) => Some(t@),
        None => None,
    }
}

/// The text of an optional sequence, empty where there is none.
pub open spec fn opt_or_empty(s: Option<Seq<char>>) -> Seq<char> {
    match s {
        Some(t) => t,
        None => Seq::empty(),
    }
}

impl View for NodeResolveError {
    type V = ErrorView;

    open spec fn view(&self) -> ErrorView {
        ErrorView {
            kind: self.kind,
            request: self.request@,
            package_json_path: opt_text(self.package_json_path),
            referrer: opt_text(self.referrer),
        }
    }
}

/// An error of the given kind with everything attached.
pub open spec fn full_error(
    kind: ErrorKind,
    request: Seq<char>,
    package_json_path: Option<Seq<char>>,
    referrer: Option<Seq<char>>,
) -> ErrorView {
    ErrorView { kind, request, package_json_path, referrer }
}

/// The text of an optional character slice.
pub open spec fn opt_slice(o: Option<&[char]>) -> Option<Seq<char>> {
    match o {
        Some(s) => Some(s@),
        None => None,
    }
}

/// A copy of an optional character sequence, as an optional string.
pub fn opt_string_of(s: Option<&[char]>) -> (r: Option<String>)
    ensures
        opt_text(r) == opt_slice(s),
{
    match s {
        Some(t) => Some(string_of(t)),
        None => None,
    }
}

impl NodeResolveError {
    /// Builds an error from its parts.
    pub fn new(
        kind: ErrorKind,
        request: &[char],
        package_json_path: Option<&[char]>,
        referrer: Option<&[char]>,
    ) -> (e: NodeResolveError)
        ensures
            e@ == full_error(kind, request@, opt_slice(package_json_path), opt_slice(referrer)),
    {
        NodeResolveError {
            kind,
            request: string_of(request),
            package_json_path: opt_string_of(package_json_path),
            referrer: opt_string_of(referrer),
        }
    }

    /// The kind of failure.
    pub fn kind(&self) -> (k: ErrorKind)
        ensures
            k == self@.kind,
    {
        self.kind
    }
}

} // verus!
