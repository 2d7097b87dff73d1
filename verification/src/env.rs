//! What a resolver asks of its surroundings: a file system that can be
//! probed and that loads manifests, and a locator of installed packages.
//!
//! Each trait describes its implementor by spec functions, the state that a
//! resolution reads, and promises that every method answers by that state.
//! A resolution is then a function of that state.
//!
//! The library proves the promises for its own implementors. An
//! implementor from elsewhere defines the methods only; of its state
//! nothing is known, and what is proved of a resolution holds for it as
//! far as its methods answer alike whenever they are asked alike.

use vstd::prelude::*;
use crate::errors::{opt_text, ErrorView, NodeResolveError};
use crate::model::{PackageJson, PackageJsonView};

verus! {

/// The content of what loading a manifest gave.
pub open spec fn loaded_view(r: Result<Option<PackageJson>, String>) -> Result<
    Option<PackageJsonView>,
    Seq<char>,
> {
    match r {
        Ok(Some(p)) => Ok(Some(p@)),
        Ok(None) => Ok(None),
        Err(m) => Err(m@),
    }
}

/// The content of a path or an error.
pub open spec fn path_result_view(r: Result<String, NodeResolveError>) -> Result<
    Seq<char>,
    ErrorView,
> {
    match r {
        Ok(p) => Ok(p@),
        Err(e) => Err(e@),
    }
}

/// A file system, read only.
pub trait FileSystem {
    /// Whether a regular file lies at `path`.
    closed spec fn file_at(&self, path: Seq<char>) -> bool {
        arbitrary()
    }

    /// Whether a directory lies at `path`.
    closed spec fn dir_at(&self, path: Seq<char>) -> bool {
        arbitrary()
    }

    /// Whether anything lies at `path`.
    closed spec fn exists_at(&self, path: Seq<char>) -> bool {
        arbitrary()
    }

    /// The path that `path` leads to once every link on the way is followed;
    /// none where that cannot be told.
    closed spec fn real_path_of(&self, path: Seq<char>) -> Option<Seq<char>> {
        arbitrary()
    }

    /// The manifest at `path`: none where no file lies there, an error
    /// message where the file cannot be read as a manifest.
    closed spec fn manifest_at(&self, path: Seq<char>) -> Result<Option<PackageJsonView>, Seq<char>> {
        arbitrary()
    }

    fn is_file(&self, path: &str) -> (b: bool)
        ensures
            b == self.file_at(path@),
    ;

    fn is_dir(&self, path: &str) -> (b: bool)
        ensures
            b == self.dir_at(path@),
    ;

    fn path_exists(&self, path: &str) -> (b: bool)
        ensures
            b == self.exists_at(path@),
    ;

    fn realpath(&self, path: &str) -> (r: Option<String>)
        ensures
            opt_text(r) == self.real_path_of(path@),
    ;

    fn load_package_json(&self, path: &str) -> (r: Result<Option<PackageJson>, String>)
        ensures
            loaded_view(r) == self.manifest_at(path@),
    ;
}

/// A locator of installed packages.
pub trait NpmResolver {
    /// The directory of the package `name` as the module at the URL
    /// `referrer` sees it, or why there is none.
    closed spec fn package_folder(&self, name: Seq<char>, referrer: Seq<char>) -> Result<
        Seq<char>,
        ErrorView,
    > {
        arbitrary()
    }

    /// Whether the module at the URL `specifier` lies inside an installed package.
    closed spec fn inside_npm_package(&self, specifier: Seq<char>) -> bool {
        arbitrary()
    }

    fn resolve_package_folder_from_package(&self, name: &str, referrer: &str) -> (r: Result<
        String,
        NodeResolveError,
    >)
        ensures
            path_result_view(r) == self.package_folder(name@, referrer@),
    ;

    fn in_npm_package(&self, specifier: &str) -> (b: bool)
        ensures
            b == self.inside_npm_package(specifier@),
    ;
}

} // verus!
