//! The package locator of a project whose packages lie in a local store.

use vstd::prelude::*;
use crate::env::{FileSystem, NpmResolver};
use crate::errors::{full_error, ErrorKind, ErrorView, NodeResolveError};
use crate::folder_id::{
    folder_id_of, folder_name_of, get_package_folder_id_from_folder_name, opt_folder_id_view,
    FolderIdView, NpmPackageCacheFolderId,
};
use crate::layout::{
    join_package_name_chars, package_content_path, package_folder_of_id, package_name_joined,
};
use crate::path::{
    clean, cleaned, file_name, file_name_of, parent, parent_of, path_join, path_joined,
};
use crate::text::{chars_of, has_prefix, opt_seq, same_chars, starts_with, str_is, string_of};
use crate::urls::{
    dir_path_to_url, dir_url_of, url_file_path, url_make_relative, url_relative_to,
    url_to_file_path,
};

verus! {

/// The directory of the package that holds `path`: the nearest directory,
/// from `path` upwards, that lies directly in a `node_modules` directory.
pub open spec fn package_root_of(path: Seq<char>) -> Option<Seq<char>>
    decreases path.len(),
{
    match parent_of(path) {
        None => None,
        Some(up) => if file_name_of(up) == Some("node_modules"@) {
            Some(path)
        } else if up.len() < path.len() {
            package_root_of(up)
        } else {
            None
        },
    }
}

/// The real path of `path`, of which the last segments need not exist:
/// the real path of the nearest directory above that exists, extended by
/// the segments below it.
pub open spec fn canonical_of<F: FileSystem>(fs: &F, path: Seq<char>) -> Option<Seq<char>>
    decreases path.len(),
{
    match fs.real_path_of(path) {
        Some(found) => Some(found),
        None => match parent_of(path) {
            Some(up) => if file_name_of(path) is Some && up.len() < path.len() {
                match canonical_of(fs, up) {
                    Some(c) => Some(path_joined(c, file_name_of(path)->0)),
                    None => None,
                }
            } else {
                None
            },
            None => None,
        },
    }
}

/// The `node_modules` directory that belongs to the directory `dir`: `dir`
/// itself where it is one, the one inside it otherwise.
pub open spec fn node_modules_of(dir: Seq<char>) -> Seq<char> {
    if file_name_of(dir) == Some("node_modules"@) {
        dir
    } else {
        path_joined(dir, "node_modules"@)
    }
}

/// The directory of the package `name` as seen from inside `current`: the
/// first of the `node_modules` directories above `current`, up to `root`,
/// that holds a directory of that name.
pub open spec fn climbed<F: FileSystem>(
    fs: &F,
    current: Seq<char>,
    name: Seq<char>,
    root: Seq<char>,
) -> Option<Seq<char>>
    decreases current.len(),
{
    match parent_of(current) {
        None => None,
        Some(up) => {
            let candidate = package_name_joined(node_modules_of(up), name);
            if fs.dir_at(candidate) {
                Some(candidate)
            } else if up == root {
                None
            } else if up.len() < current.len() {
                climbed(fs, up, name, root)
            } else {
                None
            }
        },
    }
}

/// The real path of the module at the URL `specifier`, where it lies
/// below the directory at `root_url`; an error where the path cannot be made real.
pub open spec fn folder_for<F: FileSystem>(fs: &F, root_url: Seq<char>, specifier: Seq<char>)
    -> Result<Option<Seq<char>>, ()> {
    match url_relative_to(root_url, specifier) {
        None => Ok(None),
        Some(rel) => if has_prefix(rel, "../"@) {
            Ok(None)
        } else {
            match url_file_path(specifier) {
                None => Ok(None),
                Some(p) => match canonical_of(fs, cleaned(p)) {
                    Some(c) => Ok(Some(c)),
                    None => Err(()),
                },
            }
        },
    }
}

/// The directory of the package `name` as the module at the URL `referrer` sees it.
pub open spec fn located_folder<F: FileSystem>(
    fs: &F,
    root: Seq<char>,
    root_url: Seq<char>,
    name: Seq<char>,
    referrer: Seq<char>,
) -> Result<Seq<char>, ErrorView> {
    match folder_for(fs, root_url, referrer) {
        Err(_) => Err(full_error(ErrorKind::PackageFolderIo, name, None, Some(referrer))),
        Ok(None) => Err(full_error(ErrorKind::NotFoundReferrer, referrer, None, Some(referrer))),
        Ok(Some(local)) => match package_root_of(local) {
            None => Err(full_error(ErrorKind::NotFoundReferrer, referrer, None, Some(referrer))),
            Some(package_root) => match climbed(fs, package_root, name, root) {
                Some(dir) => Ok(dir),
                None => Err(full_error(ErrorKind::NotFoundPackage, name, None, Some(referrer))),
            },
        },
    }
}

/// The folder of the store that holds the file at the real path `local`.
pub open spec fn folder_id_at(local: Seq<char>) -> Option<FolderIdView> {
    match package_root_of(local) {
        None => None,
        Some(package_root) => match parent_of(package_root) {
            None => None,
            Some(modules) => match parent_of(modules) {
                None => None,
                Some(slot) => match file_name_of(slot) {
                    None => None,
                    Some(folder_name) => folder_id_of(folder_name),
                },
            },
        },
    }
}

/// The directory of the package that holds `path`.
pub fn resolve_package_root(path: &[char]) -> (r: Option<Vec<char>>)
    ensures
        opt_seq(r) == package_root_of(path@),
{
    let mut last_found = crate::path::copy_chars(path);
    loop
        invariant
            package_root_of(last_found@) == package_root_of(path@),
        decreases last_found@.len(),
    {
        let up = match parent(last_found.as_slice()) {
            Some(up) => up,
            None => {
                return None;
            },
        };
        let is_modules = match file_name(up.as_slice()) {
            Some(n) => str_is("node_modules", n.as_slice()),
            None => false,
        };
        if is_modules {
            return Some(last_found);
        }
        if up.len() < last_found.len() {
            last_found = up;
        } else {
            return None;
        }
    }
}

/// A resolver that finds packages in the store below a project's `node_modules` directory.
pub struct LocalNpmPackageResolver<'a, F: FileSystem> {
    pub fs: &'a F,
    pub root_node_modules_path: String,
    pub root_node_modules_url: String,
}

impl<'a, F: FileSystem> LocalNpmPackageResolver<'a, F> {
    /// The resolver for the `node_modules` directory at `node_modules_folder`;
    /// none where that path has no `file:` URL.
    pub fn new(fs: &'a F, node_modules_folder: String) -> (r: Option<Self>)
        ensures
            match r {
                Some(resolver) => resolver.fs == fs && resolver.root_node_modules_path
                    == node_modules_folder && dir_url_of(node_modules_folder@) == Some(
                    resolver.root_node_modules_url@,
                ),
                None => dir_url_of(node_modules_folder@) is None,
            },
    {
        match dir_path_to_url(node_modules_folder.as_str()) {
            Some(url) => Some(
                LocalNpmPackageResolver {
                    fs,
                    root_node_modules_path: node_modules_folder,
                    root_node_modules_url: url,
                },
            ),
            None => None,
        }
    }

    /// The URL of the project's `node_modules` directory.
    pub fn root_dir_url(&self) -> (r: &String)
        ensures
            r == self.root_node_modules_url,
    {
        &self.root_node_modules_url
    }

    /// The path of the project's `node_modules` directory.
    pub fn node_modules_path(&self) -> (r: &String)
        ensures
            r == self.root_node_modules_path,
    {
        &self.root_node_modules_path
    }

    /// The real path of `path`, of which the last segments need not exist.
    pub fn canonicalize(&self, path: &[char]) -> (r: Option<Vec<char>>)
        ensures
            opt_seq(r) == canonical_of(self.fs, path@),
        decreases path@.len(),
    {
        let p = string_of(path);
        match self.fs.realpath(p.as_str()) {
            Some(found) => Some(chars_of(found.as_str())),
            None => {
                let up = match parent(path) {
                    Some(up) => up,
                    None => {
                        return None;
                    },
                };
                let name = match file_name(path) {
                    Some(n) => n,
                    None => {
                        return None;
                    },
                };
                if up.len() < path.len() {
                    match self.canonicalize(up.as_slice()) {
                        Some(c) => Some(path_join(c.as_slice(), name.as_slice())),
                        None => None,
                    }
                } else {
                    None
                }
            },
        }
    }

    /// The real path of the module at the URL `specifier`, where it lies in the project's store.
    pub fn resolve_folder_for_specifier(&self, specifier: &str) -> (r: Result<
        Option<Vec<char>>,
        (),
    >)
        ensures
            match r {
                Ok(found) => folder_for(self.fs, self.root_node_modules_url@, specifier@) == Ok::<
                    Option<Seq<char>>,
                    (),
                >(opt_seq(found)),
                Err(_) => folder_for(self.fs, self.root_node_modules_url@, specifier@) is Err,
            },
    {
        let relative = match url_make_relative(self.root_node_modules_url.as_str(), specifier) {
            Some(rel) => rel,
            None => {
                return Ok(None);
            },
        };
        let rel = chars_of(relative.as_str());
        let up = chars_of("../");
        if starts_with(rel.as_slice(), up.as_slice()) {
            return Ok(None);
        }
        let path = match url_to_file_path(specifier) {
            Some(p) => chars_of(p.as_str()),
            None => {
                return Ok(None);
            },
        };
        let tidy = clean(path.as_slice());
        match self.canonicalize(tidy.as_slice()) {
            Some(c) => Ok(Some(c)),
            None => Err(()),
        }
    }

    /// The directory of the package `name` as seen from inside `package_root`.
    fn climb(&self, package_root: &[char], name: &[char]) -> (r: Option<Vec<char>>)
        ensures
            opt_seq(r) == climbed(self.fs, package_root@, name@, self.root_node_modules_path@),
    {
        let root = chars_of(self.root_node_modules_path.as_str());
        let mut current = crate::path::copy_chars(package_root);
        loop
            invariant
                root@ == self.root_node_modules_path@,
                climbed(self.fs, current@, name@, root@) == climbed(
                    self.fs,
                    package_root@,
                    name@,
                    root@,
                ),
            decreases current@.len(),
        {
            let up = match parent(current.as_slice()) {
                Some(up) => up,
                None => {
                    return None;
                },
            };
            let is_modules = match file_name(up.as_slice()) {
                Some(n) => str_is("node_modules", n.as_slice()),
                None => false,
            };
            let modules = if is_modules {
                crate::path::copy_chars(up.as_slice())
            } else {
                let nm = chars_of("node_modules");
                path_join(up.as_slice(), nm.as_slice())
            };
            let candidate = join_package_name_chars(modules.as_slice(), name);
            let candidate_string = string_of(candidate.as_slice());
            if self.fs.is_dir(candidate_string.as_str()) {
                return Some(candidate);
            }
            if same_chars(up.as_slice(), root.as_slice()) {
                return None;
            }
            if up.len() < current.len() {
                current = up;
            } else {
                return None;
            }
        }
    }

    /// Where the content of the package with the given identity lies. The
    /// path is computed; nothing is looked up.
    pub fn maybe_package_folder(&self, id: &NpmPackageCacheFolderId) -> (r: String)
        ensures
            r@ == package_content_path(
                self.root_node_modules_path@,
                folder_name_of(id@),
                id@.name,
            ),
    {
        package_folder_of_id(self.root_node_modules_path.as_str(), id)
    }

    /// The folder of the store that holds the module at the URL
    /// `specifier`; none where the module lies outside the store.
    pub fn resolve_package_cache_folder_id_from_specifier(&self, specifier: &str) -> (r: Result<
        Option<NpmPackageCacheFolderId>,
        NodeResolveError,
    >)
        ensures
            match r {
                Ok(found) => match folder_for(self.fs, self.root_node_modules_url@, specifier@) {
                    Ok(Some(local)) => opt_folder_id_view(found) == folder_id_at(local),
                    Ok(None) => found is None,
                    Err(_) => false,
                },
                Err(e) => folder_for(self.fs, self.root_node_modules_url@, specifier@) is Err && e@
                    == full_error(ErrorKind::PackageFolderIo, specifier@, None, None),
            },
    {
        let local = match self.resolve_folder_for_specifier(specifier) {
            Ok(Some(local)) => local,
            Ok(None) => {
                return Ok(None);
            },
            Err(_) => {
                let s = chars_of(specifier);
                return Err(
                    NodeResolveError::new(ErrorKind::PackageFolderIo, s.as_slice(), None, None),
                );
            },
        };
        let package_root = match resolve_package_root(local.as_slice()) {
            Some(p) => p,
            None => {
                return Ok(None);
            },
        };
        let modules = match parent(package_root.as_slice()) {
            Some(p) => p,
            None => {
                return Ok(None);
            },
        };
        let slot = match parent(modules.as_slice()) {
            Some(p) => p,
            None => {
                return Ok(None);
            },
        };
        let folder_name = match file_name(slot.as_slice()) {
            Some(n) => string_of(n.as_slice()),
            None => {
                return Ok(None);
            },
        };
        Ok(get_package_folder_id_from_folder_name(folder_name.as_str()))
    }
}

impl<'a, F: FileSystem> NpmResolver for LocalNpmPackageResolver<'a, F> {
    open spec fn package_folder(&self, name: Seq<char>, referrer: Seq<char>) -> Result<
        Seq<char>,
        ErrorView,
    > {
        located_folder(
            self.fs,
            self.root_node_modules_path@,
            self.root_node_modules_url@,
            name,
            referrer,
        )
    }

    open spec fn inside_npm_package(&self, specifier: Seq<char>) -> bool {
        has_prefix(specifier, self.root_node_modules_url@)
    }

    fn resolve_package_folder_from_package(&self, name: &str, referrer: &str) -> (r: Result<
        String,
        NodeResolveError,
    >) {
        let n = chars_of(name);
        let rf = chars_of(referrer);
        let local = match self.resolve_folder_for_specifier(referrer) {
            Err(_) => {
                return Err(
                    NodeResolveError::new(
                        ErrorKind::PackageFolderIo,
                        n.as_slice(),
                        None,
                        Some(rf.as_slice()),
                    ),
                );
            },
            Ok(None) => {
                return Err(
                    NodeResolveError::new(
                        ErrorKind::NotFoundReferrer,
                        rf.as_slice(),
                        None,
                        Some(rf.as_slice()),
                    ),
                );
            },
            Ok(Some(local)) => local,
        };
        let package_root = match resolve_package_root(local.as_slice()) {
            Some(p) => p,
            None => {
                return Err(
                    NodeResolveError::new(
                        ErrorKind::NotFoundReferrer,
                        rf.as_slice(),
                        None,
                        Some(rf.as_slice()),
                    ),
                );
            },
        };
        match self.climb(package_root.as_slice(), n.as_slice()) {
            Some(dir) => Ok(string_of(dir.as_slice())),
            None => Err(
                NodeResolveError::new(
                    ErrorKind::NotFoundPackage,
                    n.as_slice(),
                    None,
                    Some(rf.as_slice()),
                ),
            ),
        }
    }

    fn in_npm_package(&self, specifier: &str) -> (b: bool) {
        let s = chars_of(specifier);
        let root = chars_of(self.root_node_modules_url.as_str());
        starts_with(s.as_slice(), root.as_slice())
    }
}

} // verus!
