//! What a resolution is: the specification of the resolver, as functions of
//! the state of the file system and of the package locator.

use vstd::prelude::*;
use crate::builtin::{builtin_of_url, is_builtin_name};
use crate::env::{FileSystem, NpmResolver};
use crate::errors::{full_error, ErrorKind, ErrorView, NodeResolveError};
use crate::matching::{best_match, has_invalid_segment, matched_part};
use crate::model::{
    entry_index, main_entry, Located, LocatedView, NodeModuleKind, NodeResolution,
    NodeResolutionMode, NodeResolutionView, PackageJsonView, TargetView,
};
use crate::path::{cleaned, parent_of, path_joined, path_within, without_trailing_separators};
use crate::specifier::{parsed_package_name, path_like_specifier, types_name, with_extension};
use crate::text::{ascii_lowered, has_prefix, has_sub, has_suffix, replaced_first};
use crate::urls::{
    file_url_of, url_file_path, url_joined, url_normal_form, url_path_of, url_scheme_of,
};

verus! {

/// How many times a resolution may descend: into a directory that stands
/// for a module, or into the package that an `imports` target names.
pub const MAX_DEPTH: usize = 32;

/// A location, or the failure to find one.
pub type Found = Result<LocatedView, ErrorView>;

/// A location, nothing, or a failure.
pub type MaybeFound = Result<Option<LocatedView>, ErrorView>;

/// A resolution, nothing, or a failure.
pub type Resolved = Result<Option<NodeResolutionView>, ErrorView>;

/// The content of a location or an error.
pub open spec fn found_view(r: Result<Located, NodeResolveError>) -> Found {
    match r {
        Ok(l) => Ok(l@),
        Err(e) => Err(e@),
    }
}

/// The content of an optional location or an error.
pub open spec fn maybe_found_view(r: Result<Option<Located>, NodeResolveError>) -> MaybeFound {
    match r {
        Ok(Some(l)) => Ok(Some(l@)),
        Ok(None) => Ok(None),
        Err(e) => Err(e@),
    }
}

/// The content of a resolution or an error.
pub open spec fn node_resolution_view(r: Result<NodeResolution, NodeResolveError>) -> Result<
    NodeResolutionView,
    ErrorView,
> {
    match r {
        Ok(l) => Ok(l@),
        Err(e) => Err(e@),
    }
}

/// The content of an optional resolution or an error.
pub open spec fn resolved_view(r: Result<Option<NodeResolution>, NodeResolveError>) -> Resolved {
    match r {
        Ok(Some(l)) => Ok(Some(l@)),
        Ok(None) => Ok(None),
        Err(e) => Err(e@),
    }
}

/// The content of an optional manifest or an error.
pub open spec fn manifest_view(
    r: Result<Option<crate::model::PackageJson>, NodeResolveError>,
) -> Result<Option<PackageJsonView>, ErrorView> {
    match r {
        Ok(Some(p)) => Ok(Some(p@)),
        Ok(None) => Ok(None),
        Err(e) => Err(e@),
    }
}

/// A found location as an optional one.
pub open spec fn some_found(r: Found) -> MaybeFound {
    match r {
        Ok(l) => Ok(Some(l)),
        Err(e) => Err(e),
    }
}

/// The text of a location.
pub open spec fn located_text(l: LocatedView) -> Seq<char> {
    match l {
        LocatedView::Path(p) => p,
        LocatedView::Url(u) => u,
    }
}

/// The conditions that are active for a referrer of the given kind.
pub open spec fn conditions_for(kind: NodeModuleKind) -> Seq<Seq<char>> {
    match kind {
        NodeModuleKind::Esm => seq!["deno"@, "node"@, "import"@],
        NodeModuleKind::Cjs => seq!["require"@, "node"@],
    }
}

/// Whether a key of a conditional target is taken: it is `default`, one of
/// the active conditions, or, when types are looked for, `types`.
pub open spec fn condition_applies(
    key: Seq<char>,
    conditions: Seq<Seq<char>>,
    mode: NodeResolutionMode,
) -> bool {
    key == "default"@ || conditions.contains(key) || (mode == NodeResolutionMode::Types && key
        == "types"@)
}

/// Whether the encoded form of a path holds a disguised separator.
pub open spec fn has_encoded_separator(path: Seq<char>) -> bool {
    has_sub(path, "%2F"@) || has_sub(path, "%2C"@)
}

/// The declaration files that may stand for the file at `path`, in the
/// order in which they are looked for.
pub open spec fn declaration_candidates(path: Seq<char>, kind: NodeModuleKind) -> Seq<Seq<char>> {
    let lower = ascii_lowered(path);
    let is_mjs = has_suffix(lower, ".mjs"@);
    let is_cjs = has_suffix(lower, ".cjs"@);
    let first = if is_mjs {
        seq![with_extension(path, "d.mts"@)]
    } else if is_cjs {
        seq![with_extension(path, "d.cts"@)]
    } else {
        Seq::empty()
    };
    let second = first.push(with_extension(path, "d.ts"@));
    match kind {
        NodeModuleKind::Cjs => if !is_cjs || is_mjs {
            second.push(with_extension(path, "d.cts"@))
        } else {
            second
        },
        NodeModuleKind::Esm => if !is_mjs {
            second.push(with_extension(path, "d.mts"@))
        } else {
            second
        },
    }
}

/// Whether a path already names a declaration file.
pub open spec fn is_declaration_path(path: Seq<char>) -> bool {
    let lower = ascii_lowered(path);
    has_suffix(lower, ".d.ts"@) || has_suffix(lower, ".d.cts"@) || has_suffix(lower, ".d.mts"@)
}

/// The file that `main` may mean in the directory `dir` once `ending` is added.
pub open spec fn main_guess(dir: Seq<char>, main: Seq<char>, ending: Seq<char>) -> Seq<char> {
    cleaned(path_joined(dir, main + ending))
}

/// The files that a `main` entry may mean, in the order in which they are tried.
pub open spec fn main_candidates(
    dir: Seq<char>,
    main: Seq<char>,
    kind: NodeModuleKind,
    mode: NodeResolutionMode,
) -> Seq<Seq<char>> {
    let base = seq![cleaned(path_joined(dir, main))];
    if mode == NodeResolutionMode::Types {
        match kind {
            NodeModuleKind::Cjs => base.push(main_guess(dir, main, ".d.ts"@)).push(
                main_guess(dir, main, ".d.cts"@),
            ).push(main_guess(dir, main, "/index.d.ts"@)).push(
                main_guess(dir, main, "/index.d.cts"@),
            ),
            NodeModuleKind::Esm => base.push(main_guess(dir, main, ".d.ts"@)).push(
                main_guess(dir, main, ".d.mts"@),
            ).push(main_guess(dir, main, "/index.d.ts"@)).push(
                main_guess(dir, main, "/index.d.mts"@),
            ).push(main_guess(dir, main, ".d.cts"@)).push(main_guess(dir, main, "/index.d.cts"@)),
        }
    } else {
        base.push(main_guess(dir, main, ".js"@)).push(main_guess(dir, main, "/index.js"@))
    }
}

/// The index files of a directory, in the order in which they are tried.
pub open spec fn index_candidates(dir: Seq<char>, kind: NodeModuleKind, mode: NodeResolutionMode)
    -> Seq<Seq<char>> {
    if mode == NodeResolutionMode::Types {
        match kind {
            NodeModuleKind::Cjs => seq![
                cleaned(path_joined(dir, "index.d.ts"@)),
                cleaned(path_joined(dir, "index.d.cts"@)),
            ],
            NodeModuleKind::Esm => seq![
                cleaned(path_joined(dir, "index.d.ts"@)),
                cleaned(path_joined(dir, "index.d.mts"@)),
                cleaned(path_joined(dir, "index.d.cts"@)),
            ],
        }
    } else {
        seq![cleaned(path_joined(dir, "index.js"@))]
    }
}

/// The first of the candidates at which anything lies.
pub open spec fn first_existing<F: FileSystem>(fs: &F, candidates: Seq<Seq<char>>) -> Option<
    Seq<char>,
>
    decreases candidates.len(),
{
    if candidates.len() == 0 {
        None
    } else if fs.exists_at(candidates[0]) {
        Some(candidates[0])
    } else {
        first_existing(fs, candidates.drop_first())
    }
}

/// The first of the candidates at which a regular file lies.
pub open spec fn first_file<F: FileSystem>(fs: &F, candidates: Seq<Seq<char>>) -> Option<
    Seq<char>,
>
    decreases candidates.len(),
{
    if candidates.len() == 0 {
        None
    } else if fs.file_at(candidates[0]) {
        Some(candidates[0])
    } else {
        first_file(fs, candidates.drop_first())
    }
}

/// A path as an optional location.
pub open spec fn path_found(p: Option<Seq<char>>) -> Option<LocatedView> {
    match p {
        Some(x) => Some(LocatedView::Path(x)),
        None => None,
    }
}

/// The content of an optional manifest reference.
pub open spec fn opt_manifest(o: Option<&crate::model::PackageJson>) -> Option<PackageJsonView> {
    match o {
        Some(p) => Some(p@),
        None => None,
    }
}

/// The content of an optional location.
pub open spec fn opt_located(o: Option<Located>) -> Option<LocatedView> {
    match o {
        Some(l) => Some(l@),
        None => None,
    }
}

/// What loading the manifest at `path` gives, a failure to read it told as an error.
pub open spec fn loaded_manifest<F: FileSystem>(
    fs: &F,
    path: Seq<char>,
    referrer: Option<Seq<char>>,
) -> Result<Option<PackageJsonView>, ErrorView> {
    match fs.manifest_at(path) {
        Err(_) => Err(full_error(ErrorKind::PackageJsonLoad, path, None, referrer)),
        Ok(found) => Ok(found),
    }
}

/// The manifest nearest to `dir`: that of `dir` itself, else that of the
/// nearest directory above it that has one.
pub open spec fn closest_from<F: FileSystem>(fs: &F, dir: Seq<char>) -> Result<
    Option<PackageJsonView>,
    ErrorView,
>
    decreases dir.len(),
{
    let manifest_path = path_joined(dir, "package.json"@);
    match fs.manifest_at(manifest_path) {
        Err(_) => Err(full_error(ErrorKind::PackageJsonLoad, manifest_path, None, None)),
        Ok(Some(pkg)) => Ok(Some(pkg)),
        Ok(None) => match parent_of(dir) {
            Some(up) => if up.len() < dir.len() {
                closest_from(fs, up)
            } else {
                Ok(None)
            },
            None => Ok(None),
        },
    }
}

/// The manifest nearest to the file at `file_path`; none where there is no such path.
pub open spec fn closest_manifest<F: FileSystem>(fs: &F, file_path: Option<Seq<char>>) -> Result<
    Option<PackageJsonView>,
    ErrorView,
> {
    match file_path {
        Some(fp) => match parent_of(fp) {
            Some(dir) => match fs.real_path_of(dir) {
                Some(canonical) => closest_from(fs, canonical),
                None => Err(full_error(ErrorKind::CanonicalizingDir, dir, None, None)),
            },
            None => Ok(None),
        },
        None => Ok(None),
    }
}

/// The file path at which a location lies.
pub open spec fn file_path_of(l: LocatedView) -> Option<Seq<char>> {
    match l {
        LocatedView::Path(p) => Some(p),
        LocatedView::Url(u) => url_file_path(u),
    }
}

/// What is found of the file at `file_path` once it is known to stand for
/// `located`: the location itself where a regular file lies there, and a
/// failure where a directory or nothing lies there. The file system is
/// asked about the path without its trailing separators.
pub open spec fn checked_file<F: FileSystem>(
    fs: &F,
    file_path: Seq<char>,
    located: LocatedView,
    referrer: Option<Seq<char>>,
) -> Found {
    let probe = without_trailing_separators(file_path);
    if fs.dir_at(probe) {
        Err(full_error(ErrorKind::UnsupportedDirImport, located_text(located), None, referrer))
    } else if !fs.file_at(probe) {
        Err(full_error(ErrorKind::ModuleNotFound, located_text(located), None, referrer))
    } else {
        Ok(located)
    }
}

/// The last step of a resolution: a URL whose path holds a disguised
/// separator is refused, a `node:` URL is passed on, and anything else must
/// be a regular file.
pub open spec fn finalized<F: FileSystem>(
    fs: &F,
    located: LocatedView,
    referrer: Option<Seq<char>>,
) -> Found {
    match located {
        LocatedView::Url(u) => match url_path_of(u) {
            Some(p) => if has_encoded_separator(p) {
                Err(full_error(ErrorKind::InvalidModuleSpecifier, u, None, referrer))
            } else if url_scheme_of(u) == Some("node"@) {
                Ok(located)
            } else {
                match url_file_path(u) {
                    Some(fp) => checked_file(fs, fp, located, referrer),
                    None => Err(full_error(ErrorKind::NotAFilePath, u, None, referrer)),
                }
            },
            None => Err(full_error(ErrorKind::NotAFilePath, u, None, referrer)),
        },
        LocatedView::Path(p) => checked_file(fs, p, located, referrer),
    }
}

/// The texts of a list of strings.
pub open spec fn strings_view(v: Seq<String>) -> Seq<Seq<char>> {
    v.map_values(|s: String| s@)
}

/// The text of an optional string slice.
pub open spec fn opt_str(o: Option<&str>) -> Option<Seq<char>> {
    match o {
        Some(s) => Some(s@),
        None => None,
    }
}

/// The subpath that an optional path inside a package stands for: `.` for
/// the package itself, `./` and the path otherwise.
pub open spec fn subpath_of_option(sub: Option<Seq<char>>) -> Seq<char> {
    match sub {
        Some(s) => "./"@ + s,
        None => "."@,
    }
}

/// A resolver over a file system and a package locator.
pub struct NodeResolver<'a, F: FileSystem, N: NpmResolver> {
    pub fs: &'a F,
    pub npm_resolver: &'a N,
}

impl<'a, F: FileSystem, N: NpmResolver> NodeResolver<'a, F, N> {
    /// The declaration file that stands for the file or directory at `path`.
    pub open spec fn declaration_of(
        &self,
        path: Seq<char>,
        referrer: Option<Seq<char>>,
        kind: NodeModuleKind,
        depth: nat,
    ) -> MaybeFound
        decreases depth, 3nat, TargetView::Null,
    {
        let probed = first_existing(self.fs, declaration_candidates(path, kind));
        let css: MaybeFound = if has_suffix(ascii_lowered(path), ".css"@) {
            Ok(Some(LocatedView::Path(path)))
        } else {
            Ok(None)
        };
        if is_declaration_path(path) {
            Ok(Some(LocatedView::Path(path)))
        } else if probed is Some {
            Ok(path_found(probed))
        } else if self.fs.dir_at(path) {
            if depth == 0 {
                Err(full_error(ErrorKind::TooDeep, path, None, referrer))
            } else {
                match self.dir_subpath_of(
                    path,
                    "."@,
                    referrer,
                    kind,
                    conditions_for(kind),
                    NodeResolutionMode::Types,
                    (depth - 1) as nat,
                ) {
                    Err(e) => Err(e),
                    Ok(Some(l)) => Ok(Some(l)),
                    Ok(None) => {
                        let index = first_existing(
                            self.fs,
                            declaration_candidates(path_joined(path, "index.js"@), kind),
                        );
                        if index is Some {
                            Ok(path_found(index))
                        } else {
                            css
                        }
                    },
                }
            }
        } else {
            css
        }
    }

    /// What the `main` entry of a manifest, or failing that an index file, leads to.
    pub open spec fn legacy_main_of(
        &self,
        pkg: PackageJsonView,
        referrer: Option<Seq<char>>,
        kind: NodeModuleKind,
        mode: NodeResolutionMode,
        depth: nat,
    ) -> MaybeFound
        decreases depth, 4nat, TargetView::Null,
    {
        match parent_of(pkg.path) {
            None => Err(full_error(ErrorKind::NotAFilePath, pkg.path, Some(pkg.path), referrer)),
            Some(dir) => {
                let from_main: MaybeFound = if mode == NodeResolutionMode::Types && pkg.types
                    is None {
                    match main_entry(pkg, kind) {
                        Some(m) => self.declaration_of(
                            cleaned(path_joined(dir, m)),
                            referrer,
                            kind,
                            depth,
                        ),
                        None => Ok(None),
                    }
                } else {
                    Ok(None)
                };
                let named: Option<Seq<char>> = if mode == NodeResolutionMode::Types {
                    pkg.types
                } else {
                    main_entry(pkg, kind)
                };
                let guessed: Option<Seq<char>> = match named {
                    Some(m) => first_file(self.fs, main_candidates(dir, m, kind, mode)),
                    None => None,
                };
                match from_main {
                    Err(e) => Err(e),
                    Ok(Some(l)) => Ok(Some(l)),
                    Ok(None) => if guessed is Some {
                        Ok(path_found(guessed))
                    } else {
                        Ok(path_found(first_file(self.fs, index_candidates(dir, kind, mode))))
                    },
                }
            },
        }
    }

    /// What a subpath leads to in a directory whose manifest, if any, says nothing of it.
    pub open spec fn exact_subpath_of(
        &self,
        dir: Seq<char>,
        subpath: Seq<char>,
        referrer: Option<Seq<char>>,
        kind: NodeModuleKind,
        mode: NodeResolutionMode,
        depth: nat,
    ) -> MaybeFound
        decreases depth, 4nat, TargetView::Null,
    {
        let file_path = path_joined(dir, subpath);
        if mode == NodeResolutionMode::Types {
            self.declaration_of(file_path, referrer, kind, depth)
        } else {
            Ok(Some(LocatedView::Path(file_path)))
        }
    }

    /// What a target that is a string leads to. A target is refused as
    /// invalid where it does not begin with `./` (but for the targets of an
    /// `imports` map that name a package or a built-in module), where the
    /// target or the subpath holds a `.`, `..` or `node_modules` segment, and
    /// where the target leads out of the directory of the manifest.
    pub open spec fn target_text_of(
        &self,
        target: Seq<char>,
        subpath: Seq<char>,
        manifest_path: Seq<char>,
        referrer: Option<Seq<char>>,
        kind: NodeModuleKind,
        pattern: bool,
        internal: bool,
        conditions: Seq<Seq<char>>,
        mode: NodeResolutionMode,
        depth: nat,
    ) -> Found
        decreases depth, 5nat, TargetView::Null,
    {
        let invalid: Found = Err(
            full_error(ErrorKind::InvalidPackageTarget, target, Some(manifest_path), referrer),
        );
        if subpath.len() > 0 && !pattern && !has_suffix(target, "/"@) {
            invalid
        } else if !has_prefix(target, "./"@) {
            if internal && !has_prefix(target, "../"@) && !has_prefix(target, "/"@) {
                match url_normal_form(target) {
                    Some(u) => if builtin_of_url(
                        u,
                        crate::errors::opt_or_empty(url_scheme_of(target)),
                    ) is Some {
                        Ok(LocatedView::Url(u))
                    } else {
                        invalid
                    },
                    None => {
                        let export_target = if pattern {
                            replaced_first(target, '*', subpath)
                        } else {
                            target + subpath
                        };
                        match file_url_of(manifest_path) {
                            None => Err(
                                full_error(
                                    ErrorKind::NotAFilePath,
                                    manifest_path,
                                    Some(manifest_path),
                                    referrer,
                                ),
                            ),
                            Some(manifest_url) => if depth == 0 {
                                Err(
                                    full_error(
                                        ErrorKind::TooDeep,
                                        export_target,
                                        Some(manifest_path),
                                        referrer,
                                    ),
                                )
                            } else {
                                let inner = self.package_of(
                                    export_target,
                                    manifest_url,
                                    kind,
                                    conditions,
                                    mode,
                                    (depth - 1) as nat,
                                );
                                match inner {
                                    Ok(Some(l)) => Ok(l),
                                    Ok(None) => if is_builtin_name(target) {
                                        Ok(LocatedView::Url("node:"@ + target))
                                    } else {
                                        Err(
                                            full_error(
                                                ErrorKind::PackageTargetNotFound,
                                                export_target,
                                                Some(manifest_path),
                                                referrer,
                                            ),
                                        )
                                    },
                                    Err(e) => if is_builtin_name(target) {
                                        Ok(LocatedView::Url("node:"@ + target))
                                    } else {
                                        Err(e)
                                    },
                                }
                            },
                        }
                    },
                }
            } else {
                invalid
            }
        } else if has_invalid_segment(target.skip(2)) {
            invalid
        } else {
            match parent_of(manifest_path) {
                None => invalid,
                Some(package_path) => {
                    let resolved_path = cleaned(path_joined(package_path, target));
                    if !path_within(resolved_path, package_path) {
                        invalid
                    } else if subpath.len() == 0 {
                        Ok(LocatedView::Path(resolved_path))
                    } else if has_invalid_segment(subpath) {
                        invalid
                    } else if pattern {
                        Ok(LocatedView::Path(replaced_first(resolved_path, '*', subpath)))
                    } else {
                        Ok(LocatedView::Path(cleaned(path_joined(resolved_path, subpath))))
                    }
                },
            }
        }
    }

    /// What a target leads to: a string by `target_text_of`; an array by the
    /// first of its items that leads anywhere; an object by the first of
    /// its keys that applies; `null` nowhere.
    pub open spec fn target_of(
        &self,
        target: TargetView,
        subpath: Seq<char>,
        matched: Seq<char>,
        manifest_path: Seq<char>,
        referrer: Option<Seq<char>>,
        kind: NodeModuleKind,
        pattern: bool,
        internal: bool,
        conditions: Seq<Seq<char>>,
        mode: NodeResolutionMode,
        depth: nat,
    ) -> MaybeFound
        decreases depth, 6nat, target,
    {
        match target {
            TargetView::Text(text) => match self.target_text_of(
                text,
                subpath,
                manifest_path,
                referrer,
                kind,
                pattern,
                internal,
                conditions,
                mode,
                depth,
            ) {
                Err(e) => Err(e),
                Ok(LocatedView::Path(p)) => if mode == NodeResolutionMode::Types {
                    self.declaration_of(p, referrer, kind, depth)
                } else {
                    Ok(Some(LocatedView::Path(p)))
                },
                Ok(l) => Ok(Some(l)),
            },
            TargetView::List(items) => self.list_of(
                items,
                0,
                subpath,
                matched,
                manifest_path,
                referrer,
                kind,
                pattern,
                internal,
                conditions,
                mode,
                depth,
            ),
            TargetView::Table(entries) => self.table_of(
                entries,
                0,
                subpath,
                matched,
                manifest_path,
                referrer,
                kind,
                pattern,
                internal,
                conditions,
                mode,
                depth,
            ),
            TargetView::Null => Ok(None),
            TargetView::Other => Err(
                full_error(ErrorKind::InvalidPackageTarget, matched, Some(manifest_path), referrer),
            ),
        }
    }

    /// What the items of an array from position `i` on lead to: the first
    /// location that one of them gives. An item that gives nothing, or that
    /// is refused as an invalid target, is passed over; any other failure ends the search.
    pub open spec fn list_of(
        &self,
        items: Seq<TargetView>,
        i: int,
        subpath: Seq<char>,
        matched: Seq<char>,
        manifest_path: Seq<char>,
        referrer: Option<Seq<char>>,
        kind: NodeModuleKind,
        pattern: bool,
        internal: bool,
        conditions: Seq<Seq<char>>,
        mode: NodeResolutionMode,
        depth: nat,
    ) -> MaybeFound
        decreases depth, 6nat, items, items.len() - i,
    {
        if 0 <= i < items.len() {
            match self.target_of(
                items[i],
                subpath,
                matched,
                manifest_path,
                referrer,
                kind,
                pattern,
                internal,
                conditions,
                mode,
                depth,
            ) {
                Ok(Some(l)) => Ok(Some(l)),
                Ok(None) => self.list_of(
                    items,
                    i + 1,
                    subpath,
                    matched,
                    manifest_path,
                    referrer,
                    kind,
                    pattern,
                    internal,
                    conditions,
                    mode,
                    depth,
                ),
                Err(e) => if e.kind == ErrorKind::InvalidPackageTarget {
                    self.list_of(
                        items,
                        i + 1,
                        subpath,
                        matched,
                        manifest_path,
                        referrer,
                        kind,
                        pattern,
                        internal,
                        conditions,
                        mode,
                        depth,
                    )
                } else {
                    Err(e)
                },
            }
        } else {
            Ok(None)
        }
    }

    /// What the entries of an object from position `i` on lead to: what the
    /// value of the first key that applies leads to, be it a location or
    /// nothing. An object none of whose keys applies is an invalid target.
    pub open spec fn table_of(
        &self,
        entries: Seq<(Seq<char>, TargetView)>,
        i: int,
        subpath: Seq<char>,
        matched: Seq<char>,
        manifest_path: Seq<char>,
        referrer: Option<Seq<char>>,
        kind: NodeModuleKind,
        pattern: bool,
        internal: bool,
        conditions: Seq<Seq<char>>,
        mode: NodeResolutionMode,
        depth: nat,
    ) -> MaybeFound
        decreases depth, 6nat, entries, entries.len() - i,
    {
        if 0 <= i < entries.len() {
            if condition_applies(entries[i].0, conditions, mode) {
                self.target_of(
                    entries[i].1,
                    subpath,
                    matched,
                    manifest_path,
                    referrer,
                    kind,
                    pattern,
                    internal,
                    conditions,
                    mode,
                    depth,
                )
            } else {
                self.table_of(
                    entries,
                    i + 1,
                    subpath,
                    matched,
                    manifest_path,
                    referrer,
                    kind,
                    pattern,
                    internal,
                    conditions,
                    mode,
                    depth,
                )
            }
        } else {
            Err(full_error(ErrorKind::InvalidPackageTarget, matched, Some(manifest_path), referrer))
        }
    }

    /// What a subpath leads to by an `exports` map: by the entry whose key
    /// is the subpath, else by the best of the keys with a wildcard that
    /// match it.
    pub open spec fn exports_of(
        &self,
        manifest_path: Seq<char>,
        subpath: Seq<char>,
        exports: Seq<(Seq<char>, TargetView)>,
        referrer: Option<Seq<char>>,
        kind: NodeModuleKind,
        conditions: Seq<Seq<char>>,
        mode: NodeResolutionMode,
        depth: nat,
    ) -> Found
        decreases depth, 8nat, TargetView::Null,
    {
        let not_exported: Found = Err(
            full_error(ErrorKind::PackagePathNotExported, subpath, Some(manifest_path), referrer),
        );
        let exact = entry_index(exports, subpath);
        let best = best_match(exports, subpath);
        if exact is Some && !subpath.contains('*') && !has_suffix(subpath, "/"@) {
            match self.target_of(
                exports[exact->0].1,
                Seq::empty(),
                subpath,
                manifest_path,
                referrer,
                kind,
                false,
                false,
                conditions,
                mode,
                depth,
            ) {
                Err(e) => Err(e),
                Ok(Some(l)) => Ok(l),
                Ok(None) => not_exported,
            }
        } else if best is Some {
            match self.target_of(
                exports[best->0].1,
                matched_part(exports[best->0].0, subpath),
                exports[best->0].0,
                manifest_path,
                referrer,
                kind,
                true,
                false,
                conditions,
                mode,
                depth,
            ) {
                Err(e) => Err(e),
                Ok(Some(l)) => Ok(l),
                Ok(None) => not_exported,
            }
        } else {
            not_exported
        }
    }

    /// Whether a name may not be looked up in an `imports` map at all.
    pub open spec fn is_invalid_import_name(name: Seq<char>) -> bool {
        name == "#"@ || has_prefix(name, "#/"@) || has_suffix(name, "/"@)
    }

    /// What a `#` name leads to by the `imports` map of the referrer's package.
    pub open spec fn imports_of(
        &self,
        name: Seq<char>,
        referrer: Option<Seq<char>>,
        kind: NodeModuleKind,
        pkg: Option<PackageJsonView>,
        conditions: Seq<Seq<char>>,
        mode: NodeResolutionMode,
        depth: nat,
    ) -> Found
        decreases depth, 9nat, TargetView::Null,
    {
        let manifest_path: Option<Seq<char>> = match pkg {
            Some(p) => Some(p.path),
            None => None,
        };
        let not_defined: Found = Err(
            full_error(ErrorKind::PackageImportNotDefined, name, manifest_path, referrer),
        );
        if Self::is_invalid_import_name(name) {
            Err(full_error(ErrorKind::InvalidModuleSpecifier, name, None, referrer))
        } else if pkg is Some && pkg->0.imports is Some {
            let imports = pkg->0.imports->0;
            let exact = entry_index(imports, name);
            let best = best_match(imports, name);
            if exact is Some && !name.contains('*') {
                match self.target_of(
                    imports[exact->0].1,
                    Seq::empty(),
                    name,
                    pkg->0.path,
                    referrer,
                    kind,
                    false,
                    true,
                    conditions,
                    mode,
                    depth,
                ) {
                    Err(e) => Err(e),
                    Ok(Some(l)) => Ok(l),
                    Ok(None) => not_defined,
                }
            } else if best is Some {
                match self.target_of(
                    imports[best->0].1,
                    matched_part(imports[best->0].0, name),
                    imports[best->0].0,
                    pkg->0.path,
                    referrer,
                    kind,
                    true,
                    true,
                    conditions,
                    mode,
                    depth,
                ) {
                    Err(e) => Err(e),
                    Ok(Some(l)) => Ok(l),
                    Ok(None) => not_defined,
                }
            } else {
                not_defined
            }
        } else {
            not_defined
        }
    }

    /// What a subpath leads to in the package that a manifest describes.
    pub open spec fn package_subpath_of(
        &self,
        pkg: PackageJsonView,
        subpath: Seq<char>,
        referrer: Option<Seq<char>>,
        kind: NodeModuleKind,
        conditions: Seq<Seq<char>>,
        mode: NodeResolutionMode,
        depth: nat,
    ) -> MaybeFound
        decreases depth, 9nat, TargetView::Null,
    {
        if pkg.exports is Some {
            match self.exports_of(
                pkg.path,
                subpath,
                pkg.exports->0,
                referrer,
                kind,
                conditions,
                mode,
                depth,
            ) {
                Ok(l) => Ok(Some(l)),
                Err(e) => if mode == NodeResolutionMode::Types && subpath == "."@ {
                    self.legacy_main_of(pkg, referrer, kind, mode, depth)
                } else {
                    Err(e)
                },
            }
        } else if subpath == "."@ {
            self.legacy_main_of(pkg, referrer, kind, mode, depth)
        } else {
            match parent_of(pkg.path) {
                Some(dir) => self.exact_subpath_of(dir, subpath, referrer, kind, mode, depth),
                None => Err(
                    full_error(ErrorKind::NotAFilePath, pkg.path, Some(pkg.path), referrer),
                ),
            }
        }
    }

    /// What a subpath leads to in a directory without a manifest.
    pub open spec fn no_manifest_subpath_of(
        &self,
        dir: Seq<char>,
        subpath: Seq<char>,
        referrer: Option<Seq<char>>,
        kind: NodeModuleKind,
        mode: NodeResolutionMode,
        depth: nat,
    ) -> MaybeFound
        decreases depth, 9nat, TargetView::Null,
    {
        if subpath == "."@ {
            Ok(path_found(first_file(self.fs, index_candidates(dir, kind, mode))))
        } else {
            self.exact_subpath_of(dir, subpath, referrer, kind, mode, depth)
        }
    }

    /// What a subpath leads to in the package directory `dir`.
    pub open spec fn dir_subpath_of(
        &self,
        dir: Seq<char>,
        subpath: Seq<char>,
        referrer: Option<Seq<char>>,
        kind: NodeModuleKind,
        conditions: Seq<Seq<char>>,
        mode: NodeResolutionMode,
        depth: nat,
    ) -> MaybeFound
        decreases depth, 10nat, TargetView::Null,
    {
        let manifest_path = path_joined(dir, "package.json"@);
        match self.fs.manifest_at(manifest_path) {
            Err(_) => Err(full_error(ErrorKind::PackageJsonLoad, manifest_path, None, referrer)),
            Ok(Some(pkg)) => self.package_subpath_of(
                pkg,
                subpath,
                referrer,
                kind,
                conditions,
                mode,
                depth,
            ),
            Ok(None) => self.no_manifest_subpath_of(dir, subpath, referrer, kind, mode, depth),
        }
    }

    /// What a subpath leads to in the package that the locator finds under `name`.
    pub open spec fn located_package_subpath_of(
        &self,
        name: Seq<char>,
        subpath: Seq<char>,
        referrer: Seq<char>,
        kind: NodeModuleKind,
        conditions: Seq<Seq<char>>,
        mode: NodeResolutionMode,
        depth: nat,
    ) -> MaybeFound
        decreases depth, 11nat, TargetView::Null,
    {
        match self.npm_resolver.package_folder(name, referrer) {
            Err(e) => Err(e),
            Ok(dir) => self.dir_subpath_of(
                dir,
                subpath,
                Some(referrer),
                kind,
                conditions,
                mode,
                depth,
            ),
        }
    }

    /// What a subpath of the package `name` leads to. When types are looked
    /// for and the package itself gives no location, the package of its
    /// type declarations is asked; where that gives none either, the first answer stands.
    pub open spec fn subpath_for_package_of(
        &self,
        name: Seq<char>,
        subpath: Seq<char>,
        referrer: Seq<char>,
        kind: NodeModuleKind,
        conditions: Seq<Seq<char>>,
        mode: NodeResolutionMode,
        depth: nat,
    ) -> MaybeFound
        decreases depth, 12nat, TargetView::Null,
    {
        let first = self.located_package_subpath_of(
            name,
            subpath,
            referrer,
            kind,
            conditions,
            mode,
            depth,
        );
        if mode == NodeResolutionMode::Types && !(first matches Ok(Some(_))) {
            let second = self.located_package_subpath_of(
                types_name(name),
                subpath,
                referrer,
                kind,
                conditions,
                mode,
                depth,
            );
            if second matches Ok(Some(_)) {
                second
            } else {
                first
            }
        } else {
            first
        }
    }

    /// What a bare specifier leads to. A package that names itself is
    /// resolved by its own `exports`; any other through the locator.
    pub open spec fn package_of(
        &self,
        specifier: Seq<char>,
        referrer: Seq<char>,
        kind: NodeModuleKind,
        conditions: Seq<Seq<char>>,
        mode: NodeResolutionMode,
        depth: nat,
    ) -> MaybeFound
        decreases depth, 13nat, TargetView::Null,
    {
        match parsed_package_name(specifier, referrer) {
            Err(e) => Err(e),
            Ok(parts) => match closest_manifest(self.fs, url_file_path(referrer)) {
                Err(e) => Err(e),
                Ok(None) => Ok(None),
                Ok(Some(pkg)) => if pkg.name == Some(parts.0) && pkg.exports is Some {
                    some_found(
                        self.exports_of(
                            pkg.path,
                            parts.1,
                            pkg.exports->0,
                            Some(referrer),
                            kind,
                            conditions,
                            mode,
                            depth,
                        ),
                    )
                } else {
                    self.subpath_for_package_of(
                        parts.0,
                        parts.1,
                        referrer,
                        kind,
                        conditions,
                        mode,
                        depth,
                    )
                },
            },
        }
    }

    /// What kind of module lies at a URL whose file path, if it has one, is `file_path`.
    pub open spec fn node_resolution_of(&self, url: Seq<char>, file_path: Option<Seq<char>>)
        -> Result<NodeResolutionView, ErrorView> {
        let lower = ascii_lowered(url);
        if has_prefix(lower, "http"@) || has_suffix(lower, ".json"@) {
            Ok(NodeResolutionView::Esm(url))
        } else if has_suffix(lower, ".js"@) || has_suffix(lower, ".d.ts"@) {
            match closest_manifest(self.fs, file_path) {
                Err(e) => Err(e),
                Ok(Some(pkg)) => if pkg.typ == "module"@ {
                    Ok(NodeResolutionView::Esm(url))
                } else {
                    Ok(NodeResolutionView::CommonJs(url))
                },
                Ok(None) => Ok(NodeResolutionView::Esm(url)),
            }
        } else if has_suffix(lower, ".mjs"@) || has_suffix(lower, ".d.mts"@) {
            Ok(NodeResolutionView::Esm(url))
        } else if has_suffix(lower, ".ts"@) || has_suffix(lower, ".mts"@) {
            if self.npm_resolver.inside_npm_package(url) {
                Err(full_error(ErrorKind::TypeScriptNotSupportedInNpm, url, None, None))
            } else {
                Ok(NodeResolutionView::Esm(url))
            }
        } else {
            Ok(NodeResolutionView::CommonJs(url))
        }
    }

    /// What kind of module lies at a location.
    pub open spec fn located_resolution_of(&self, located: LocatedView) -> Result<
        NodeResolutionView,
        ErrorView,
    > {
        match located {
            LocatedView::Url(u) => self.node_resolution_of(u, url_file_path(u)),
            LocatedView::Path(p) => match file_url_of(p) {
                Some(u) => self.node_resolution_of(u, Some(p)),
                None => Err(full_error(ErrorKind::NotAFilePath, p, None, None)),
            },
        }
    }

    /// Where a specifier leads from a referrer, before the kind of module is
    /// told. When types are looked for, the location found is turned into
    /// that of its declaration file; a location that has none, or that is no
    /// local file at all, is no resolution and no failure.
    pub open spec fn module_of(
        &self,
        specifier: Seq<char>,
        referrer: Seq<char>,
        kind: NodeModuleKind,
        conditions: Seq<Seq<char>>,
        mode: NodeResolutionMode,
    ) -> MaybeFound {
        let first: MaybeFound = if path_like_specifier(specifier) {
            match url_joined(referrer, specifier) {
                Some(u) => Ok(Some(LocatedView::Url(u))),
                None => Err(full_error(ErrorKind::RelativeJoin, specifier, None, Some(referrer))),
            }
        } else if has_prefix(specifier, "#"@) {
            match closest_manifest(self.fs, url_file_path(referrer)) {
                Err(e) => Err(e),
                Ok(pkg) => some_found(
                    self.imports_of(
                        specifier,
                        Some(referrer),
                        kind,
                        pkg,
                        conditions,
                        mode,
                        MAX_DEPTH as nat,
                    ),
                ),
            }
        } else {
            match url_normal_form(specifier) {
                Some(u) => Ok(Some(LocatedView::Url(u))),
                None => self.package_of(
                    specifier,
                    referrer,
                    kind,
                    conditions,
                    mode,
                    MAX_DEPTH as nat,
                ),
            }
        };
        match first {
            Err(e) => Err(e),
            Ok(None) => Ok(None),
            Ok(Some(l)) => {
                let typed: MaybeFound = if mode == NodeResolutionMode::Types {
                    match file_path_of(l) {
                        Some(fp) => self.declaration_of(
                            fp,
                            Some(referrer),
                            kind,
                            MAX_DEPTH as nat,
                        ),
                        None => Ok(None),
                    }
                } else {
                    Ok(Some(l))
                };
                match typed {
                    Err(e) => Err(e),
                    Ok(None) => Ok(None),
                    Ok(Some(t)) => some_found(finalized(self.fs, t, Some(referrer))),
                }
            },
        }
    }

    /// What a specifier that is not a built-in module's name, and is no
    /// URL that settles the matter by itself, resolves to.
    pub open spec fn resolved_module_of(
        &self,
        specifier: Seq<char>,
        referrer: Seq<char>,
        kind: NodeModuleKind,
        mode: NodeResolutionMode,
    ) -> Resolved {
        match self.module_of(specifier, referrer, kind, conditions_for(kind), mode) {
            Err(e) => Err(e),
            Ok(None) => Ok(None),
            Ok(Some(l)) => match self.located_resolution_of(l) {
                Ok(r) => Ok(Some(r)),
                Err(e) => Err(e),
            },
        }
    }

    /// What a subpath of the package in the directory `dir` resolves to for an ES module.
    pub open spec fn package_dir_resolution_of(
        &self,
        dir: Seq<char>,
        sub: Option<Seq<char>>,
        referrer: Option<Seq<char>>,
        mode: NodeResolutionMode,
    ) -> Resolved {
        match self.dir_subpath_of(
            dir,
            subpath_of_option(sub),
            referrer,
            NodeModuleKind::Esm,
            conditions_for(NodeModuleKind::Esm),
            mode,
            MAX_DEPTH as nat,
        ) {
            Err(e) => Err(e),
            Ok(None) => Ok(None),
            Ok(Some(l)) => match self.located_resolution_of(l) {
                Ok(r) => Ok(Some(r)),
                Err(e) => Err(e),
            },
        }
    }

    /// What joining the specifier onto a `data:` referrer gives.
    pub open spec fn joined_onto_data(specifier: Seq<char>, referrer: Seq<char>) -> Resolved {
        match url_joined(referrer, specifier) {
            Some(u) => Ok(Some(NodeResolutionView::Esm(u))),
            None => Err(
                full_error(ErrorKind::DataUrlReferrerFailed, specifier, None, Some(referrer)),
            ),
        }
    }

    /// What a specifier resolves to from a referrer.
    pub open spec fn resolution_of(
        &self,
        specifier: Seq<char>,
        referrer: Seq<char>,
        kind: NodeModuleKind,
        mode: NodeResolutionMode,
    ) -> Resolved {
        if is_builtin_name(specifier) {
            Ok(Some(NodeResolutionView::BuiltIn(specifier)))
        } else {
            match url_normal_form(specifier) {
                Some(u) => {
                    let scheme = crate::errors::opt_or_empty(url_scheme_of(specifier));
                    let from_data = url_scheme_of(referrer) == Some("data"@);
                    if scheme == "data"@ {
                        if from_data {
                            Self::joined_onto_data(specifier, referrer)
                        } else {
                            Ok(Some(NodeResolutionView::Esm(u)))
                        }
                    } else if builtin_of_url(u, scheme) is Some {
                        Ok(Some(NodeResolutionView::BuiltIn(builtin_of_url(u, scheme)->0)))
                    } else if scheme != "file"@ {
                        Err(
                            full_error(
                                ErrorKind::UnsupportedEsmUrlScheme,
                                scheme,
                                None,
                                Some(referrer),
                            ),
                        )
                    } else if from_data {
                        Self::joined_onto_data(specifier, referrer)
                    } else {
                        self.resolved_module_of(specifier, referrer, kind, mode)
                    }
                },
                None => self.resolved_module_of(specifier, referrer, kind, mode),
            }
        }
    }
}

} // verus!
