//! The resolver: from a specifier and a referrer to a file or a built-in module.

use vstd::prelude::*;
use crate::builtin::{builtin_module_of_url, is_builtin_chars};
use crate::env::{FileSystem, NpmResolver};
use crate::errors::{opt_slice, ErrorKind, NodeResolveError};
use crate::matching::{contains_invalid_segment, find_best_match};
use crate::model::{
    entries_view, find_entry, items_view, Located, NodeModuleKind, NodeResolutionMode, PackageJson,
    Target, TargetView,
};
use crate::path::{clean, is_within, parent, path_join};
use crate::probing::{
    applies, declaration_candidate_list, index_candidate_list, is_declaration, main_candidate_list,
};
use crate::semantics::{
    closest_from, closest_manifest, found_view, loaded_manifest, manifest_view, maybe_found_view,
    opt_located, opt_manifest, path_found, NodeResolver,
};
use crate::specifier::{parse_package_name_chars, types_package_name_chars};
use crate::text::{
    chars_of, ends_with, has_char, joined, lowered, replace_first, same_chars,
    starts_with, str_is, string_of, tail_from,
};
use crate::urls::{file_path_to_url, url_parse, url_scheme, url_to_file_path};

verus! {

impl<'a, F: FileSystem, N: NpmResolver> NodeResolver<'a, F, N> {
    /// A resolver over the given file system and package locator.
    pub fn new(fs: &'a F, npm_resolver: &'a N) -> (r: Self)
        ensures
            r.fs == fs,
            r.npm_resolver == npm_resolver,
    {
        NodeResolver { fs, npm_resolver }
    }

    /// Loads the manifest at `path`.
    pub fn load_package_json(&self, path: &[char], referrer: Option<&[char]>) -> (r: Result<
        Option<PackageJson>,
        NodeResolveError,
    >)
        ensures
            manifest_view(r) == loaded_manifest(self.fs, path@, opt_slice(referrer)),
    {
        let p = string_of(path);
        match self.fs.load_package_json(p.as_str()) {
            Ok(found) => Ok(found),
            Err(_) => Err(NodeResolveError::new(ErrorKind::PackageJsonLoad, path, None, referrer)),
        }
    }

    /// The manifest nearest to the directory `dir`.
    pub fn closest_package_json_from(&self, dir: &[char]) -> (r: Result<
        Option<PackageJson>,
        NodeResolveError,
    >)
        ensures
            manifest_view(r) == closest_from(self.fs, dir@),
    {
        let mut current: Vec<char> = crate::path::copy_chars(dir);
        loop
            invariant
                closest_from(self.fs, current@) == closest_from(self.fs, dir@),
            decreases current@.len(),
        {
            let name = chars_of("package.json");
            let manifest_path = path_join(current.as_slice(), name.as_slice());
            match self.load_package_json(manifest_path.as_slice(), None) {
                Err(e) => {
                    return Err(e);
                },
                Ok(Some(pkg)) => {
                    return Ok(Some(pkg));
                },
                Ok(None) => {
                    let up = parent(current.as_slice());
                    match up {
                        Some(up) => {
                            if up.len() < current.len() {
                                current = up;
                            } else {
                                return Ok(None);
                            }
                        },
                        None => {
                            return Ok(None);
                        },
                    }
                },
            }
        }
    }

    /// The manifest nearest to the file at `file_path`.
    pub fn closest_package_json(&self, file_path: Option<&[char]>) -> (r: Result<
        Option<PackageJson>,
        NodeResolveError,
    >)
        ensures
            manifest_view(r) == closest_manifest(self.fs, opt_slice(file_path)),
    {
        match file_path {
            Some(fp) => {
                let dir = parent(fp);
                match dir {
                    Some(dir) => {
                        let d = string_of(dir.as_slice());
                        match self.fs.realpath(d.as_str()) {
                            Some(canonical) => {
                                let c = chars_of(canonical.as_str());
                                self.closest_package_json_from(c.as_slice())
                            },
                            None => Err(
                                NodeResolveError::new(
                                    ErrorKind::CanonicalizingDir,
                                    dir.as_slice(),
                                    None,
                                    None,
                                ),
                            ),
                        }
                    },
                    None => Ok(None),
                }
            },
            None => Ok(None),
        }
    }

    /// The index file of a directory.
    pub fn legacy_index_resolve(
        &self,
        dir: &[char],
        kind: NodeModuleKind,
        mode: NodeResolutionMode,
    ) -> (r: Option<Located>)
        ensures
            opt_located(r) == path_found(
                crate::semantics::first_file(
                    self.fs,
                    crate::semantics::index_candidates(dir@, kind, mode),
                ),
            ),
    {
        let candidates = index_candidate_list(dir, kind, mode);
        match self.find_file(&candidates) {
            Some(p) => Some(Located::path(p.as_slice())),
            None => None,
        }
    }

    /// The declaration file that stands for the file or directory at `path`.
    pub fn path_to_declaration_url(
        &self,
        path: &[char],
        referrer: Option<&[char]>,
        kind: NodeModuleKind,
        depth: usize,
    ) -> (r: Result<Option<Located>, NodeResolveError>)
        ensures
            maybe_found_view(r) == self.declaration_of(path@, opt_slice(referrer), kind, depth as nat),
        decreases depth, 3nat, TargetView::Null,
    {
        if is_declaration(path) {
            return Ok(Some(Located::path(path)));
        }
        let candidates = declaration_candidate_list(path, kind);
        match self.find_existing(&candidates) {
            Some(p) => {
                return Ok(Some(Located::path(p.as_slice())));
            },
            None => {},
        }
        let path_string = string_of(path);
        if self.fs.is_dir(path_string.as_str()) {
            if depth == 0 {
                return Err(NodeResolveError::new(ErrorKind::TooDeep, path, None, referrer));
            }
            let conditions = crate::probing::conditions_of(kind);
            let dot = chars_of(".");
            let below = self.resolve_package_dir_subpath(
                path,
                dot.as_slice(),
                referrer,
                kind,
                &conditions,
                NodeResolutionMode::Types,
                depth - 1,
            );
            match below {
                Err(e) => {
                    return Err(e);
                },
                Ok(Some(l)) => {
                    return Ok(Some(l));
                },
                Ok(None) => {},
            }
            let index_name = chars_of("index.js");
            let index_path = path_join(path, index_name.as_slice());
            let index_candidates = declaration_candidate_list(index_path.as_slice(), kind);
            match self.find_existing(&index_candidates) {
                Some(p) => {
                    return Ok(Some(Located::path(p.as_slice())));
                },
                None => {},
            }
        }
        let lower = lowered(path);
        let css = chars_of(".css");
        if ends_with(lower.as_slice(), css.as_slice()) {
            Ok(Some(Located::path(path)))
        } else {
            Ok(None)
        }
    }

    /// What the `main` entry of a manifest, or failing that an index file, leads to.
    pub fn legacy_main_resolve(
        &self,
        pkg: &PackageJson,
        referrer: Option<&[char]>,
        kind: NodeModuleKind,
        mode: NodeResolutionMode,
        depth: usize,
    ) -> (r: Result<Option<Located>, NodeResolveError>)
        ensures
            maybe_found_view(r) == self.legacy_main_of(
                pkg@,
                opt_slice(referrer),
                kind,
                mode,
                depth as nat,
            ),
        decreases depth, 4nat, TargetView::Null,
    {
        let manifest_path = chars_of(pkg.path.as_str());
        let dir = match parent(manifest_path.as_slice()) {
            Some(d) => d,
            None => {
                return Err(
                    NodeResolveError::new(
                        ErrorKind::NotAFilePath,
                        manifest_path.as_slice(),
                        Some(manifest_path.as_slice()),
                        referrer,
                    ),
                );
            },
        };
        let named: Option<Vec<char>> = if mode.is_types() {
            match &pkg.types {
                Some(t) => Some(chars_of(t.as_str())),
                None => {
                    match pkg.main(kind) {
                        Some(m) => {
                            let joined_path = path_join(dir.as_slice(), m.as_slice());
                            let main_path = clean(joined_path.as_slice());
                            match self.path_to_declaration_url(
                                main_path.as_slice(),
                                referrer,
                                kind,
                                depth,
                            ) {
                                Err(e) => {
                                    return Err(e);
                                },
                                Ok(Some(l)) => {
                                    return Ok(Some(l));
                                },
                                Ok(None) => {},
                            }
                        },
                        None => {},
                    }
                    None
                },
            }
        } else {
            pkg.main(kind)
        };
        match named {
            Some(main) => {
                let candidates = main_candidate_list(dir.as_slice(), main.as_slice(), kind, mode);
                match self.find_file(&candidates) {
                    Some(p) => {
                        return Ok(Some(Located::path(p.as_slice())));
                    },
                    None => {},
                }
            },
            None => {},
        }
        Ok(self.legacy_index_resolve(dir.as_slice(), kind, mode))
    }

    /// What a subpath leads to in a directory whose manifest, if any, says nothing of it.
    pub fn resolve_subpath_exact(
        &self,
        dir: &[char],
        subpath: &[char],
        referrer: Option<&[char]>,
        kind: NodeModuleKind,
        mode: NodeResolutionMode,
        depth: usize,
    ) -> (r: Result<Option<Located>, NodeResolveError>)
        ensures
            maybe_found_view(r) == self.exact_subpath_of(
                dir@,
                subpath@,
                opt_slice(referrer),
                kind,
                mode,
                depth as nat,
            ),
        decreases depth, 4nat, TargetView::Null,
    {
        let file_path = path_join(dir, subpath);
        if mode.is_types() {
            self.path_to_declaration_url(file_path.as_slice(), referrer, kind, depth)
        } else {
            Ok(Some(Located::path(file_path.as_slice())))
        }
    }

    /// What a target that is a string leads to.
    pub fn resolve_package_target_string(
        &self,
        target: &[char],
        subpath: &[char],
        manifest_path: &[char],
        referrer: Option<&[char]>,
        kind: NodeModuleKind,
        pattern: bool,
        internal: bool,
        conditions: &Vec<Vec<char>>,
        mode: NodeResolutionMode,
        depth: usize,
    ) -> (r: Result<Located, NodeResolveError>)
        ensures
            found_view(r) == self.target_text_of(
                target@,
                subpath@,
                manifest_path@,
                opt_slice(referrer),
                kind,
                pattern,
                internal,
                crate::path::texts(conditions@),
                mode,
                depth as nat,
            ),
        decreases depth, 5nat, TargetView::Null,
    {
        let slash = chars_of("/");
        let dot_slash = chars_of("./");
        let up_slash = chars_of("../");
        if subpath.len() > 0 && !pattern && !ends_with(target, slash.as_slice()) {
            return Err(
                NodeResolveError::new(
                    ErrorKind::InvalidPackageTarget,
                    target,
                    Some(manifest_path),
                    referrer,
                ),
            );
        }
        if !starts_with(target, dot_slash.as_slice()) {
            if internal && !starts_with(target, up_slash.as_slice()) && !starts_with(
                target,
                slash.as_slice(),
            ) {
                let target_string = string_of(target);
                match url_parse(target_string.as_str()) {
                    Some(u) => {
                        let scheme: Vec<char> = match url_scheme(target_string.as_str()) {
                            Some(s) => chars_of(s.as_str()),
                            None => Vec::new(),
                        };
                        let url_chars = chars_of(u.as_str());
                        match builtin_module_of_url(url_chars.as_slice(), scheme.as_slice()) {
                            Some(_) => {
                                return Ok(Located::Url(u));
                            },
                            None => {},
                        }
                    },
                    None => {
                        let export_target = if pattern {
                            replace_first(target, '*', subpath)
                        } else {
                            joined(target, subpath)
                        };
                        let manifest_string = string_of(manifest_path);
                        let manifest_url = match file_path_to_url(manifest_string.as_str()) {
                            Some(u) => chars_of(u.as_str()),
                            None => {
                                return Err(
                                    NodeResolveError::new(
                                        ErrorKind::NotAFilePath,
                                        manifest_path,
                                        Some(manifest_path),
                                        referrer,
                                    ),
                                );
                            },
                        };
                        if depth == 0 {
                            return Err(
                                NodeResolveError::new(
                                    ErrorKind::TooDeep,
                                    export_target.as_slice(),
                                    Some(manifest_path),
                                    referrer,
                                ),
                            );
                        }
                        let inner = self.resolve_package(
                            export_target.as_slice(),
                            manifest_url.as_slice(),
                            kind,
                            conditions,
                            mode,
                            depth - 1,
                        );
                        let builtin = is_builtin_chars(target);
                        let node = chars_of("node:");
                        return match inner {
                            Ok(Some(l)) => Ok(l),
                            Ok(None) => {
                                if builtin {
                                    let u = joined(node.as_slice(), target);
                                    Ok(Located::url(u.as_slice()))
                                } else {
                                    Err(
                                        NodeResolveError::new(
                                            ErrorKind::PackageTargetNotFound,
                                            export_target.as_slice(),
                                            Some(manifest_path),
                                            referrer,
                                        ),
                                    )
                                }
                            },
                            Err(e) => {
                                if builtin {
                                    let u = joined(node.as_slice(), target);
                                    Ok(Located::url(u.as_slice()))
                                } else {
                                    Err(e)
                                }
                            },
                        };
                    },
                }
            }
            return Err(
                NodeResolveError::new(
                    ErrorKind::InvalidPackageTarget,
                    target,
                    Some(manifest_path),
                    referrer,
                ),
            );
        }
        proof {
            reveal_strlit("./");
        }
        let rest = tail_from(target, 2);
        if contains_invalid_segment(rest.as_slice()) {
            return Err(
                NodeResolveError::new(
                    ErrorKind::InvalidPackageTarget,
                    target,
                    Some(manifest_path),
                    referrer,
                ),
            );
        }
        let package_path = match parent(manifest_path) {
            Some(p) => p,
            None => {
                return Err(
                    NodeResolveError::new(
                        ErrorKind::InvalidPackageTarget,
                        target,
                        Some(manifest_path),
                        referrer,
                    ),
                );
            },
        };
        let joined_path = path_join(package_path.as_slice(), target);
        let resolved_path = clean(joined_path.as_slice());
        if !is_within(resolved_path.as_slice(), package_path.as_slice()) {
            return Err(
                NodeResolveError::new(
                    ErrorKind::InvalidPackageTarget,
                    target,
                    Some(manifest_path),
                    referrer,
                ),
            );
        }
        if subpath.len() == 0 {
            return Ok(Located::path(resolved_path.as_slice()));
        }
        if contains_invalid_segment(subpath) {
            return Err(
                NodeResolveError::new(
                    ErrorKind::InvalidPackageTarget,
                    target,
                    Some(manifest_path),
                    referrer,
                ),
            );
        }
        if pattern {
            let replaced = replace_first(resolved_path.as_slice(), '*', subpath);
            return Ok(Located::path(replaced.as_slice()));
        }
        let below = path_join(resolved_path.as_slice(), subpath);
        let cleaned_below = clean(below.as_slice());
        Ok(Located::path(cleaned_below.as_slice()))
    }

    /// What a target leads to.
    pub fn resolve_package_target(
        &self,
        target: &Target,
        subpath: &[char],
        matched: &[char],
        manifest_path: &[char],
        referrer: Option<&[char]>,
        kind: NodeModuleKind,
        pattern: bool,
        internal: bool,
        conditions: &Vec<Vec<char>>,
        mode: NodeResolutionMode,
        depth: usize,
    ) -> (r: Result<Option<Located>, NodeResolveError>)
        ensures
            maybe_found_view(r) == self.target_of(
                target@,
                subpath@,
                matched@,
                manifest_path@,
                opt_slice(referrer),
                kind,
                pattern,
                internal,
                crate::path::texts(conditions@),
                mode,
                depth as nat,
            ),
        decreases depth, 6nat, target@,
    {
        match target {
            Target::Text(text) => {
                let t = chars_of(text.as_str());
                let found = self.resolve_package_target_string(
                    t.as_slice(),
                    subpath,
                    manifest_path,
                    referrer,
                    kind,
                    pattern,
                    internal,
                    conditions,
                    mode,
                    depth,
                );
                match found {
                    Err(e) => Err(e),
                    Ok(Located::Path(p)) => {
                        if mode.is_types() {
                            let pc = chars_of(p.as_str());
                            self.path_to_declaration_url(pc.as_slice(), referrer, kind, depth)
                        } else {
                            Ok(Some(Located::Path(p)))
                        }
                    },
                    Ok(Located::Url(u)) => Ok(Some(Located::Url(u))),
                }
            },
            Target::List(items) => {
                let ghost all = items_view(items@);
                let mut i: usize = 0;
                while i < items.len()
                    invariant
                        i <= items.len(),
                        all == items_view(items@),
                        target@ == TargetView::List(all),
                        self.list_of(
                            all,
                            i as int,
                            subpath@,
                            matched@,
                            manifest_path@,
                            opt_slice(referrer),
                            kind,
                            pattern,
                            internal,
                            crate::path::texts(conditions@),
                            mode,
                            depth as nat,
                        ) == self.target_of(
                            target@,
                            subpath@,
                            matched@,
                            manifest_path@,
                            opt_slice(referrer),
                            kind,
                            pattern,
                            internal,
                            crate::path::texts(conditions@),
                            mode,
                            depth as nat,
                        ),
                    decreases items.len() - i,
                {
                    proof {
                        let tv = target@;
                        assert(tv->List_0[i as int] == items@[i as int]@);
                        assert(decreases_to!(tv => tv->List_0));
                        assert(decreases_to!(tv->List_0 => tv->List_0[i as int]));
                    }
                    let found = self.resolve_package_target(
                        &items[i],
                        subpath,
                        matched,
                        manifest_path,
                        referrer,
                        kind,
                        pattern,
                        internal,
                        conditions,
                        mode,
                        depth,
                    );
                    match found {
                        Ok(Some(l)) => {
                            return Ok(Some(l));
                        },
                        Ok(None) => {},
                        Err(e) => {
                            if e.kind() != ErrorKind::InvalidPackageTarget {
                                return Err(e);
                            }
                        },
                    }
                    i += 1;
                }
                Ok(None)
            },
            Target::Table(entries) => {
                let ghost all = entries_view(entries@);
                let mut i: usize = 0;
                while i < entries.len()
                    invariant
                        i <= entries.len(),
                        all == entries_view(entries@),
                        target@ == TargetView::Table(all),
                        self.table_of(
                            all,
                            i as int,
                            subpath@,
                            matched@,
                            manifest_path@,
                            opt_slice(referrer),
                            kind,
                            pattern,
                            internal,
                            crate::path::texts(conditions@),
                            mode,
                            depth as nat,
                        ) == self.target_of(
                            target@,
                            subpath@,
                            matched@,
                            manifest_path@,
                            opt_slice(referrer),
                            kind,
                            pattern,
                            internal,
                            crate::path::texts(conditions@),
                            mode,
                            depth as nat,
                        ),
                    decreases entries.len() - i,
                {
                    let key = chars_of(entries[i].0.as_str());
                    assert(all[i as int].0 == key@);
                    if applies(key.as_slice(), conditions, mode) {
                        proof {
                            let tv = target@;
                            assert(tv->Table_0[i as int].1 == entries@[i as int].1@);
                            assert(decreases_to!(tv => tv->Table_0));
                            assert(decreases_to!(tv->Table_0 => tv->Table_0[i as int]));
                            assert(decreases_to!(tv->Table_0[i as int] => tv->Table_0[i as int].1));
                        }
                        return self.resolve_package_target(
                            &entries[i].1,
                            subpath,
                            matched,
                            manifest_path,
                            referrer,
                            kind,
                            pattern,
                            internal,
                            conditions,
                            mode,
                            depth,
                        );
                    }
                    i += 1;
                }
                Err(
                    NodeResolveError::new(
                        ErrorKind::InvalidPackageTarget,
                        matched,
                        Some(manifest_path),
                        referrer,
                    ),
                )
            },
            Target::Null => Ok(None),
            Target::Other => Err(
                NodeResolveError::new(
                    ErrorKind::InvalidPackageTarget,
                    matched,
                    Some(manifest_path),
                    referrer,
                ),
            ),
        }
    }

    /// What a subpath leads to by an `exports` map.
    pub fn resolve_exports(
        &self,
        manifest_path: &[char],
        subpath: &[char],
        exports: &Vec<(String, Target)>,
        referrer: Option<&[char]>,
        kind: NodeModuleKind,
        conditions: &Vec<Vec<char>>,
        mode: NodeResolutionMode,
        depth: usize,
    ) -> (r: Result<Located, NodeResolveError>)
        ensures
            found_view(r) == self.exports_of(
                manifest_path@,
                subpath@,
                entries_view(exports@),
                opt_slice(referrer),
                kind,
                crate::path::texts(conditions@),
                mode,
                depth as nat,
            ),
        decreases depth, 8nat, TargetView::Null,
    {
        let slash = chars_of("/");
        let exact = find_entry(exports, subpath);
        let direct = exact.is_some() && !has_char(subpath, '*') && !ends_with(
            subpath,
            slash.as_slice(),
        );
        let found = if direct {
            let at = exact.unwrap();
            let empty: Vec<char> = Vec::new();
            assert(entries_view(exports@)[at as int].1 == exports@[at as int].1@);
            self.resolve_package_target(
                &exports[at].1,
                empty.as_slice(),
                subpath,
                manifest_path,
                referrer,
                kind,
                false,
                false,
                conditions,
                mode,
                depth,
            )
        } else {
            match find_best_match(exports, subpath) {
                Some(best) => {
                    let at = best.0;
                    let key = chars_of(exports[at].0.as_str());
                    assert(entries_view(exports@)[at as int].1 == exports@[at as int].1@);
                    assert(entries_view(exports@)[at as int].0 == key@);
                    self.resolve_package_target(
                        &exports[at].1,
                        best.1.as_slice(),
                        key.as_slice(),
                        manifest_path,
                        referrer,
                        kind,
                        true,
                        false,
                        conditions,
                        mode,
                        depth,
                    )
                },
                None => Ok(None),
            }
        };
        match found {
            Err(e) => Err(e),
            Ok(Some(l)) => Ok(l),
            Ok(None) => Err(
                NodeResolveError::new(
                    ErrorKind::PackagePathNotExported,
                    subpath,
                    Some(manifest_path),
                    referrer,
                ),
            ),
        }
    }

    /// What a `#` name leads to by the `imports` map of the referrer's package.
    pub fn resolve_imports(
        &self,
        name: &[char],
        referrer: Option<&[char]>,
        kind: NodeModuleKind,
        pkg: Option<&PackageJson>,
        conditions: &Vec<Vec<char>>,
        mode: NodeResolutionMode,
        depth: usize,
    ) -> (r: Result<Located, NodeResolveError>)
        ensures
            found_view(r) == self.imports_of(
                name@,
                opt_slice(referrer),
                kind,
                opt_manifest(pkg),
                crate::path::texts(conditions@),
                mode,
                depth as nat,
            ),
            Self::is_invalid_import_name(name@) ==> found_view(r) is Err && found_view(
                r,
            )->Err_0.kind == ErrorKind::InvalidModuleSpecifier,
        decreases depth, 9nat, TargetView::Null,
    {
        let slash = chars_of("/");
        let hash_slash = chars_of("#/");
        if str_is("#", name) || starts_with(name, hash_slash.as_slice()) || ends_with(
            name,
            slash.as_slice(),
        ) {
            return Err(
                NodeResolveError::new(ErrorKind::InvalidModuleSpecifier, name, None, referrer),
            );
        }
        let mut manifest_path: Option<Vec<char>> = None;
        let mut found: Result<Option<Located>, NodeResolveError> = Ok(None);
        match pkg {
            Some(p) => {
                let path = chars_of(p.path.as_str());
                match &p.imports {
                    Some(imports) => {
                        let exact = find_entry(imports, name);
                        if exact.is_some() && !has_char(name, '*') {
                            let at = exact.unwrap();
                            let empty: Vec<char> = Vec::new();
                            assert(entries_view(imports@)[at as int].1 == imports@[at as int].1@);
                            found = self.resolve_package_target(
                                &imports[at].1,
                                empty.as_slice(),
                                name,
                                path.as_slice(),
                                referrer,
                                kind,
                                false,
                                true,
                                conditions,
                                mode,
                                depth,
                            );
                        } else {
                            match find_best_match(imports, name) {
                                Some(best) => {
                                    let at = best.0;
                                    let key = chars_of(imports[at].0.as_str());
                                    assert(entries_view(imports@)[at as int].1
                                        == imports@[at as int].1@);
                                    assert(entries_view(imports@)[at as int].0 == key@);
                                    found = self.resolve_package_target(
                                        &imports[at].1,
                                        best.1.as_slice(),
                                        key.as_slice(),
                                        path.as_slice(),
                                        referrer,
                                        kind,
                                        true,
                                        true,
                                        conditions,
                                        mode,
                                        depth,
                                    );
                                },
                                None => {},
                            }
                        }
                    },
                    None => {},
                }
                manifest_path = Some(path);
            },
            None => {},
        }
        match found {
            Err(e) => Err(e),
            Ok(Some(l)) => Ok(l),
            Ok(None) => {
                let at: Option<&[char]> = match &manifest_path {
                    Some(p) => Some(p.as_slice()),
                    None => None,
                };
                Err(NodeResolveError::new(ErrorKind::PackageImportNotDefined, name, at, referrer))
            },
        }
    }

    /// What a subpath leads to in the package that a manifest describes.
    pub fn resolve_package_subpath(
        &self,
        pkg: &PackageJson,
        subpath: &[char],
        referrer: Option<&[char]>,
        kind: NodeModuleKind,
        conditions: &Vec<Vec<char>>,
        mode: NodeResolutionMode,
        depth: usize,
    ) -> (r: Result<Option<Located>, NodeResolveError>)
        ensures
            maybe_found_view(r) == self.package_subpath_of(
                pkg@,
                subpath@,
                opt_slice(referrer),
                kind,
                crate::path::texts(conditions@),
                mode,
                depth as nat,
            ),
        decreases depth, 9nat, TargetView::Null,
    {
        let path = chars_of(pkg.path.as_str());
        let is_root = str_is(".", subpath);
        match &pkg.exports {
            Some(exports) => {
                let found = self.resolve_exports(
                    path.as_slice(),
                    subpath,
                    exports,
                    referrer,
                    kind,
                    conditions,
                    mode,
                    depth,
                );
                return match found {
                    Ok(l) => Ok(Some(l)),
                    Err(e) => {
                        if mode.is_types() && is_root {
                            self.legacy_main_resolve(pkg, referrer, kind, mode, depth)
                        } else {
                            Err(e)
                        }
                    },
                };
            },
            None => {},
        }
        if is_root {
            return self.legacy_main_resolve(pkg, referrer, kind, mode, depth);
        }
        match parent(path.as_slice()) {
            Some(dir) => self.resolve_subpath_exact(
                dir.as_slice(),
                subpath,
                referrer,
                kind,
                mode,
                depth,
            ),
            None => Err(
                NodeResolveError::new(
                    ErrorKind::NotAFilePath,
                    path.as_slice(),
                    Some(path.as_slice()),
                    referrer,
                ),
            ),
        }
    }

    /// What a subpath leads to in a directory without a manifest.
    pub fn resolve_package_subpath_no_pkg_json(
        &self,
        dir: &[char],
        subpath: &[char],
        referrer: Option<&[char]>,
        kind: NodeModuleKind,
        mode: NodeResolutionMode,
        depth: usize,
    ) -> (r: Result<Option<Located>, NodeResolveError>)
        ensures
            maybe_found_view(r) == self.no_manifest_subpath_of(
                dir@,
                subpath@,
                opt_slice(referrer),
                kind,
                mode,
                depth as nat,
            ),
        decreases depth, 9nat, TargetView::Null,
    {
        if str_is(".", subpath) {
            Ok(self.legacy_index_resolve(dir, kind, mode))
        } else {
            self.resolve_subpath_exact(dir, subpath, referrer, kind, mode, depth)
        }
    }

    /// What a subpath leads to in the package directory `dir`.
    pub fn resolve_package_dir_subpath(
        &self,
        dir: &[char],
        subpath: &[char],
        referrer: Option<&[char]>,
        kind: NodeModuleKind,
        conditions: &Vec<Vec<char>>,
        mode: NodeResolutionMode,
        depth: usize,
    ) -> (r: Result<Option<Located>, NodeResolveError>)
        ensures
            maybe_found_view(r) == self.dir_subpath_of(
                dir@,
                subpath@,
                opt_slice(referrer),
                kind,
                crate::path::texts(conditions@),
                mode,
                depth as nat,
            ),
        decreases depth, 10nat, TargetView::Null,
    {
        let name = chars_of("package.json");
        let manifest_path = path_join(dir, name.as_slice());
        match self.load_package_json(manifest_path.as_slice(), referrer) {
            Err(e) => Err(e),
            Ok(Some(pkg)) => self.resolve_package_subpath(
                &pkg,
                subpath,
                referrer,
                kind,
                conditions,
                mode,
                depth,
            ),
            Ok(None) => self.resolve_package_subpath_no_pkg_json(dir, subpath, referrer, kind, mode, depth),
        }
    }

    /// What a subpath leads to in the package that the locator finds under `name`.
    pub fn resolve_package_subpath_for_package_inner(
        &self,
        name: &[char],
        subpath: &[char],
        referrer: &[char],
        kind: NodeModuleKind,
        conditions: &Vec<Vec<char>>,
        mode: NodeResolutionMode,
        depth: usize,
    ) -> (r: Result<Option<Located>, NodeResolveError>)
        ensures
            maybe_found_view(r) == self.located_package_subpath_of(
                name@,
                subpath@,
                referrer@,
                kind,
                crate::path::texts(conditions@),
                mode,
                depth as nat,
            ),
        decreases depth, 11nat, TargetView::Null,
    {
        let n = string_of(name);
        let r = string_of(referrer);
        match self.npm_resolver.resolve_package_folder_from_package(n.as_str(), r.as_str()) {
            Err(e) => Err(e),
            Ok(dir) => {
                let d = chars_of(dir.as_str());
                self.resolve_package_dir_subpath(
                    d.as_slice(),
                    subpath,
                    Some(referrer),
                    kind,
                    conditions,
                    mode,
                    depth,
                )
            },
        }
    }

    /// What a subpath of the package `name` leads to, the package of its
    /// type declarations standing in where types are looked for and the
    /// package itself gives no location.
    pub fn resolve_package_subpath_for_package(
        &self,
        name: &[char],
        subpath: &[char],
        referrer: &[char],
        kind: NodeModuleKind,
        conditions: &Vec<Vec<char>>,
        mode: NodeResolutionMode,
        depth: usize,
    ) -> (r: Result<Option<Located>, NodeResolveError>)
        ensures
            maybe_found_view(r) == self.subpath_for_package_of(
                name@,
                subpath@,
                referrer@,
                kind,
                crate::path::texts(conditions@),
                mode,
                depth as nat,
            ),
        decreases depth, 12nat, TargetView::Null,
    {
        let first = self.resolve_package_subpath_for_package_inner(
            name,
            subpath,
            referrer,
            kind,
            conditions,
            mode,
            depth,
        );
        let settled = match &first {
            Ok(Some(_)) => true,
            _ => false,
        };
        if mode.is_types() && !settled {
            let types_name = types_package_name_chars(name);
            let second = self.resolve_package_subpath_for_package_inner(
                types_name.as_slice(),
                subpath,
                referrer,
                kind,
                conditions,
                mode,
                depth,
            );
            match second {
                Ok(Some(l)) => {
                    return Ok(Some(l));
                },
                _ => {},
            }
        }
        first
    }

    /// What a bare specifier leads to.
    pub fn resolve_package(
        &self,
        specifier: &[char],
        referrer: &[char],
        kind: NodeModuleKind,
        conditions: &Vec<Vec<char>>,
        mode: NodeResolutionMode,
        depth: usize,
    ) -> (r: Result<Option<Located>, NodeResolveError>)
        ensures
            maybe_found_view(r) == self.package_of(
                specifier@,
                referrer@,
                kind,
                crate::path::texts(conditions@),
                mode,
                depth as nat,
            ),
        decreases depth, 13nat, TargetView::Null,
    {
        let parts = match parse_package_name_chars(specifier, referrer) {
            Ok(parts) => parts,
            Err(e) => {
                return Err(e);
            },
        };
        let referrer_string = string_of(referrer);
        let referrer_path: Option<Vec<char>> = match url_to_file_path(referrer_string.as_str()) {
            Some(p) => Some(chars_of(p.as_str())),
            None => None,
        };
        let referrer_path_ref: Option<&[char]> = match &referrer_path {
            Some(p) => Some(p.as_slice()),
            None => None,
        };
        let pkg = match self.closest_package_json(referrer_path_ref) {
            Err(e) => {
                return Err(e);
            },
            Ok(None) => {
                return Ok(None);
            },
            Ok(Some(pkg)) => pkg,
        };
        let own_name = match &pkg.name {
            Some(n) => {
                let nc = chars_of(n.as_str());
                same_chars(nc.as_slice(), parts.0.as_slice())
            },
            None => false,
        };
        if own_name {
            match &pkg.exports {
                Some(exports) => {
                    let path = chars_of(pkg.path.as_str());
                    let found = self.resolve_exports(
                        path.as_slice(),
                        parts.1.as_slice(),
                        exports,
                        Some(referrer),
                        kind,
                        conditions,
                        mode,
                        depth,
                    );
                    return match found {
                        Ok(l) => Ok(Some(l)),
                        Err(e) => Err(e),
                    };
                },
                None => {},
            }
        }
        self.resolve_package_subpath_for_package(
            parts.0.as_slice(),
            parts.1.as_slice(),
            referrer,
            kind,
            conditions,
            mode,
            depth,
        )
    }
}

} // verus!
