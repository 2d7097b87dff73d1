//! The entry points of the resolver.

use vstd::prelude::*;
use crate::builtin::{builtin_module_of_url, is_builtin_chars};
use crate::env::{FileSystem, NpmResolver};
use crate::errors::{opt_slice, ErrorKind, NodeResolveError};
use crate::model::{
    entries_view, Located, NodeModuleKind, NodeResolution, NodeResolutionMode, PackageJson, Target,
};
use crate::path::texts;
use crate::probing::{conditions_of, no_texts, push_text};
use crate::semantics::{
    checked_file, closest_manifest, finalized, found_view, has_encoded_separator, manifest_view,
    maybe_found_view, node_resolution_view, opt_str, resolved_view, strings_view, NodeResolver,
    MAX_DEPTH,
};
use crate::specifier::is_path_like_chars;
use crate::text::{
    chars_of, contains_sub, ends_with, joined, lowered, opt_seq, starts_with, str_is, string_of,
};
use crate::urls::{
    file_path_to_url, url_file_path, url_join, url_parse, url_path, url_scheme, url_to_file_path,
};

verus! {

/// The characters of an optional string slice.
pub fn opt_chars_of(o: Option<&str>) -> (r: Option<Vec<char>>)
    ensures
        opt_seq(r) == opt_str(o),
{
    match o {
        Some(s) => Some(chars_of(s)),
        None => None,
    }
}

/// A view into an optional character vector.
pub fn opt_as_slice(o: &Option<Vec<char>>) -> (r: Option<&[char]>)
    ensures
        opt_slice(r) == opt_seq(*o),
{
    match o {
        Some(v) => Some(v.as_slice()),
        None => None,
    }
}

/// The characters of each of a list of strings.
pub fn texts_of(list: &Vec<String>) -> (r: Vec<Vec<char>>)
    ensures
        texts(r@) == strings_view(list@),
{
    let mut r = no_texts();
    let mut i: usize = 0;
    while i < list.len()
        invariant
            i <= list.len(),
            texts(r@) == strings_view(list@).take(i as int),
        decreases list.len() - i,
    {
        push_text(&mut r, chars_of(list[i].as_str()));
        assert(strings_view(list@).take(i + 1) == strings_view(list@).take(i as int).push(
            list@[i as int]@,
        ));
        i += 1;
    }
    assert(strings_view(list@).take(list.len() as int) == strings_view(list@));
    r
}

/// Whether the encoded form of a path holds a disguised separator.
pub fn holds_encoded_separator(path: &[char]) -> (b: bool)
    ensures
        b == has_encoded_separator(path@),
{
    let a = chars_of("%2F");
    let c = chars_of("%2C");
    contains_sub(path, a.as_slice()) || contains_sub(path, c.as_slice())
}

impl<'a, F: FileSystem, N: NpmResolver> NodeResolver<'a, F, N> {
    /// Whether the module at the URL lies inside an installed package.
    pub fn in_npm_package(&self, specifier: &str) -> (b: bool)
        ensures
            b == self.npm_resolver.inside_npm_package(specifier@),
    {
        self.npm_resolver.in_npm_package(specifier)
    }

    /// What is found of the file at `file_path`, known to stand for `located`.
    fn check_file(&self, file_path: &[char], located: Located, referrer: Option<&[char]>) -> (r:
        Result<Located, NodeResolveError>)
        ensures
            found_view(r) == checked_file(self.fs, file_path@, located@, opt_slice(referrer)),
    {
        let trimmed = crate::path::trim_trailing_separators(file_path);
        let probe = string_of(trimmed.as_slice());
        let text = match &located {
            Located::Path(p) => chars_of(p.as_str()),
            Located::Url(u) => chars_of(u.as_str()),
        };
        if self.fs.is_dir(probe.as_str()) {
            Err(
                NodeResolveError::new(
                    ErrorKind::UnsupportedDirImport,
                    text.as_slice(),
                    None,
                    referrer,
                ),
            )
        } else if !self.fs.is_file(probe.as_str()) {
            Err(NodeResolveError::new(ErrorKind::ModuleNotFound, text.as_slice(), None, referrer))
        } else {
            Ok(located)
        }
    }

    /// The last step of a resolution.
    pub fn finalize_resolution(&self, located: Located, referrer: Option<&[char]>) -> (r: Result<
        Located,
        NodeResolveError,
    >)
        ensures
            found_view(r) == finalized(self.fs, located@, opt_slice(referrer)),
    {
        match located {
            Located::Url(u) => {
                let text = chars_of(u.as_str());
                match url_path(u.as_str()) {
                    Some(p) => {
                        let pc = chars_of(p.as_str());
                        if holds_encoded_separator(pc.as_slice()) {
                            return Err(
                                NodeResolveError::new(
                                    ErrorKind::InvalidModuleSpecifier,
                                    text.as_slice(),
                                    None,
                                    referrer,
                                ),
                            );
                        }
                        let is_node = match url_scheme(u.as_str()) {
                            Some(s) => crate::text::same_text(s.as_str(), "node"),
                            None => false,
                        };
                        if is_node {
                            return Ok(Located::Url(u));
                        }
                        match url_to_file_path(u.as_str()) {
                            Some(fp) => {
                                let fpc = chars_of(fp.as_str());
                                self.check_file(fpc.as_slice(), Located::Url(u), referrer)
                            },
                            None => Err(
                                NodeResolveError::new(
                                    ErrorKind::NotAFilePath,
                                    text.as_slice(),
                                    None,
                                    referrer,
                                ),
                            ),
                        }
                    },
                    None => Err(
                        NodeResolveError::new(
                            ErrorKind::NotAFilePath,
                            text.as_slice(),
                            None,
                            referrer,
                        ),
                    ),
                }
            },
            Located::Path(p) => {
                let pc = chars_of(p.as_str());
                self.check_file(pc.as_slice(), Located::Path(p), referrer)
            },
        }
    }

    /// What kind of module lies at a URL whose file path, if it has one, is `file_path`.
    pub fn node_resolution(&self, url: &[char], file_path: Option<&[char]>) -> (r: Result<
        NodeResolution,
        NodeResolveError,
    >)
        ensures
            node_resolution_view(r) == self.node_resolution_of(url@, opt_slice(file_path)),
    {
        let lower = lowered(url);
        let l = lower.as_slice();
        let http = chars_of("http");
        let json = chars_of(".json");
        let js = chars_of(".js");
        let d_ts = chars_of(".d.ts");
        let mjs = chars_of(".mjs");
        let d_mts = chars_of(".d.mts");
        let ts = chars_of(".ts");
        let mts = chars_of(".mts");
        if starts_with(l, http.as_slice()) || ends_with(l, json.as_slice()) {
            Ok(NodeResolution::Esm(string_of(url)))
        } else if ends_with(l, js.as_slice()) || ends_with(l, d_ts.as_slice()) {
            match self.closest_package_json(file_path) {
                Err(e) => Err(e),
                Ok(Some(pkg)) => {
                    if crate::text::same_text(pkg.typ.as_str(), "module") {
                        Ok(NodeResolution::Esm(string_of(url)))
                    } else {
                        Ok(NodeResolution::CommonJs(string_of(url)))
                    }
                },
                Ok(None) => Ok(NodeResolution::Esm(string_of(url))),
            }
        } else if ends_with(l, mjs.as_slice()) || ends_with(l, d_mts.as_slice()) {
            Ok(NodeResolution::Esm(string_of(url)))
        } else if ends_with(l, ts.as_slice()) || ends_with(l, mts.as_slice()) {
            let u = string_of(url);
            if self.npm_resolver.in_npm_package(u.as_str()) {
                Err(
                    NodeResolveError::new(
                        ErrorKind::TypeScriptNotSupportedInNpm,
                        url,
                        None,
                        None,
                    ),
                )
            } else {
                Ok(NodeResolution::Esm(u))
            }
        } else {
            Ok(NodeResolution::CommonJs(string_of(url)))
        }
    }

    /// What kind of module lies at a URL.
    pub fn url_to_node_resolution(&self, url: &str) -> (r: Result<NodeResolution, NodeResolveError>)
        ensures
            node_resolution_view(r) == self.node_resolution_of(url@, url_file_path(url@)),
    {
        let u = chars_of(url);
        let fp = match url_to_file_path(url) {
            Some(p) => Some(chars_of(p.as_str())),
            None => None,
        };
        self.node_resolution(u.as_slice(), opt_as_slice(&fp))
    }

    /// What kind of module lies at a location.
    pub fn located_to_node_resolution(&self, located: &Located) -> (r: Result<
        NodeResolution,
        NodeResolveError,
    >)
        ensures
            node_resolution_view(r) == self.located_resolution_of(located@),
    {
        match located {
            Located::Url(u) => self.url_to_node_resolution(u.as_str()),
            Located::Path(p) => {
                let pc = chars_of(p.as_str());
                match file_path_to_url(p.as_str()) {
                    Some(u) => {
                        let uc = chars_of(u.as_str());
                        self.node_resolution(uc.as_slice(), Some(pc.as_slice()))
                    },
                    None => Err(
                        NodeResolveError::new(ErrorKind::NotAFilePath, pc.as_slice(), None, None),
                    ),
                }
            },
        }
    }

    /// The manifest nearest to the module at the URL; none where the URL names no local file.
    pub fn get_closest_package_json(&self, url: &str) -> (r: Result<
        Option<PackageJson>,
        NodeResolveError,
    >)
        ensures
            manifest_view(r) == closest_manifest(self.fs, url_file_path(url@)),
    {
        let fp = match url_to_file_path(url) {
            Some(p) => Some(chars_of(p.as_str())),
            None => None,
        };
        self.closest_package_json(opt_as_slice(&fp))
    }

    /// The manifest nearest to the file at `file_path`.
    pub fn get_closest_package_json_from_path(&self, file_path: &str) -> (r: Result<
        Option<PackageJson>,
        NodeResolveError,
    >)
        ensures
            manifest_view(r) == closest_manifest(self.fs, Some(file_path@)),
    {
        let fp = chars_of(file_path);
        self.closest_package_json(Some(fp.as_slice()))
    }

    /// What a subpath leads to by an `exports` map.
    pub fn package_exports_resolve(
        &self,
        package_json_path: &str,
        package_subpath: &str,
        package_exports: &Vec<(String, Target)>,
        maybe_referrer: Option<&str>,
        referrer_kind: NodeModuleKind,
        conditions: &Vec<String>,
        mode: NodeResolutionMode,
    ) -> (r: Result<Located, NodeResolveError>)
        ensures
            found_view(r) == self.exports_of(
                package_json_path@,
                package_subpath@,
                entries_view(package_exports@),
                opt_str(maybe_referrer),
                referrer_kind,
                strings_view(conditions@),
                mode,
                MAX_DEPTH as nat,
            ),
    {
        let path = chars_of(package_json_path);
        let subpath = chars_of(package_subpath);
        let referrer = opt_chars_of(maybe_referrer);
        let active = texts_of(conditions);
        self.resolve_exports(
            path.as_slice(),
            subpath.as_slice(),
            package_exports,
            opt_as_slice(&referrer),
            referrer_kind,
            &active,
            mode,
            MAX_DEPTH,
        )
    }

    /// What a `#` name leads to by the `imports` map of the referrer's package.
    pub fn package_imports_resolve(
        &self,
        name: &str,
        maybe_referrer: Option<&str>,
        referrer_kind: NodeModuleKind,
        referrer_pkg_json: Option<&PackageJson>,
        conditions: &Vec<String>,
        mode: NodeResolutionMode,
    ) -> (r: Result<Located, NodeResolveError>)
        ensures
            found_view(r) == self.imports_of(
                name@,
                opt_str(maybe_referrer),
                referrer_kind,
                crate::semantics::opt_manifest(referrer_pkg_json),
                strings_view(conditions@),
                mode,
                MAX_DEPTH as nat,
            ),
            Self::is_invalid_import_name(name@) ==> found_view(r) is Err && found_view(
                r,
            )->Err_0.kind == ErrorKind::InvalidModuleSpecifier,
    {
        let n = chars_of(name);
        let referrer = opt_chars_of(maybe_referrer);
        let active = texts_of(conditions);
        self.resolve_imports(
            n.as_slice(),
            opt_as_slice(&referrer),
            referrer_kind,
            referrer_pkg_json,
            &active,
            mode,
            MAX_DEPTH,
        )
    }

    /// What a bare specifier leads to.
    pub fn package_resolve(
        &self,
        specifier: &str,
        referrer: &str,
        referrer_kind: NodeModuleKind,
        conditions: &Vec<String>,
        mode: NodeResolutionMode,
    ) -> (r: Result<Option<Located>, NodeResolveError>)
        ensures
            maybe_found_view(r) == self.package_of(
                specifier@,
                referrer@,
                referrer_kind,
                strings_view(conditions@),
                mode,
                MAX_DEPTH as nat,
            ),
    {
        let s = chars_of(specifier);
        let r = chars_of(referrer);
        let active = texts_of(conditions);
        self.resolve_package(s.as_slice(), r.as_slice(), referrer_kind, &active, mode, MAX_DEPTH)
    }

    /// Where a specifier leads from a referrer, before the kind of module is told.
    pub fn module_resolve(
        &self,
        specifier: &[char],
        referrer: &[char],
        kind: NodeModuleKind,
        conditions: &Vec<Vec<char>>,
        mode: NodeResolutionMode,
    ) -> (r: Result<Option<Located>, NodeResolveError>)
        ensures
            maybe_found_view(r) == self.module_of(
                specifier@,
                referrer@,
                kind,
                texts(conditions@),
                mode,
            ),
    {
        let specifier_string = string_of(specifier);
        let referrer_string = string_of(referrer);
        let hash = chars_of("#");
        let first: Result<Option<Located>, NodeResolveError> = if is_path_like_chars(specifier) {
            match url_join(referrer_string.as_str(), specifier_string.as_str()) {
                Some(u) => Ok(Some(Located::Url(u))),
                None => Err(
                    NodeResolveError::new(
                        ErrorKind::RelativeJoin,
                        specifier,
                        None,
                        Some(referrer),
                    ),
                ),
            }
        } else if starts_with(specifier, hash.as_slice()) {
            let fp = match url_to_file_path(referrer_string.as_str()) {
                Some(p) => Some(chars_of(p.as_str())),
                None => None,
            };
            match self.closest_package_json(opt_as_slice(&fp)) {
                Err(e) => Err(e),
                Ok(pkg) => {
                    let found = self.resolve_imports(
                        specifier,
                        Some(referrer),
                        kind,
                        pkg.as_ref(),
                        conditions,
                        mode,
                        MAX_DEPTH,
                    );
                    match found {
                        Ok(l) => Ok(Some(l)),
                        Err(e) => Err(e),
                    }
                },
            }
        } else {
            match url_parse(specifier_string.as_str()) {
                Some(u) => Ok(Some(Located::Url(u))),
                None => self.resolve_package(
                    specifier,
                    referrer,
                    kind,
                    conditions,
                    mode,
                    MAX_DEPTH,
                ),
            }
        };
        let located = match first {
            Err(e) => {
                return Err(e);
            },
            Ok(None) => {
                return Ok(None);
            },
            Ok(Some(l)) => l,
        };
        let typed: Result<Option<Located>, NodeResolveError> = if mode.is_types() {
            let file_path: Option<Vec<char>> = match &located {
                Located::Path(p) => Some(chars_of(p.as_str())),
                Located::Url(u) => match url_to_file_path(u.as_str()) {
                    Some(p) => Some(chars_of(p.as_str())),
                    None => None,
                },
            };
            match file_path {
                Some(fp) => self.path_to_declaration_url(
                    fp.as_slice(),
                    Some(referrer),
                    kind,
                    MAX_DEPTH,
                ),
                None => Ok(None),
            }
        } else {
            Ok(Some(located))
        };
        match typed {
            Err(e) => Err(e),
            Ok(None) => Ok(None),
            Ok(Some(t)) => match self.finalize_resolution(t, Some(referrer)) {
                Ok(l) => Ok(Some(l)),
                Err(e) => Err(e),
            },
        }
    }

    /// What is resolved once built-in names and self-sufficient URLs are out of the way.
    fn resolve_module(
        &self,
        specifier: &[char],
        referrer: &[char],
        kind: NodeModuleKind,
        mode: NodeResolutionMode,
    ) -> (r: Result<Option<NodeResolution>, NodeResolveError>)
        ensures
            resolved_view(r) == self.resolved_module_of(specifier@, referrer@, kind, mode),
    {
        let conditions = conditions_of(kind);
        match self.module_resolve(specifier, referrer, kind, &conditions, mode) {
            Err(e) => Err(e),
            Ok(None) => Ok(None),
            Ok(Some(l)) => match self.located_to_node_resolution(&l) {
                Ok(r) => Ok(Some(r)),
                Err(e) => Err(e),
            },
        }
    }

    /// What joining the specifier onto a `data:` referrer gives.
    fn join_onto_data(specifier: &str, referrer: &str) -> (r: Result<
        Option<NodeResolution>,
        NodeResolveError,
    >)
        ensures
            resolved_view(r) == Self::joined_onto_data(specifier@, referrer@),
    {
        match url_join(referrer, specifier) {
            Some(u) => Ok(Some(NodeResolution::Esm(u))),
            None => {
                let s = chars_of(specifier);
                let r = chars_of(referrer);
                Err(
                    NodeResolveError::new(
                        ErrorKind::DataUrlReferrerFailed,
                        s.as_slice(),
                        None,
                        Some(r.as_slice()),
                    ),
                )
            },
        }
    }

    /// Resolves a specifier as the module at the URL `referrer` wrote it.
    ///
    /// A built-in module's name resolves to that module whatever the
    /// referrer, its kind and the mode are.
    pub fn resolve(
        &self,
        specifier: &str,
        referrer: &str,
        referrer_kind: NodeModuleKind,
        mode: NodeResolutionMode,
    ) -> (r: Result<Option<NodeResolution>, NodeResolveError>)
        ensures
            resolved_view(r) == self.resolution_of(specifier@, referrer@, referrer_kind, mode),
            crate::builtin::is_builtin_name(specifier@) ==> resolved_view(r) == Ok::<
                Option<crate::model::NodeResolutionView>,
                crate::errors::ErrorView,
            >(Some(crate::model::NodeResolutionView::BuiltIn(specifier@))),
    {
        let s = chars_of(specifier);
        let rf = chars_of(referrer);
        if is_builtin_chars(s.as_slice()) {
            return Ok(Some(NodeResolution::BuiltIn(string_of(s.as_slice()))));
        }
        match url_parse(specifier) {
            Some(u) => {
                let scheme: Vec<char> = match url_scheme(specifier) {
                    Some(t) => chars_of(t.as_str()),
                    None => Vec::new(),
                };
                let from_data = match url_scheme(referrer) {
                    Some(t) => crate::text::same_text(t.as_str(), "data"),
                    None => false,
                };
                if str_is("data", scheme.as_slice()) {
                    if from_data {
                        return Self::join_onto_data(specifier, referrer);
                    }
                    return Ok(Some(NodeResolution::Esm(u)));
                }
                let uc = chars_of(u.as_str());
                match builtin_module_of_url(uc.as_slice(), scheme.as_slice()) {
                    Some(name) => {
                        return Ok(Some(NodeResolution::BuiltIn(string_of(name.as_slice()))));
                    },
                    None => {},
                }
                if !str_is("file", scheme.as_slice()) {
                    return Err(
                        NodeResolveError::new(
                            ErrorKind::UnsupportedEsmUrlScheme,
                            scheme.as_slice(),
                            None,
                            Some(rf.as_slice()),
                        ),
                    );
                }
                if from_data {
                    return Self::join_onto_data(specifier, referrer);
                }
            },
            None => {},
        }
        self.resolve_module(s.as_slice(), rf.as_slice(), referrer_kind, mode)
    }

    /// Resolves a subpath of the package in the directory `package_dir`
    /// for an ES module.
    pub fn resolve_package_subpath_from_deno_module(
        &self,
        package_dir: &str,
        package_subpath: Option<&str>,
        maybe_referrer: Option<&str>,
        mode: NodeResolutionMode,
    ) -> (r: Result<Option<NodeResolution>, NodeResolveError>)
        ensures
            resolved_view(r) == self.package_dir_resolution_of(
                package_dir@,
                opt_str(package_subpath),
                opt_str(maybe_referrer),
                mode,
            ),
    {
        let dir = chars_of(package_dir);
        let subpath = match package_subpath {
            Some(s) => {
                let prefix = chars_of("./");
                let tail = chars_of(s);
                joined(prefix.as_slice(), tail.as_slice())
            },
            None => chars_of("."),
        };
        let referrer = opt_chars_of(maybe_referrer);
        let conditions = conditions_of(NodeModuleKind::Esm);
        let found = self.resolve_package_dir_subpath(
            dir.as_slice(),
            subpath.as_slice(),
            opt_as_slice(&referrer),
            NodeModuleKind::Esm,
            &conditions,
            mode,
            MAX_DEPTH,
        );
        match found {
            Err(e) => Err(e),
            Ok(None) => Ok(None),
            Ok(Some(l)) => match self.located_to_node_resolution(&l) {
                Ok(r) => Ok(Some(r)),
                Err(e) => Err(e),
            },
        }
    }
}

} // verus!
