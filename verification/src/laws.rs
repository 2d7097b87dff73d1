//! What holds of every resolution.

use vstd::prelude::*;
use crate::builtin::is_builtin_name;
use crate::env::{FileSystem, NpmResolver};
use crate::errors::{full_error, ErrorKind, ErrorView};
use crate::matching::{best_match, has_invalid_segment, matched_part};
use crate::model::{
    entry_index, main_entry, LocatedView, NodeModuleKind, NodeResolutionMode, NodeResolutionView,
    PackageJsonView, TargetView,
};
use crate::path::{cleaned, parent_of, path_joined, path_within};
use crate::text::has_prefix;
use crate::semantics::{closest_manifest, conditions_for, some_found, NodeResolver};
use crate::specifier::parsed_package_name;
use crate::urls::url_file_path;

verus! {

/// The name of a built-in module resolves to that module, whatever the
/// referrer, its kind and the mode are.
pub proof fn lemma_builtin_names_resolve_to_themselves<F: FileSystem, N: NpmResolver>(
    resolver: NodeResolver<F, N>,
    specifier: Seq<char>,
    referrer: Seq<char>,
    kind: NodeModuleKind,
    mode: NodeResolutionMode,
)
    requires
        is_builtin_name(specifier),
    ensures
        resolver.resolution_of(specifier, referrer, kind, mode) == Ok::<
            Option<NodeResolutionView>,
            ErrorView,
        >(Some(NodeResolutionView::BuiltIn(specifier))),
{
}

/// `fs` is the name of a built-in module.
pub proof fn lemma_fs_is_builtin()
    ensures
        is_builtin_name("fs"@),
{
}

/// A name that may not be looked up in an `imports` map is refused as an
/// invalid specifier, whatever the map holds and whether there is one at all.
pub proof fn lemma_invalid_import_names_are_refused<F: FileSystem, N: NpmResolver>(
    resolver: NodeResolver<F, N>,
    name: Seq<char>,
    referrer: Option<Seq<char>>,
    kind: NodeModuleKind,
    pkg: Option<PackageJsonView>,
    conditions: Seq<Seq<char>>,
    mode: NodeResolutionMode,
    depth: nat,
)
    requires
        NodeResolver::<F, N>::is_invalid_import_name(name),
    ensures
        resolver.imports_of(name, referrer, kind, pkg, conditions, mode, depth) is Err,
        resolver.imports_of(name, referrer, kind, pkg, conditions, mode, depth)->Err_0.kind
            == ErrorKind::InvalidModuleSpecifier,
{
}

/// The names `#`, `#/` and `#foo/` may not be looked up in an `imports` map.
pub proof fn lemma_invalid_import_names<F: FileSystem, N: NpmResolver>()
    ensures
        NodeResolver::<F, N>::is_invalid_import_name("#"@),
        NodeResolver::<F, N>::is_invalid_import_name("#/"@),
        NodeResolver::<F, N>::is_invalid_import_name("#foo/"@),
{
    reveal_strlit("#");
    reveal_strlit("#/");
    reveal_strlit("#foo/");
    reveal_strlit("/");
    assert("#/"@.subrange(0, 2) =~= "#/"@);
    assert("#foo/"@.subrange(4, 5) =~= "/"@);
}

/// A target of an `exports` map that begins with `../` is refused as an
/// invalid target, whatever is asked for.
pub proof fn lemma_escaping_target_is_refused<F: FileSystem, N: NpmResolver>(
    resolver: NodeResolver<F, N>,
    target: Seq<char>,
    subpath: Seq<char>,
    manifest_path: Seq<char>,
    referrer: Option<Seq<char>>,
    kind: NodeModuleKind,
    pattern: bool,
    conditions: Seq<Seq<char>>,
    mode: NodeResolutionMode,
    depth: nat,
)
    requires
        has_prefix(target, "../"@),
    ensures
        resolver.target_text_of(
            target,
            subpath,
            manifest_path,
            referrer,
            kind,
            pattern,
            false,
            conditions,
            mode,
            depth,
        ) == Err::<LocatedView, ErrorView>(
            full_error(ErrorKind::InvalidPackageTarget, target, Some(manifest_path), referrer),
        ),
{
    reveal_strlit("../");
    reveal_strlit("./");
    assert(target.subrange(0, 3)[1] == '.');
    if has_prefix(target, "./"@) {
        assert(target.subrange(0, 2)[1] == '/');
    }
}

/// Where the part of the request that a target is extended by holds a
/// `.`, `..` or `node_modules` segment, the target is refused as invalid
/// and no location is given.
pub proof fn lemma_climbing_subpath_is_refused<F: FileSystem, N: NpmResolver>(
    resolver: NodeResolver<F, N>,
    target: Seq<char>,
    subpath: Seq<char>,
    manifest_path: Seq<char>,
    referrer: Option<Seq<char>>,
    kind: NodeModuleKind,
    pattern: bool,
    conditions: Seq<Seq<char>>,
    mode: NodeResolutionMode,
    depth: nat,
)
    requires
        has_invalid_segment(subpath),
        subpath.len() > 0,
    ensures
        resolver.target_text_of(
            target,
            subpath,
            manifest_path,
            referrer,
            kind,
            pattern,
            false,
            conditions,
            mode,
            depth,
        ) == Err::<LocatedView, ErrorView>(
            full_error(ErrorKind::InvalidPackageTarget, target, Some(manifest_path), referrer),
        ),
{
}

/// A target of an `exports` map that is taken as it stands leads to a
/// place at or below the directory of the manifest.
pub proof fn lemma_plain_target_stays_inside<F: FileSystem, N: NpmResolver>(
    resolver: NodeResolver<F, N>,
    target: Seq<char>,
    manifest_path: Seq<char>,
    referrer: Option<Seq<char>>,
    kind: NodeModuleKind,
    pattern: bool,
    conditions: Seq<Seq<char>>,
    mode: NodeResolutionMode,
    depth: nat,
)
    requires
        resolver.target_text_of(
            target,
            Seq::empty(),
            manifest_path,
            referrer,
            kind,
            pattern,
            false,
            conditions,
            mode,
            depth,
        ) is Ok,
    ensures
        parent_of(manifest_path) is Some,
        resolver.target_text_of(
            target,
            Seq::empty(),
            manifest_path,
            referrer,
            kind,
            pattern,
            false,
            conditions,
            mode,
            depth,
        )->Ok_0 matches LocatedView::Path(p) && path_within(p, parent_of(manifest_path)->0),
{
}

/// What a declaration file search finds does not depend on the package locator.
pub proof fn lemma_declaration_ignores_locator<F: FileSystem, N: NpmResolver, M: NpmResolver>(
    a: NodeResolver<F, N>,
    b: NodeResolver<F, M>,
    path: Seq<char>,
    referrer: Option<Seq<char>>,
    kind: NodeModuleKind,
    depth: nat,
)
    requires
        a.fs == b.fs,
    ensures
        a.declaration_of(path, referrer, kind, depth) == b.declaration_of(
            path,
            referrer,
            kind,
            depth,
        ),
    decreases depth, 3nat, TargetView::Null,
{
    if depth > 0 {
        lemma_dir_subpath_ignores_locator(
            a,
            b,
            path,
            "."@,
            referrer,
            kind,
            conditions_for(kind),
            NodeResolutionMode::Types,
            (depth - 1) as nat,
        );
    }
}

/// What the `main` entry of a manifest leads to does not depend on the package locator.
pub proof fn lemma_legacy_main_ignores_locator<F: FileSystem, N: NpmResolver, M: NpmResolver>(
    a: NodeResolver<F, N>,
    b: NodeResolver<F, M>,
    pkg: PackageJsonView,
    referrer: Option<Seq<char>>,
    kind: NodeModuleKind,
    mode: NodeResolutionMode,
    depth: nat,
)
    requires
        a.fs == b.fs,
    ensures
        a.legacy_main_of(pkg, referrer, kind, mode, depth) == b.legacy_main_of(
            pkg,
            referrer,
            kind,
            mode,
            depth,
        ),
    decreases depth, 4nat, TargetView::Null,
{
    match parent_of(pkg.path) {
        Some(dir) => match main_entry(pkg, kind) {
            Some(m) => {
                lemma_declaration_ignores_locator(
                    a,
                    b,
                    cleaned(path_joined(dir, m)),
                    referrer,
                    kind,
                    depth,
                );
            },
            None => {},
        },
        None => {},
    }
}

/// What a subpath leads to in a directory does not depend on the package locator.
pub proof fn lemma_exact_subpath_ignores_locator<F: FileSystem, N: NpmResolver, M: NpmResolver>(
    a: NodeResolver<F, N>,
    b: NodeResolver<F, M>,
    dir: Seq<char>,
    subpath: Seq<char>,
    referrer: Option<Seq<char>>,
    kind: NodeModuleKind,
    mode: NodeResolutionMode,
    depth: nat,
)
    requires
        a.fs == b.fs,
    ensures
        a.exact_subpath_of(dir, subpath, referrer, kind, mode, depth) == b.exact_subpath_of(
            dir,
            subpath,
            referrer,
            kind,
            mode,
            depth,
        ),
    decreases depth, 4nat, TargetView::Null,
{
    lemma_declaration_ignores_locator(a, b, path_joined(dir, subpath), referrer, kind, depth);
}

/// What a target of an `exports` map leads to does not depend on the package locator.
pub proof fn lemma_target_ignores_locator<F: FileSystem, N: NpmResolver, M: NpmResolver>(
    a: NodeResolver<F, N>,
    b: NodeResolver<F, M>,
    target: TargetView,
    subpath: Seq<char>,
    matched: Seq<char>,
    manifest_path: Seq<char>,
    referrer: Option<Seq<char>>,
    kind: NodeModuleKind,
    pattern: bool,
    conditions: Seq<Seq<char>>,
    mode: NodeResolutionMode,
    depth: nat,
)
    requires
        a.fs == b.fs,
    ensures
        a.target_of(
            target,
            subpath,
            matched,
            manifest_path,
            referrer,
            kind,
            pattern,
            false,
            conditions,
            mode,
            depth,
        ) == b.target_of(
            target,
            subpath,
            matched,
            manifest_path,
            referrer,
            kind,
            pattern,
            false,
            conditions,
            mode,
            depth,
        ),
    decreases depth, 6nat, target,
{
    match target {
        TargetView::Text(text) => {
            let found = a.target_text_of(
                text,
                subpath,
                manifest_path,
                referrer,
                kind,
                pattern,
                false,
                conditions,
                mode,
                depth,
            );
            assert(found == b.target_text_of(
                text,
                subpath,
                manifest_path,
                referrer,
                kind,
                pattern,
                false,
                conditions,
                mode,
                depth,
            ));
            match found {
                Ok(LocatedView::Path(p)) => {
                    lemma_declaration_ignores_locator(a, b, p, referrer, kind, depth);
                },
                _ => {},
            }
        },
        TargetView::List(items) => {
            lemma_list_ignores_locator(
                a,
                b,
                items,
                0,
                subpath,
                matched,
                manifest_path,
                referrer,
                kind,
                pattern,
                conditions,
                mode,
                depth,
            );
        },
        TargetView::Table(entries) => {
            lemma_table_ignores_locator(
                a,
                b,
                entries,
                0,
                subpath,
                matched,
                manifest_path,
                referrer,
                kind,
                pattern,
                conditions,
                mode,
                depth,
            );
        },
        _ => {},
    }
}

/// What the items of an array lead to does not depend on the package locator.
pub proof fn lemma_list_ignores_locator<F: FileSystem, N: NpmResolver, M: NpmResolver>(
    a: NodeResolver<F, N>,
    b: NodeResolver<F, M>,
    items: Seq<TargetView>,
    i: int,
    subpath: Seq<char>,
    matched: Seq<char>,
    manifest_path: Seq<char>,
    referrer: Option<Seq<char>>,
    kind: NodeModuleKind,
    pattern: bool,
    conditions: Seq<Seq<char>>,
    mode: NodeResolutionMode,
    depth: nat,
)
    requires
        a.fs == b.fs,
    ensures
        a.list_of(
            items,
            i,
            subpath,
            matched,
            manifest_path,
            referrer,
            kind,
            pattern,
            false,
            conditions,
            mode,
            depth,
        ) == b.list_of(
            items,
            i,
            subpath,
            matched,
            manifest_path,
            referrer,
            kind,
            pattern,
            false,
            conditions,
            mode,
            depth,
        ),
    decreases depth, 6nat, items, items.len() - i,
{
    if 0 <= i < items.len() {
        lemma_target_ignores_locator(
            a,
            b,
            items[i],
            subpath,
            matched,
            manifest_path,
            referrer,
            kind,
            pattern,
            conditions,
            mode,
            depth,
        );
        lemma_list_ignores_locator(
            a,
            b,
            items,
            i + 1,
            subpath,
            matched,
            manifest_path,
            referrer,
            kind,
            pattern,
            conditions,
            mode,
            depth,
        );
    }
}

/// What the entries of an object lead to does not depend on the package locator.
pub proof fn lemma_table_ignores_locator<F: FileSystem, N: NpmResolver, M: NpmResolver>(
    a: NodeResolver<F, N>,
    b: NodeResolver<F, M>,
    entries: Seq<(Seq<char>, TargetView)>,
    i: int,
    subpath: Seq<char>,
    matched: Seq<char>,
    manifest_path: Seq<char>,
    referrer: Option<Seq<char>>,
    kind: NodeModuleKind,
    pattern: bool,
    conditions: Seq<Seq<char>>,
    mode: NodeResolutionMode,
    depth: nat,
)
    requires
        a.fs == b.fs,
    ensures
        a.table_of(
            entries,
            i,
            subpath,
            matched,
            manifest_path,
            referrer,
            kind,
            pattern,
            false,
            conditions,
            mode,
            depth,
        ) == b.table_of(
            entries,
            i,
            subpath,
            matched,
            manifest_path,
            referrer,
            kind,
            pattern,
            false,
            conditions,
            mode,
            depth,
        ),
    decreases depth, 6nat, entries, entries.len() - i,
{
    if 0 <= i < entries.len() {
        lemma_target_ignores_locator(
            a,
            b,
            entries[i].1,
            subpath,
            matched,
            manifest_path,
            referrer,
            kind,
            pattern,
            conditions,
            mode,
            depth,
        );
        lemma_table_ignores_locator(
            a,
            b,
            entries,
            i + 1,
            subpath,
            matched,
            manifest_path,
            referrer,
            kind,
            pattern,
            conditions,
            mode,
            depth,
        );
    }
}

/// What a subpath leads to by an `exports` map does not depend on the package locator.
pub proof fn lemma_exports_ignore_locator<F: FileSystem, N: NpmResolver, M: NpmResolver>(
    a: NodeResolver<F, N>,
    b: NodeResolver<F, M>,
    manifest_path: Seq<char>,
    subpath: Seq<char>,
    exports: Seq<(Seq<char>, TargetView)>,
    referrer: Option<Seq<char>>,
    kind: NodeModuleKind,
    conditions: Seq<Seq<char>>,
    mode: NodeResolutionMode,
    depth: nat,
)
    requires
        a.fs == b.fs,
    ensures
        a.exports_of(manifest_path, subpath, exports, referrer, kind, conditions, mode, depth)
            == b.exports_of(
            manifest_path,
            subpath,
            exports,
            referrer,
            kind,
            conditions,
            mode,
            depth,
        ),
    decreases depth, 8nat, TargetView::Null,
{
    let exact = entry_index(exports, subpath);
    let best = best_match(exports, subpath);
    if exact is Some {
        lemma_target_ignores_locator(
            a,
            b,
            exports[exact->0].1,
            Seq::empty(),
            subpath,
            manifest_path,
            referrer,
            kind,
            false,
            conditions,
            mode,
            depth,
        );
    }
    if best is Some {
        lemma_target_ignores_locator(
            a,
            b,
            exports[best->0].1,
            matched_part(exports[best->0].0, subpath),
            exports[best->0].0,
            manifest_path,
            referrer,
            kind,
            true,
            conditions,
            mode,
            depth,
        );
    }
}

/// What a subpath leads to in the package of a manifest does not depend on the package locator.
pub proof fn lemma_package_subpath_ignores_locator<
    F: FileSystem,
    N: NpmResolver,
    M: NpmResolver,
>(
    a: NodeResolver<F, N>,
    b: NodeResolver<F, M>,
    pkg: PackageJsonView,
    subpath: Seq<char>,
    referrer: Option<Seq<char>>,
    kind: NodeModuleKind,
    conditions: Seq<Seq<char>>,
    mode: NodeResolutionMode,
    depth: nat,
)
    requires
        a.fs == b.fs,
    ensures
        a.package_subpath_of(pkg, subpath, referrer, kind, conditions, mode, depth)
            == b.package_subpath_of(pkg, subpath, referrer, kind, conditions, mode, depth),
    decreases depth, 9nat, TargetView::Null,
{
    if pkg.exports is Some {
        lemma_exports_ignore_locator(
            a,
            b,
            pkg.path,
            subpath,
            pkg.exports->0,
            referrer,
            kind,
            conditions,
            mode,
            depth,
        );
    }
    lemma_legacy_main_ignores_locator(a, b, pkg, referrer, kind, mode, depth);
    match parent_of(pkg.path) {
        Some(dir) => {
            lemma_exact_subpath_ignores_locator(a, b, dir, subpath, referrer, kind, mode, depth);
        },
        None => {},
    }
}

/// What a subpath leads to in a package directory does not depend on the package locator.
pub proof fn lemma_dir_subpath_ignores_locator<F: FileSystem, N: NpmResolver, M: NpmResolver>(
    a: NodeResolver<F, N>,
    b: NodeResolver<F, M>,
    dir: Seq<char>,
    subpath: Seq<char>,
    referrer: Option<Seq<char>>,
    kind: NodeModuleKind,
    conditions: Seq<Seq<char>>,
    mode: NodeResolutionMode,
    depth: nat,
)
    requires
        a.fs == b.fs,
    ensures
        a.dir_subpath_of(dir, subpath, referrer, kind, conditions, mode, depth)
            == b.dir_subpath_of(dir, subpath, referrer, kind, conditions, mode, depth),
    decreases depth, 10nat, TargetView::Null,
{
    match a.fs.manifest_at(path_joined(dir, "package.json"@)) {
        Ok(Some(pkg)) => {
            lemma_package_subpath_ignores_locator(
                a,
                b,
                pkg,
                subpath,
                referrer,
                kind,
                conditions,
                mode,
                depth,
            );
        },
        Ok(None) => {
            lemma_exact_subpath_ignores_locator(a, b, dir, subpath, referrer, kind, mode, depth);
        },
        Err(_) => {},
    }
}

/// A package that names itself in a bare specifier is resolved by its own
/// `exports` map, and the package locator has no part in it: with another
/// locator over the same file system the specifier resolves alike.
pub proof fn lemma_self_reference_ignores_locator<F: FileSystem, N: NpmResolver, M: NpmResolver>(
    a: NodeResolver<F, N>,
    b: NodeResolver<F, M>,
    specifier: Seq<char>,
    referrer: Seq<char>,
    kind: NodeModuleKind,
    conditions: Seq<Seq<char>>,
    mode: NodeResolutionMode,
    depth: nat,
)
    requires
        a.fs == b.fs,
        parsed_package_name(specifier, referrer) is Ok,
        closest_manifest(a.fs, url_file_path(referrer)) matches Ok(Some(pkg)) && pkg.name == Some(
            parsed_package_name(specifier, referrer)->Ok_0.0,
        ) && pkg.exports is Some,
    ensures
        a.package_of(specifier, referrer, kind, conditions, mode, depth) == b.package_of(
            specifier,
            referrer,
            kind,
            conditions,
            mode,
            depth,
        ),
        ({
            let pkg = closest_manifest(a.fs, url_file_path(referrer))->Ok_0->0;
            a.package_of(specifier, referrer, kind, conditions, mode, depth) == some_found(
                a.exports_of(
                    pkg.path,
                    parsed_package_name(specifier, referrer)->Ok_0.1,
                    pkg.exports->0,
                    Some(referrer),
                    kind,
                    conditions,
                    mode,
                    depth,
                ),
            )
        }),
{
    let pkg = closest_manifest(a.fs, url_file_path(referrer))->Ok_0->0;
    lemma_exports_ignore_locator(
        a,
        b,
        pkg.path,
        parsed_package_name(specifier, referrer)->Ok_0.1,
        pkg.exports->0,
        Some(referrer),
        kind,
        conditions,
        mode,
        depth,
    );
}

} // verus!
