use node_resolution::env::NpmResolver;
use node_resolution::errors::{ErrorKind, NodeResolveError};
use node_resolution::memory_fs::MemoryFs;
use node_resolution::model::{
    Located, NodeModuleKind, NodeResolution, NodeResolutionMode, PackageJson, Target,
};
use node_resolution::semantics::NodeResolver;

/// A package locator that must not be asked.
struct Unused;

impl NpmResolver for Unused {
    fn resolve_package_folder_from_package(
        &self,
        name: &str,
        _referrer: &str,
    ) -> Result<String, NodeResolveError> {
        panic!("the package locator was asked for {name}")
    }

    fn in_npm_package(&self, _specifier: &str) -> bool {
        false
    }
}

/// A package locator that knows a fixed set of package directories.
struct Fixed {
    packages: Vec<(String, String)>,
    all_inside: bool,
}

impl NpmResolver for Fixed {
    fn resolve_package_folder_from_package(
        &self,
        name: &str,
        referrer: &str,
    ) -> Result<String, NodeResolveError> {
        for (n, dir) in &self.packages {
            if n == name {
                return Ok(dir.clone());
            }
        }
        Err(NodeResolveError {
            kind: ErrorKind::NotFoundPackage,
            request: name.to_string(),
            package_json_path: None,
            referrer: Some(referrer.to_string()),
        })
    }

    fn in_npm_package(&self, _specifier: &str) -> bool {
        self.all_inside
    }
}

fn fixed(packages: &[(&str, &str)]) -> Fixed {
    Fixed {
        packages: packages.iter().map(|(n, d)| (n.to_string(), d.to_string())).collect(),
        all_inside: false,
    }
}

fn manifest(path: &str) -> PackageJson {
    PackageJson {
        path: path.to_string(),
        name: None,
        version: None,
        main: None,
        module: None,
        typ: "none".to_string(),
        types: None,
        exports: None,
        imports: None,
        bin: None,
    }
}

fn text(s: &str) -> Target {
    Target::Text(s.to_string())
}

fn table(entries: &[(&str, Target)]) -> Vec<(String, Target)> {
    let mut out = Vec::new();
    for (k, v) in entries {
        out.push((k.to_string(), v.duplicate()));
    }
    out
}

fn esm_conditions() -> Vec<String> {
    vec!["deno".to_string(), "node".to_string(), "import".to_string()]
}

fn cjs_conditions() -> Vec<String> {
    vec!["require".to_string(), "node".to_string()]
}

/// Puts a directory and every directory above it.
fn put_dir(fs: &mut MemoryFs, path: &str) {
    let mut at = String::new();
    for part in path.split('/').filter(|p| !p.is_empty()) {
        at.push('/');
        at.push_str(part);
        if !fs.dirs.contains(&at) {
            fs.add_dir(&at);
        }
    }
}

/// Puts a file and every directory above it.
fn put_file(fs: &mut MemoryFs, path: &str) {
    let dir = &path[..path.rfind('/').unwrap()];
    put_dir(fs, dir);
    fs.add_file(path);
}

fn project() -> MemoryFs {
    let mut fs = MemoryFs::new();
    fs.add_dir("/");
    for file in [
        "/proj/a.js",
        "/proj/b.js",
        "/proj/c.mjs",
        "/proj/d.cjs",
        "/proj/e.ts",
        "/proj/data.json",
        "/proj/src/dep.js",
        "/proj/src/internal/x.js",
    ] {
        put_file(&mut fs, file);
    }
    fs
}

fn path(p: &str) -> Located {
    Located::Path(p.to_string())
}

#[test]
fn exports_exact_key_and_missing_key() {
    let fs = project();
    let npm = Unused;
    let resolver = NodeResolver::new(&fs, &npm);
    let exports = table(&[(".", text("./index.js")), ("./util", text("./lib/util.js"))]);
    let got = resolver.package_exports_resolve(
        "/pkg/package.json",
        "./util",
        &exports,
        None,
        NodeModuleKind::Esm,
        &esm_conditions(),
        NodeResolutionMode::Execution,
    );
    assert_eq!(got, Ok(path("/pkg/lib/util.js")));
    let root = resolver.package_exports_resolve(
        "/pkg/package.json",
        ".",
        &exports,
        None,
        NodeModuleKind::Esm,
        &esm_conditions(),
        NodeResolutionMode::Execution,
    );
    assert_eq!(root, Ok(path("/pkg/index.js")));
    let missing = resolver
        .package_exports_resolve(
            "/pkg/package.json",
            "./missing",
            &exports,
            Some("file:///proj/a.js"),
            NodeModuleKind::Esm,
            &esm_conditions(),
            NodeResolutionMode::Execution,
        )
        .unwrap_err();
    assert_eq!(missing.kind, ErrorKind::PackagePathNotExported);
    assert_eq!(missing.request, "./missing");
    assert_eq!(missing.package_json_path.as_deref(), Some("/pkg/package.json"));
    assert_eq!(missing.referrer.as_deref(), Some("file:///proj/a.js"));
}

#[test]
fn exports_pattern_and_escaping_target() {
    let fs = project();
    let npm = Unused;
    let resolver = NodeResolver::new(&fs, &npm);
    let exports = table(&[("./feature/*.js", text("./dist/feature/*.js"))]);
    let got = resolver.package_exports_resolve(
        "/pkg/package.json",
        "./feature/foo.js",
        &exports,
        None,
        NodeModuleKind::Esm,
        &esm_conditions(),
        NodeResolutionMode::Execution,
    );
    assert_eq!(got, Ok(path("/pkg/dist/feature/foo.js")));
    // a single character is enough for the wildcard
    let short = resolver.package_exports_resolve(
        "/pkg/package.json",
        "./feature/a.js",
        &exports,
        None,
        NodeModuleKind::Esm,
        &esm_conditions(),
        NodeResolutionMode::Execution,
    );
    assert_eq!(short, Ok(path("/pkg/dist/feature/a.js")));
    for bad in ["../escape", "./../escape", "./a/../../escape", "./node_modules/x", "/abs", "bare"] {
        let exports = table(&[(".", text(bad))]);
        let err = resolver
            .package_exports_resolve(
                "/pkg/package.json",
                ".",
                &exports,
                None,
                NodeModuleKind::Esm,
                &esm_conditions(),
                NodeResolutionMode::Execution,
            )
            .unwrap_err();
        assert_eq!(err.kind, ErrorKind::InvalidPackageTarget, "{bad}");
    }
    // what the wildcard stands for may not climb either
    let err = resolver
        .package_exports_resolve(
            "/pkg/package.json",
            "./feature/../x.js",
            &exports,
            None,
            NodeModuleKind::Esm,
            &esm_conditions(),
            NodeResolutionMode::Execution,
        )
        .unwrap_err();
    assert_eq!(err.kind, ErrorKind::InvalidPackageTarget);
    assert_eq!(err.request, "./dist/feature/*.js");
    assert_eq!(err.package_json_path.as_deref(), Some("/pkg/package.json"));
    // nor may it climb out by more than it went in
    let climbing = table(&[("./feature/*.js", text("./dist/*.js"))]);
    for subpath in ["./feature/../../secret.js", "./feature/node_modules/x.js", "./feature/./x.js"] {
        let err = resolver
            .package_exports_resolve(
                "/pkg/package.json",
                subpath,
                &climbing,
                None,
                NodeModuleKind::Esm,
                &esm_conditions(),
                NodeResolutionMode::Execution,
            )
            .unwrap_err();
        assert_eq!(err.kind, ErrorKind::InvalidPackageTarget, "{subpath}");
        assert_eq!(err.request, "./dist/*.js");
    }
}

#[test]
fn the_most_specific_pattern_wins() {
    let fs = project();
    let npm = Unused;
    let resolver = NodeResolver::new(&fs, &npm);
    let exports = table(&[
        ("./*", text("./any/*")),
        ("./a/*", text("./deep/*")),
        ("./a/*.js", text("./script/*.js")),
        ("./a/b.js", text("./exact.js")),
    ]);
    let resolve = |subpath: &str| {
        resolver.package_exports_resolve(
            "/pkg/package.json",
            subpath,
            &exports,
            None,
            NodeModuleKind::Esm,
            &esm_conditions(),
            NodeResolutionMode::Execution,
        )
    };
    assert_eq!(resolve("./a/b.js"), Ok(path("/pkg/exact.js")));
    assert_eq!(resolve("./a/c.js"), Ok(path("/pkg/script/c.js")));
    assert_eq!(resolve("./a/c.ts"), Ok(path("/pkg/deep/c.ts")));
    assert_eq!(resolve("./z"), Ok(path("/pkg/any/z")));
}

#[test]
fn conditional_targets() {
    let fs = project();
    let npm = Unused;
    let resolver = NodeResolver::new(&fs, &npm);
    let conditional = Target::Table(table(&[
        ("require", text("./cjs.js")),
        ("import", text("./esm.js")),
        ("default", text("./default.js")),
    ]));
    let exports = table(&[(".", conditional)]);
    let esm = resolver.package_exports_resolve(
        "/pkg/package.json",
        ".",
        &exports,
        None,
        NodeModuleKind::Esm,
        &esm_conditions(),
        NodeResolutionMode::Execution,
    );
    assert_eq!(esm, Ok(path("/pkg/esm.js")));
    let cjs = resolver.package_exports_resolve(
        "/pkg/package.json",
        ".",
        &exports,
        None,
        NodeModuleKind::Cjs,
        &cjs_conditions(),
        NodeResolutionMode::Execution,
    );
    assert_eq!(cjs, Ok(path("/pkg/cjs.js")));
    let other = resolver.package_exports_resolve(
        "/pkg/package.json",
        ".",
        &exports,
        None,
        NodeModuleKind::Esm,
        &vec!["browser".to_string()],
        NodeResolutionMode::Execution,
    );
    assert_eq!(other, Ok(path("/pkg/default.js")));
    // the first key that applies decides, even where it gives nothing
    let nothing_first = table(&[(
        ".",
        Target::Table(table(&[("import", Target::Null), ("default", text("./default.js"))])),
    )]);
    let err = resolver
        .package_exports_resolve(
            "/pkg/package.json",
            ".",
            &nothing_first,
            None,
            NodeModuleKind::Esm,
            &esm_conditions(),
            NodeResolutionMode::Execution,
        )
        .unwrap_err();
    assert_eq!(err.kind, ErrorKind::PackagePathNotExported);
    // an object none of whose keys applies is no valid target
    let no_key = table(&[(".", Target::Table(table(&[("browser", text("./b.js"))])))]);
    let err = resolver
        .package_exports_resolve(
            "/pkg/package.json",
            ".",
            &no_key,
            None,
            NodeModuleKind::Esm,
            &esm_conditions(),
            NodeResolutionMode::Execution,
        )
        .unwrap_err();
    assert_eq!(err.kind, ErrorKind::InvalidPackageTarget);
}

#[test]
fn array_targets() {
    let fs = project();
    let npm = Unused;
    let resolver = NodeResolver::new(&fs, &npm);
    let resolve = |target: Target| {
        let exports = table(&[(".", target)]);
        resolver.package_exports_resolve(
            "/pkg/package.json",
            ".",
            &exports,
            None,
            NodeModuleKind::Esm,
            &esm_conditions(),
            NodeResolutionMode::Execution,
        )
    };
    // invalid targets and nulls are passed over
    assert_eq!(
        resolve(Target::List(vec![text("bare"), Target::Null, text("./ok.js"), text("./late.js")])),
        Ok(path("/pkg/ok.js"))
    );
    // nothing left: no resolution, which an exports map tells as not exported
    for empty in [
        Target::List(vec![]),
        Target::List(vec![Target::Null]),
        Target::List(vec![text("bare")]),
        Target::List(vec![Target::Null, text("../up")]),
        Target::Null,
    ] {
        assert_eq!(resolve(empty).unwrap_err().kind, ErrorKind::PackagePathNotExported);
    }
    assert_eq!(resolve(Target::Other).unwrap_err().kind, ErrorKind::InvalidPackageTarget);
}

#[test]
fn builtin_names_resolve_whatever_the_referrer() {
    let fs = MemoryFs::new();
    let npm = Unused;
    let resolver = NodeResolver::new(&fs, &npm);
    for referrer in ["file:///proj/a.js", "https://example.com/x.js", "data:text/javascript,1", "not a url"] {
        for kind in [NodeModuleKind::Esm, NodeModuleKind::Cjs] {
            for mode in [NodeResolutionMode::Execution, NodeResolutionMode::Types] {
                assert_eq!(
                    resolver.resolve("fs", referrer, kind, mode),
                    Ok(Some(NodeResolution::BuiltIn("fs".to_string())))
                );
            }
        }
    }
    assert_eq!(
        resolver.resolve(
            "node:path",
            "file:///proj/a.js",
            NodeModuleKind::Esm,
            NodeResolutionMode::Execution
        ),
        Ok(Some(NodeResolution::BuiltIn("path".to_string())))
    );
    assert_eq!(
        resolver.resolve(
            "fs/promises",
            "file:///proj/a.js",
            NodeModuleKind::Cjs,
            NodeResolutionMode::Execution
        ),
        Ok(Some(NodeResolution::BuiltIn("fs/promises".to_string())))
    );
}

#[test]
fn a_package_resolves_itself_by_its_own_exports() {
    let mut fs = project();
    let mut own = manifest("/proj/package.json");
    own.name = Some("self".to_string());
    own.exports = Some(table(&[(".", text("./a.js")), ("./b", text("./b.js"))]));
    fs.add_manifest(own);
    let npm = Unused;
    let resolver = NodeResolver::new(&fs, &npm);
    assert_eq!(
        resolver.resolve(
            "self",
            "file:///proj/src/dep.js",
            NodeModuleKind::Esm,
            NodeResolutionMode::Execution
        ),
        Ok(Some(NodeResolution::CommonJs("file:///proj/a.js".to_string())))
    );
    assert_eq!(
        resolver.resolve(
            "self/b",
            "file:///proj/a.js",
            NodeModuleKind::Esm,
            NodeResolutionMode::Execution
        ),
        Ok(Some(NodeResolution::CommonJs("file:///proj/b.js".to_string())))
    );
    let err = resolver
        .resolve(
            "self/other",
            "file:///proj/a.js",
            NodeModuleKind::Esm,
            NodeResolutionMode::Execution,
        )
        .unwrap_err();
    assert_eq!(err.kind, ErrorKind::PackagePathNotExported);
}

#[test]
fn invalid_import_names_are_rejected_before_the_map_is_read() {
    let fs = project();
    let npm = Unused;
    let resolver = NodeResolver::new(&fs, &npm);
    let mut pkg = manifest("/proj/package.json");
    pkg.imports = Some(table(&[
        ("#", text("./a.js")),
        ("#/", text("./a.js")),
        ("#/x", text("./a.js")),
        ("#foo/", text("./a.js")),
        ("#*", text("./a.js")),
    ]));
    for name in ["#", "#/", "#/x", "#foo/"] {
        for pkg in [None, Some(&pkg)] {
            let err = resolver
                .package_imports_resolve(
                    name,
                    Some("file:///proj/a.js"),
                    NodeModuleKind::Esm,
                    pkg,
                    &esm_conditions(),
                    NodeResolutionMode::Execution,
                )
                .unwrap_err();
            assert_eq!(err.kind, ErrorKind::InvalidModuleSpecifier, "{name}");
            assert_eq!(err.request, name);
        }
    }
}

#[test]
fn imports_map() {
    let mut fs = project();
    let mut own = manifest("/proj/package.json");
    own.typ = "module".to_string();
    own.imports = Some(table(&[
        ("#dep", text("./src/dep.js")),
        ("#internal/*", text("./src/internal/*.js")),
        ("#fs", text("fs")),
        ("#node", text("node:path")),
        ("#pkg", text("pkg")),
    ]));
    fs.add_manifest(own);
    put_file(&mut fs, "/store/pkg/index.js");
    let npm = fixed(&[("pkg", "/store/pkg")]);
    let resolver = NodeResolver::new(&fs, &npm);
    let resolve = |specifier: &str| {
        resolver.resolve(
            specifier,
            "file:///proj/a.js",
            NodeModuleKind::Esm,
            NodeResolutionMode::Execution,
        )
    };
    assert_eq!(
        resolve("#dep"),
        Ok(Some(NodeResolution::Esm("file:///proj/src/dep.js".to_string())))
    );
    assert_eq!(
        resolve("#internal/x"),
        Ok(Some(NodeResolution::Esm("file:///proj/src/internal/x.js".to_string())))
    );
    // a package named by the target is looked up from the manifest
    assert_eq!(
        resolve("#pkg"),
        Ok(Some(NodeResolution::Esm("file:///store/pkg/index.js".to_string())))
    );
    // no package `fs` is installed, but a module of that name is built in
    assert_eq!(
        resolve("#fs"),
        Ok(Some(NodeResolution::CommonJs("node:fs".to_string())))
    );
    assert_eq!(
        resolve("#node"),
        Ok(Some(NodeResolution::CommonJs("node:path".to_string())))
    );
    let err = resolve("#other").unwrap_err();
    assert_eq!(err.kind, ErrorKind::PackageImportNotDefined);
    assert_eq!(err.package_json_path.as_deref(), Some("/proj/package.json"));
}

#[test]
fn relative_specifiers_and_module_kinds() {
    let mut fs = project();
    let npm = Unused;
    {
        let resolver = NodeResolver::new(&fs, &npm);
        let resolve = |specifier: &str| {
            resolver.resolve(
                specifier,
                "file:///proj/a.js",
                NodeModuleKind::Esm,
                NodeResolutionMode::Execution,
            )
        };
        // no manifest anywhere: a script is an ES module
        assert_eq!(resolve("./b.js"), Ok(Some(NodeResolution::Esm("file:///proj/b.js".to_string()))));
        assert_eq!(resolve("/proj/b.js"), Ok(Some(NodeResolution::Esm("file:///proj/b.js".to_string()))));
        assert_eq!(resolve("./src/../b.js"), Ok(Some(NodeResolution::Esm("file:///proj/b.js".to_string()))));
        assert_eq!(resolve("./c.mjs"), Ok(Some(NodeResolution::Esm("file:///proj/c.mjs".to_string()))));
        assert_eq!(resolve("./d.cjs"), Ok(Some(NodeResolution::CommonJs("file:///proj/d.cjs".to_string()))));
        assert_eq!(resolve("./e.ts"), Ok(Some(NodeResolution::Esm("file:///proj/e.ts".to_string()))));
        assert_eq!(resolve("./data.json"), Ok(Some(NodeResolution::Esm("file:///proj/data.json".to_string()))));
        assert_eq!(resolve("file:///proj/b.js"), Ok(Some(NodeResolution::Esm("file:///proj/b.js".to_string()))));
    }
    fs.add_manifest(manifest("/proj/package.json"));
    {
        let resolver = NodeResolver::new(&fs, &npm);
        assert_eq!(
            resolver.resolve(
                "./b.js",
                "file:///proj/a.js",
                NodeModuleKind::Esm,
                NodeResolutionMode::Execution
            ),
            Ok(Some(NodeResolution::CommonJs("file:///proj/b.js".to_string())))
        );
        assert_eq!(
            resolver.url_to_node_resolution("file:///proj/src/dep.js"),
            Ok(NodeResolution::CommonJs("file:///proj/src/dep.js".to_string()))
        );
        assert_eq!(
            resolver.url_to_node_resolution("https://example.com/x"),
            Ok(NodeResolution::Esm("https://example.com/x".to_string()))
        );
    }
    let mut inner = manifest("/proj/src/package.json");
    inner.typ = "module".to_string();
    fs.add_manifest(inner);
    let resolver = NodeResolver::new(&fs, &npm);
    assert_eq!(
        resolver.url_to_node_resolution("file:///proj/src/dep.js"),
        Ok(NodeResolution::Esm("file:///proj/src/dep.js".to_string()))
    );
    let closest = resolver.get_closest_package_json("file:///proj/src/internal/x.js").unwrap();
    assert_eq!(closest.unwrap().path, "/proj/src/package.json");
    let closest = resolver.get_closest_package_json_from_path("/proj/a.js").unwrap();
    assert_eq!(closest.unwrap().path, "/proj/package.json");
    assert!(resolver.get_closest_package_json("https://example.com/x.js").unwrap().is_none());
}

#[test]
fn failures_of_finalization() {
    let fs = project();
    let npm = Unused;
    let resolver = NodeResolver::new(&fs, &npm);
    let resolve = |specifier: &str| {
        resolver
            .resolve(
                specifier,
                "file:///proj/a.js",
                NodeModuleKind::Esm,
                NodeResolutionMode::Execution,
            )
            .unwrap_err()
    };
    let missing = resolve("./missing.js");
    assert_eq!(missing.kind, ErrorKind::ModuleNotFound);
    assert_eq!(missing.request, "file:///proj/missing.js");
    assert_eq!(missing.referrer.as_deref(), Some("file:///proj/a.js"));
    assert_eq!(resolve("./src").kind, ErrorKind::UnsupportedDirImport);
    assert_eq!(resolve("./src/").kind, ErrorKind::UnsupportedDirImport);
    assert_eq!(resolve("./a%2Fb.js").kind, ErrorKind::InvalidModuleSpecifier);
    assert_eq!(resolve("./a%2Cb.js").kind, ErrorKind::InvalidModuleSpecifier);
    let scheme = resolve("https://example.com/x.js");
    assert_eq!(scheme.kind, ErrorKind::UnsupportedEsmUrlScheme);
    assert_eq!(scheme.request, "https");
}

#[test]
fn data_urls() {
    let fs = project();
    let npm = Unused;
    let resolver = NodeResolver::new(&fs, &npm);
    assert_eq!(
        resolver.resolve(
            "data:text/javascript,export default 1",
            "file:///proj/a.js",
            NodeModuleKind::Esm,
            NodeResolutionMode::Execution
        ),
        Ok(Some(NodeResolution::Esm("data:text/javascript,export default 1".to_string())))
    );
    // from a `data:` referrer the specifier is joined onto the referrer
    assert_eq!(
        resolver.resolve(
            "file:///proj/b.js",
            "data:text/javascript,1",
            NodeModuleKind::Esm,
            NodeResolutionMode::Execution
        ),
        Ok(Some(NodeResolution::Esm("file:///proj/b.js".to_string())))
    );
    assert_eq!(
        resolver.resolve(
            "data:text/javascript,2",
            "data:text/javascript,1",
            NodeModuleKind::Esm,
            NodeResolutionMode::Execution
        ),
        Ok(Some(NodeResolution::Esm("data:text/javascript,2".to_string())))
    );
}

fn store() -> MemoryFs {
    let mut fs = project();
    fs.add_manifest(manifest("/proj/package.json"));
    // a package with a main entry
    let mut plain = manifest("/store/plain/package.json");
    plain.name = Some("plain".to_string());
    plain.main = Some(" lib/main ".to_string());
    fs.add_manifest(plain);
    put_file(&mut fs, "/store/plain/lib/main.js");
    put_file(&mut fs, "/store/plain/lib/main.d.ts");
    put_file(&mut fs, "/store/plain/other.js");
    // a package with exports
    let mut modern = manifest("/store/modern/package.json");
    modern.name = Some("modern".to_string());
    modern.typ = "module".to_string();
    modern.exports = Some(table(&[
        (
            ".",
            Target::Table(table(&[
                ("types", text("./types/index.d.ts")),
                ("import", text("./esm/index.js")),
                ("require", text("./cjs/index.js")),
            ])),
        ),
        ("./sub/*", text("./esm/sub/*.js")),
    ]));
    fs.add_manifest(modern);
    put_file(&mut fs, "/store/modern/esm/index.js");
    put_file(&mut fs, "/store/modern/cjs/index.js");
    put_file(&mut fs, "/store/modern/types/index.d.ts");
    put_file(&mut fs, "/store/modern/esm/sub/x.js");
    // a package without a manifest
    put_file(&mut fs, "/store/bare/index.js");
    put_file(&mut fs, "/store/bare/tool.js");
    // a package whose types live in a package of their own
    let mut untyped = manifest("/store/untyped/package.json");
    untyped.main = Some("index.js".to_string());
    fs.add_manifest(untyped);
    put_file(&mut fs, "/store/untyped/index.js");
    let mut types = manifest("/store/types-untyped/package.json");
    types.types = Some("index.d.ts".to_string());
    fs.add_manifest(types);
    put_file(&mut fs, "/store/types-untyped/index.d.ts");
    fs
}

fn locator() -> Fixed {
    fixed(&[
        ("plain", "/store/plain"),
        ("modern", "/store/modern"),
        ("bare", "/store/bare"),
        ("untyped", "/store/untyped"),
        ("@types/untyped", "/store/types-untyped"),
        ("@scope/pkg", "/store/plain"),
    ])
}

#[test]
fn bare_specifiers() {
    let fs = store();
    let npm = locator();
    let resolver = NodeResolver::new(&fs, &npm);
    let resolve = |specifier: &str, kind: NodeModuleKind| {
        resolver.resolve(specifier, "file:///proj/a.js", kind, NodeResolutionMode::Execution)
    };
    let esm = |u: &str| Ok(Some(NodeResolution::Esm(u.to_string())));
    let cjs = |u: &str| Ok(Some(NodeResolution::CommonJs(u.to_string())));
    // main, trimmed, with `.js` added
    assert_eq!(resolve("plain", NodeModuleKind::Esm), cjs("file:///store/plain/lib/main.js"));
    assert_eq!(resolve("@scope/pkg", NodeModuleKind::Esm), cjs("file:///store/plain/lib/main.js"));
    // a subpath of a package without exports is taken as it stands
    assert_eq!(resolve("plain/other.js", NodeModuleKind::Esm), cjs("file:///store/plain/other.js"));
    assert_eq!(
        resolve("plain/missing.js", NodeModuleKind::Esm).unwrap_err().kind,
        ErrorKind::ModuleNotFound
    );
    // exports by condition
    assert_eq!(resolve("modern", NodeModuleKind::Esm), esm("file:///store/modern/esm/index.js"));
    assert_eq!(resolve("modern", NodeModuleKind::Cjs), esm("file:///store/modern/cjs/index.js"));
    assert_eq!(resolve("modern/sub/x", NodeModuleKind::Esm), esm("file:///store/modern/esm/sub/x.js"));
    assert_eq!(
        resolve("modern/esm/index.js", NodeModuleKind::Esm).unwrap_err().kind,
        ErrorKind::PackagePathNotExported
    );
    // no manifest: the index file
    assert_eq!(resolve("bare", NodeModuleKind::Esm), esm("file:///store/bare/index.js"));
    assert_eq!(resolve("bare/tool.js", NodeModuleKind::Esm), esm("file:///store/bare/tool.js"));
    // not installed
    assert_eq!(
        resolve("unknown", NodeModuleKind::Esm).unwrap_err().kind,
        ErrorKind::NotFoundPackage
    );
    assert_eq!(
        resolve("@scope", NodeModuleKind::Esm).unwrap_err().kind,
        ErrorKind::InvalidModuleSpecifier
    );
}

#[test]
fn type_declarations() {
    let fs = store();
    let npm = locator();
    let resolver = NodeResolver::new(&fs, &npm);
    let resolve = |specifier: &str| {
        resolver.resolve(
            specifier,
            "file:///proj/a.js",
            NodeModuleKind::Esm,
            NodeResolutionMode::Types,
        )
    };
    let esm = |u: &str| Ok(Some(NodeResolution::Esm(u.to_string())));
    let cjs = |u: &str| Ok(Some(NodeResolution::CommonJs(u.to_string())));
    // the declaration file beside the main entry
    assert_eq!(resolve("plain"), cjs("file:///store/plain/lib/main.d.ts"));
    // the `types` condition comes first
    assert_eq!(resolve("modern"), esm("file:///store/modern/types/index.d.ts"));
    // the package itself has no declarations: its `@types` package is asked
    assert_eq!(resolve("untyped"), cjs("file:///store/types-untyped/index.d.ts"));
    // a script without declarations resolves to nothing
    assert_eq!(resolve("./b.js"), Ok(None));
    assert_eq!(resolve("bare"), Ok(None));
}

#[test]
fn typescript_inside_an_npm_package_is_refused() {
    let fs = project();
    let mut npm = fixed(&[]);
    npm.all_inside = true;
    let resolver = NodeResolver::new(&fs, &npm);
    let err = resolver
        .resolve(
            "./e.ts",
            "file:///proj/a.js",
            NodeModuleKind::Esm,
            NodeResolutionMode::Execution,
        )
        .unwrap_err();
    assert_eq!(err.kind, ErrorKind::TypeScriptNotSupportedInNpm);
    assert_eq!(err.request, "file:///proj/e.ts");
    assert!(resolver.in_npm_package("file:///proj/e.ts"));
}

#[test]
fn directories_that_stand_for_themselves_end_the_search() {
    let mut fs = project();
    fs.add_manifest(manifest("/proj/package.json"));
    put_dir(&mut fs, "/store/loop");
    let mut looping = manifest("/store/loop/package.json");
    looping.main = Some(".".to_string());
    fs.add_manifest(looping);
    let npm = fixed(&[("loop", "/store/loop")]);
    let resolver = NodeResolver::new(&fs, &npm);
    let err = resolver
        .resolve("loop", "file:///proj/a.js", NodeModuleKind::Esm, NodeResolutionMode::Types)
        .unwrap_err();
    assert_eq!(err.kind, ErrorKind::TooDeep);
}

#[test]
fn a_manifest_that_cannot_be_read() {
    let mut fs = project();
    fs.add_manifest(manifest("/proj/package.json"));
    put_dir(&mut fs, "/store/broken");
    fs.broken.push("/store/broken/package.json".to_string());
    let npm = fixed(&[("broken", "/store/broken")]);
    let resolver = NodeResolver::new(&fs, &npm);
    let err = resolver
        .resolve("broken", "file:///proj/a.js", NodeModuleKind::Esm, NodeResolutionMode::Execution)
        .unwrap_err();
    assert_eq!(err.kind, ErrorKind::PackageJsonLoad);
    assert_eq!(err.request, "/store/broken/package.json");
}

#[test]
fn subpath_of_a_package_directory() {
    let fs = store();
    let npm = locator();
    let resolver = NodeResolver::new(&fs, &npm);
    assert_eq!(
        resolver.resolve_package_subpath_from_deno_module(
            "/store/modern",
            None,
            None,
            NodeResolutionMode::Execution
        ),
        Ok(Some(NodeResolution::Esm("file:///store/modern/esm/index.js".to_string())))
    );
    assert_eq!(
        resolver.resolve_package_subpath_from_deno_module(
            "/store/modern",
            Some("sub/x"),
            Some("file:///proj/a.js"),
            NodeResolutionMode::Execution
        ),
        Ok(Some(NodeResolution::Esm("file:///store/modern/esm/sub/x.js".to_string())))
    );
    assert_eq!(
        resolver.package_resolve(
            "plain",
            "file:///proj/a.js",
            NodeModuleKind::Esm,
            &esm_conditions(),
            NodeResolutionMode::Execution
        ),
        Ok(Some(path("/store/plain/lib/main.js")))
    );
}

#[test]
fn urls_are_taken_in_their_normal_form() {
    let fs = project();
    let npm = Unused;
    let resolver = NodeResolver::new(&fs, &npm);
    let resolve = |specifier: &str| {
        resolver.resolve(
            specifier,
            "file:///proj/a.js",
            NodeModuleKind::Esm,
            NodeResolutionMode::Execution,
        )
    };
    let b = Ok(Some(NodeResolution::Esm("file:///proj/b.js".to_string())));
    assert_eq!(resolve("file:///proj/src/../b.js"), b);
    assert_eq!(resolve("FILE:///proj/b.js"), b);
    // only the path of a URL is searched for disguised separators
    assert_eq!(
        resolve("./b.js?x=%2F"),
        Ok(Some(NodeResolution::CommonJs("file:///proj/b.js?x=%2F".to_string())))
    );
    assert_eq!(
        NodeResolution::BuiltIn("fs?a b".to_string()).into_url(),
        Some("node:fs?a%20b".to_string())
    );
}

#[test]
fn rarer_failures() {
    let mut fs = project();
    let mut own = manifest("/proj/package.json");
    own.imports = Some(table(&[("#empty", text("empty-pkg"))]));
    fs.add_manifest(own);
    put_dir(&mut fs, "/store/empty-pkg");
    let npm = fixed(&[("empty-pkg", "/store/empty-pkg")]);
    let resolver = NodeResolver::new(&fs, &npm);
    // the package named by an imports target has nothing to offer
    let err = resolver
        .resolve("#empty", "file:///proj/a.js", NodeModuleKind::Esm, NodeResolutionMode::Execution)
        .unwrap_err();
    assert_eq!(err.kind, ErrorKind::PackageTargetNotFound);
    assert_eq!(err.request, "empty-pkg");
    // the directory of the referrer does not exist
    let err = resolver
        .resolve("pkg", "file:///gone/a.js", NodeModuleKind::Esm, NodeResolutionMode::Execution)
        .unwrap_err();
    assert_eq!(err.kind, ErrorKind::CanonicalizingDir);
    assert_eq!(err.request, "/gone");
    // a referrer onto which nothing can be joined
    for referrer in ["data:text/javascript,1", "not a url"] {
        let err = resolver
            .resolve("./x.js", referrer, NodeModuleKind::Esm, NodeResolutionMode::Execution)
            .unwrap_err();
        assert_eq!(err.kind, ErrorKind::RelativeJoin);
        assert_eq!(err.request, "./x.js");
    }
    // what is no local file cannot be the outcome of a resolution
    let err = resolver
        .resolve(
            "./x.js",
            "https://example.com/a.js",
            NodeModuleKind::Esm,
            NodeResolutionMode::Execution,
        )
        .unwrap_err();
    assert_eq!(err.kind, ErrorKind::NotAFilePath);
    assert_eq!(err.request, "https://example.com/x.js");
    // and has no declaration file: no resolution, which is no failure
    assert_eq!(
        resolver.resolve(
            "./x.js",
            "https://example.com/a.js",
            NodeModuleKind::Esm,
            NodeResolutionMode::Types,
        ),
        Ok(None)
    );
}

#[test]
fn finalization_asks_about_the_target_itself() {
    // nothing but the root directory exists
    let mut fs = MemoryFs::new();
    fs.add_dir("/");
    let npm = Unused;
    let resolver = NodeResolver::new(&fs, &npm);
    let resolve = |specifier: &str| {
        resolver
            .resolve(specifier, "file:///a.js", NodeModuleKind::Esm, NodeResolutionMode::Execution)
            .unwrap_err()
            .kind
    };
    assert_eq!(resolve("/pkg/none/"), ErrorKind::ModuleNotFound);
    assert_eq!(resolve("/pkg/none"), ErrorKind::ModuleNotFound);
    assert_eq!(resolve("/"), ErrorKind::UnsupportedDirImport);
    // a directory stays one with a separator behind its name
    let fs = project();
    let resolver = NodeResolver::new(&fs, &npm);
    let resolve = |specifier: &str| {
        resolver
            .resolve(
                specifier,
                "file:///proj/a.js",
                NodeModuleKind::Esm,
                NodeResolutionMode::Execution,
            )
            .unwrap_err()
            .kind
    };
    assert_eq!(resolve("./src/"), ErrorKind::UnsupportedDirImport);
    assert_eq!(resolve("./src//"), ErrorKind::UnsupportedDirImport);
    assert_eq!(resolve("./none/"), ErrorKind::ModuleNotFound);
}

#[test]
fn main_is_trimmed_of_all_white_space() {
    for code in 0..=0x10FFFFu32 {
        let Some(c) = char::from_u32(code) else { continue };
        let given = [c, 'm', c];
        let trimmed = node_resolution::model::trim(&given);
        if c.is_whitespace() {
            assert_eq!(trimmed, vec!['m'], "U+{code:04X}");
        } else {
            assert_eq!(trimmed, given.to_vec(), "U+{code:04X}");
        }
    }
    let mut pkg = manifest("/p/package.json");
    pkg.main = Some("\u{a0}\u{3000} lib/main.js\u{2028}\t".to_string());
    let main: String = pkg.main(NodeModuleKind::Cjs).unwrap().into_iter().collect();
    assert_eq!(main, "lib/main.js");
    pkg.main = Some("\u{2003}\n".to_string());
    assert!(pkg.main(NodeModuleKind::Cjs).is_none());
}

