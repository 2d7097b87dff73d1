use node_resolution::bin::{resolve_bin_entry_value, same_target};
use node_resolution::env::NpmResolver;
use node_resolution::errors::{ErrorKind, NodeResolveError};
use node_resolution::memory_fs::MemoryFs;
use node_resolution::model::{NodeResolution, PackageJson, Target};
use node_resolution::semantics::NodeResolver;

struct NoPackages;

impl NpmResolver for NoPackages {
    fn resolve_package_folder_from_package(
        &self,
        name: &str,
        referrer: &str,
    ) -> Result<String, NodeResolveError> {
        Err(NodeResolveError {
            kind: ErrorKind::NotFoundPackage,
            request: name.to_string(),
            package_json_path: None,
            referrer: Some(referrer.to_string()),
        })
    }

    fn in_npm_package(&self, _specifier: &str) -> bool {
        false
    }
}

fn build_package_json(name: Option<&str>, version: Option<&str>, bin: Option<Target>) -> PackageJson {
    PackageJson {
        path: "/package.json".to_string(),
        name: name.map(|n| n.to_string()),
        version: version.map(|v| v.to_string()),
        main: None,
        module: None,
        typ: "none".to_string(),
        types: None,
        exports: None,
        imports: None,
        bin,
    }
}

fn object(entries: &[(&str, &str)]) -> Target {
    Target::Table(
        entries.iter().map(|(k, v)| (k.to_string(), Target::Text(v.to_string()))).collect(),
    )
}

#[test]
fn test_resolve_bin_entry_value() {
    // should resolve the specified value
    let pkg_json = build_package_json(
        Some("pkg"),
        Some("1.1.1"),
        Some(object(&[("bin1", "./value1"), ("bin2", "./value2"), ("pkg", "./value3")])),
    );
    assert_eq!(
        resolve_bin_entry_value(&pkg_json, Some("bin1")).unwrap(),
        "./value1"
    );

    // should resolve the value with the same name when not specified
    assert_eq!(
        resolve_bin_entry_value(&pkg_json, None).unwrap(),
        "./value3"
    );

    // should not resolve when specified value does not exist
    assert_eq!(
        resolve_bin_entry_value(&pkg_json, Some("other"),)
            .err()
            .unwrap()
            .to_string(),
        format!(
            "{}{}{}{}{}{}",
            "'/package.json' did not have a bin entry for 'other'\n",
            "\n",
            "Possibilities:\n",
            " * npm:pkg@1.1.1/bin1\n",
            " * npm:pkg@1.1.1/bin2\n",
            " * npm:pkg@1.1.1/pkg"
        )
    );

    // should not resolve when default value can't be determined
    let pkg_json = build_package_json(
        Some("pkg"),
        Some("1.1.1"),
        Some(object(&[("bin", "./value1"), ("bin2", "./value2")])),
    );
    assert_eq!(
        resolve_bin_entry_value(&pkg_json, None)
            .err()
            .unwrap()
            .to_string(),
        format!(
            "{}{}{}{}{}",
            "'/package.json' did not have a bin entry for 'pkg'\n",
            "\n",
            "Possibilities:\n",
            " * npm:pkg@1.1.1/bin\n",
            " * npm:pkg@1.1.1/bin2",
        )
    );

    // should resolve since all the values are the same
    let pkg_json = build_package_json(
        Some("pkg"),
        Some("1.2.3"),
        Some(object(&[("bin1", "./value"), ("bin2", "./value")])),
    );
    assert_eq!(
        resolve_bin_entry_value(&pkg_json, None,).unwrap(),
        "./value"
    );

    // should not resolve when specified and is a string
    let pkg_json = build_package_json(
        Some("pkg"),
        Some("1.2.3"),
        Some(Target::Text("./value".to_string())),
    );
    assert_eq!(
        resolve_bin_entry_value(&pkg_json, Some("path"),)
            .err()
            .unwrap()
            .to_string(),
        "'/package.json' did not have a bin entry for 'path'"
    );

    // no version in the package.json
    let pkg_json = build_package_json(
        Some("pkg"),
        None,
        Some(object(&[("bin1", "./value1"), ("bin2", "./value2")])),
    );
    assert_eq!(
        resolve_bin_entry_value(&pkg_json, None)
            .err()
            .unwrap()
            .to_string(),
        format!(
            "{}{}{}{}{}",
            "'/package.json' did not have a bin entry for 'pkg'\n",
            "\n",
            "Possibilities:\n",
            " * npm:pkg/bin1\n",
            " * npm:pkg/bin2",
        )
    );

    // no name or version in the package.json
    let pkg_json = build_package_json(
        None,
        None,
        Some(object(&[("bin1", "./value1"), ("bin2", "./value2")])),
    );
    assert_eq!(
        resolve_bin_entry_value(&pkg_json, None)
            .err()
            .unwrap()
            .to_string(),
        format!(
            "{}{}{}{}{}",
            "'/package.json' did not have a bin entry\n",
            "\n",
            "Possibilities:\n",
            " * bin1\n",
            " * bin2",
        )
    );
}

#[test]
fn bin_entry_edge_cases() {
    // a single string is the package's own command, named by the last part of its name
    let scoped = build_package_json(
        Some("@scope/tool"),
        None,
        Some(Target::Text("./cli.js".to_string())),
    );
    assert_eq!(resolve_bin_entry_value(&scoped, None).unwrap(), "./cli.js");
    assert_eq!(resolve_bin_entry_value(&scoped, Some("tool")).unwrap(), "./cli.js");
    assert!(resolve_bin_entry_value(&scoped, Some("@scope/tool")).is_err());
    // the only entry is the default
    let single = build_package_json(Some("pkg"), None, Some(object(&[("other", "./o.js")])));
    assert_eq!(resolve_bin_entry_value(&single, None).unwrap(), "./o.js");
    // no bin at all, or one of another shape
    let none = build_package_json(Some("pkg"), None, None);
    assert_eq!(
        resolve_bin_entry_value(&none, None).unwrap_err(),
        "'/package.json' did not have a bin property"
    );
    let odd = build_package_json(Some("pkg"), None, Some(Target::Other));
    assert_eq!(
        resolve_bin_entry_value(&odd, None).unwrap_err(),
        "'/package.json' did not have a bin property with a string or object value"
    );
    let nested = build_package_json(
        Some("pkg"),
        None,
        Some(Target::Table(vec![("pkg".to_string(), Target::Null)])),
    );
    assert_eq!(
        resolve_bin_entry_value(&nested, None).unwrap_err(),
        "'/package.json' had a non-string sub property of bin"
    );
}

#[test]
fn targets_compare_by_content() {
    let a = Target::List(vec![Target::Text("x".to_string()), object(&[("k", "v")]), Target::Null]);
    let b = a.duplicate();
    assert!(same_target(&a, &b));
    let c = Target::List(vec![Target::Text("x".to_string()), object(&[("k", "w")]), Target::Null]);
    assert!(!same_target(&a, &c));
    assert!(!same_target(&Target::Null, &Target::Other));
    assert!(!same_target(&Target::List(vec![]), &Target::List(vec![Target::Null])));
}

#[test]
fn binary_commands_and_exports() {
    let mut fs = MemoryFs::new();
    fs.add_dir("/");
    fs.add_dir("/store");
    fs.add_dir("/store/tool");
    fs.add_dir("/store/many");
    fs.add_dir("/store/nameless");
    fs.add_dir("/store/empty");
    fs.add_file("/store/tool/cli.js");
    let mut tool = build_package_json(Some("tool"), None, Some(Target::Text("./cli.js".to_string())));
    tool.path = "/store/tool/package.json".to_string();
    fs.add_manifest(tool);
    let mut many = build_package_json(Some("many"), None, Some(object(&[("a", "./a.js"), ("b", "./b.js")])));
    many.path = "/store/many/package.json".to_string();
    fs.add_manifest(many);
    let mut nameless = build_package_json(None, None, Some(Target::Text("./cli.js".to_string())));
    nameless.path = "/store/nameless/package.json".to_string();
    fs.add_manifest(nameless);
    let npm = NoPackages;
    let resolver = NodeResolver::new(&fs, &npm);
    assert_eq!(resolver.resolve_binary_commands("/store/tool"), Ok(vec!["tool".to_string()]));
    assert_eq!(
        resolver.resolve_binary_commands("/store/many"),
        Ok(vec!["a".to_string(), "b".to_string()])
    );
    assert_eq!(resolver.resolve_binary_commands("/store/empty"), Ok(vec![]));
    assert_eq!(
        resolver.resolve_binary_commands("/store/nameless").unwrap_err().kind,
        ErrorKind::MissingPkgJsonName
    );
    assert_eq!(
        resolver.resolve_binary_export("/store/tool", None),
        Ok(NodeResolution::CommonJs("file:///store/tool/cli.js".to_string()))
    );
    assert_eq!(
        resolver.resolve_binary_export("/store/many", Some("b")),
        Ok(NodeResolution::CommonJs("file:///store/many/b.js".to_string()))
    );
    assert_eq!(
        resolver.resolve_binary_export("/store/many", Some("c")).unwrap_err().kind,
        ErrorKind::InvalidBinProperty
    );
    assert_eq!(
        resolver.resolve_binary_export("/store/empty", None).unwrap_err().kind,
        ErrorKind::MissingPkgJson
    );
}

#[test]
fn a_failed_binary_export_says_why() {
    let mut fs = MemoryFs::new();
    fs.add_dir("/");
    fs.add_dir("/store");
    fs.add_dir("/store/many");
    let mut many =
        build_package_json(Some("many"), None, Some(object(&[("a", "./a.js"), ("b", "./b.js")])));
    many.path = "/store/many/package.json".to_string();
    fs.add_manifest(many);
    let npm = NoPackages;
    let resolver = NodeResolver::new(&fs, &npm);
    let err = resolver.resolve_binary_export("/store/many", Some("c")).unwrap_err();
    assert_eq!(err.kind, ErrorKind::InvalidBinProperty);
    assert_eq!(
        err.request,
        format!(
            "{}{}{}{}{}",
            "'/store/many/package.json' did not have a bin entry for 'c'\n",
            "\n",
            "Possibilities:\n",
            " * npm:many/a\n",
            " * npm:many/b",
        )
    );
    assert_eq!(err.package_json_path.as_deref(), Some("/store/many/package.json"));
    let missing = resolver.resolve_binary_export("/store/none", None).unwrap_err();
    assert_eq!(missing.kind, ErrorKind::MissingPkgJson);
    assert_eq!(missing.request, "/store/none/package.json");
}
