use node_resolution::errors::ErrorKind;
use node_resolution::pattern::pattern_key_compare;
use node_resolution::specifier::{
    is_relative_specifier, parse_npm_pkg_name, should_be_treated_as_relative_or_absolute_path,
    types_package_name, with_known_extension,
};

#[test]
fn test_parse_package_name() {
    let dummy_referrer = "http://example.com";

    assert_eq!(
        parse_npm_pkg_name("fetch-blob", dummy_referrer).unwrap(),
        ("fetch-blob".to_string(), ".".to_string(), false)
    );
    assert_eq!(
        parse_npm_pkg_name("@vue/plugin-vue", dummy_referrer).unwrap(),
        ("@vue/plugin-vue".to_string(), ".".to_string(), true)
    );
    assert_eq!(
        parse_npm_pkg_name("@astrojs/prism/dist/highlighter", dummy_referrer).unwrap(),
        (
            "@astrojs/prism".to_string(),
            "./dist/highlighter".to_string(),
            true
        )
    );
}

#[test]
fn test_with_known_extension() {
    let cases = &[
        ("test", "d.ts", "test.d.ts"),
        ("test.d.ts", "ts", "test.ts"),
        ("test.worker", "d.ts", "test.worker.d.ts"),
        ("test.d.mts", "js", "test.js"),
    ];
    for (path, ext, expected) in cases {
        let actual = with_known_extension(path, ext);
        assert_eq!(actual, *expected);
    }
}

#[test]
fn test_types_package_name() {
    assert_eq!(types_package_name("name"), "@types/name");
    assert_eq!(
        types_package_name("@scoped/package"),
        "@types/@scoped__package"
    );
}

#[test]
fn with_known_extension_keeps_the_directory() {
    assert_eq!(with_known_extension("/a/b/mod.mjs", "d.mts"), "/a/b/mod.d.mts");
    assert_eq!(with_known_extension("/a/b/types.d", "d.ts"), "/a/b/types.d.ts");
    assert_eq!(with_known_extension("/a/b/Mod.JS", "d.ts"), "/a/b/Mod.d.ts");
    assert_eq!(with_known_extension("/", "d.ts"), "/");
    assert_eq!(with_known_extension("/a/..", "d.ts"), "/a/..");
}

#[test]
fn invalid_package_names_are_rejected() {
    for bad in ["", "@scope", "a%b", "a\\b", "@sc%pe/x"] {
        let err = parse_npm_pkg_name(bad, "file:///r.js").unwrap_err();
        assert_eq!(err.kind, ErrorKind::InvalidModuleSpecifier);
        assert_eq!(err.request, bad);
        assert_eq!(err.referrer.as_deref(), Some("file:///r.js"));
    }
    // the subpath may hold what the name may not
    assert_eq!(
        parse_npm_pkg_name("pkg/a%b", "file:///r.js").unwrap(),
        ("pkg".to_string(), "./a%b".to_string(), false)
    );
}

#[test]
fn relative_and_absolute_specifiers() {
    for yes in [".", "..", "./a", "../a", "./", "../"] {
        assert!(is_relative_specifier(yes), "{yes}");
        assert!(should_be_treated_as_relative_or_absolute_path(yes), "{yes}");
    }
    for no in ["", "a", ".a", "..a", "...", "#a", "/a"] {
        assert!(!is_relative_specifier(no), "{no}");
    }
    assert!(should_be_treated_as_relative_or_absolute_path("/a"));
    assert!(!should_be_treated_as_relative_or_absolute_path(""));
    assert!(!should_be_treated_as_relative_or_absolute_path("pkg"));
}

#[test]
fn exact_key_ranks_ahead_of_pattern() {
    assert_eq!(pattern_key_compare("./a/*", "./a/b.js"), 1);
    assert_eq!(pattern_key_compare("./a/b.js", "./a/*"), -1);
}

#[test]
fn pattern_key_compare_by_head_then_wildcard_then_length() {
    // longer literal head wins
    assert_eq!(pattern_key_compare("./a/*", "./a/b/*"), 1);
    assert_eq!(pattern_key_compare("./a/b/*", "./a/*"), -1);
    // equal heads: the key without a wildcard wins
    assert_eq!(pattern_key_compare("./a/", "./a*"), -1);
    assert_eq!(pattern_key_compare("./a*", "./a/"), 1);
    // equal heads, both with wildcards: the longer key wins
    assert_eq!(pattern_key_compare("./a/*", "./a/*.js"), 1);
    assert_eq!(pattern_key_compare("./a/*.js", "./a/*"), -1);
    // otherwise equal
    assert_eq!(pattern_key_compare("./a/*.js", "./a/*.ts"), 0);
    assert_eq!(pattern_key_compare("./ab", "./cd"), 0);
    assert_eq!(pattern_key_compare("", "./a/*"), 1);
}
