use node_resolution::base32::{mixed_case_package_name_decode, mixed_case_package_name_encode};
use node_resolution::decimal::{format_u8, parse_u8};
use node_resolution::folder_id::{
    folder_name_roundtrip, get_package_folder_id_folder_name,
    get_package_folder_id_from_folder_name, NpmPackageCacheFolderId,
};
use node_resolution::semver::Version;

fn chars(s: &str) -> Vec<char> {
    s.chars().collect()
}

fn text(v: Vec<char>) -> String {
    v.into_iter().collect()
}

fn version(major: u64, minor: u64, patch: u64) -> Version {
    Version { major, minor, patch, pre: Vec::new(), build: Vec::new() }
}

fn id(name: &str, v: Version, copy_index: u8) -> NpmPackageCacheFolderId {
    NpmPackageCacheFolderId::new(name.to_string(), v, copy_index)
}

#[test]
fn folder_names_of_plain_scoped_and_copied_packages() {
    assert_eq!(
        get_package_folder_id_folder_name(&id("chalk", version(5, 0, 1), 0)),
        "chalk@5.0.1"
    );
    assert_eq!(
        get_package_folder_id_folder_name(&id("@types/node", version(18, 8, 2), 0)),
        "@types+node@18.8.2"
    );
    assert_eq!(
        get_package_folder_id_folder_name(&id("chalk", version(5, 0, 1), 3)),
        "chalk@5.0.1_3"
    );
    let pre = Version {
        major: 1,
        minor: 2,
        patch: 3,
        pre: vec!["beta".to_string(), "1".to_string()],
        build: Vec::new(),
    };
    assert_eq!(
        get_package_folder_id_folder_name(&id("a", pre, 0)),
        "a@1.2.3-beta.1"
    );
}

#[test]
fn mixed_case_names_are_encoded() {
    // "JSON" in base 32 of its bytes, lower case, without padding
    assert_eq!(text(mixed_case_package_name_encode("JSON")), "jjju6tq");
    assert_eq!(
        get_package_folder_id_folder_name(&id("JSON", version(1, 0, 0), 0)),
        "_jjju6tq@1.0.0"
    );
    assert_eq!(
        mixed_case_package_name_decode(&chars("jjju6tq")),
        Some("JSON".to_string())
    );
    assert_eq!(
        mixed_case_package_name_decode(&chars("JJJU6TQ")),
        Some("JSON".to_string())
    );
    assert_eq!(text(mixed_case_package_name_encode("")), "");
    assert_eq!(text(mixed_case_package_name_encode("f")), "my");
    assert_eq!(text(mixed_case_package_name_encode("fo")), "mzxq");
    assert_eq!(text(mixed_case_package_name_encode("foo")), "mzxw6");
    assert_eq!(text(mixed_case_package_name_encode("foob")), "mzxw6yq");
    assert_eq!(text(mixed_case_package_name_encode("fooba")), "mzxw6ytb");
    assert_eq!(text(mixed_case_package_name_encode("foobar")), "mzxw6ytboi");
    assert_eq!(mixed_case_package_name_decode(&chars("mzxw6ytboi")), Some("foobar".to_string()));
    // not a symbol of the alphabet
    assert_eq!(mixed_case_package_name_decode(&chars("mz1w")), None);
    // bytes that are no text
    assert_eq!(mixed_case_package_name_decode(&chars("74")), None);
}

#[test]
fn folder_names_read_back() {
    let cases = [
        id("chalk", version(5, 0, 1), 0),
        id("@types/node", version(18, 8, 2), 0),
        id("@Scope/MixedCase", version(0, 0, 1), 0),
        id("JSON", version(1, 0, 0), 7),
        id("left-pad", version(1, 3, 0), 255),
        id("Ünïcode", version(2, 0, 0), 1),
    ];
    for case in cases {
        assert!(case.is_storable());
        let name = get_package_folder_id_folder_name(&case);
        let back = get_package_folder_id_from_folder_name(&name).unwrap();
        assert!(back.same_as(&case), "{name}");
        assert!(folder_name_roundtrip(&case).unwrap().same_as(&case));
    }
}

#[test]
fn what_is_no_folder_name_gives_no_identity() {
    for bad in [
        "",
        "chalk",
        "chalk@",
        "chalk@not-a-version",
        "chalk@1.0.0_x",
        "chalk@1.0.0_256",
        "chalk@1.0.0_",
        "_!!!@1.0.0",
        "_74@1.0.0",
    ] {
        assert!(get_package_folder_id_from_folder_name(bad).is_none(), "{bad}");
    }
}

#[test]
fn folder_name_parts_are_found_from_the_right_places() {
    let got = get_package_folder_id_from_folder_name("@types+node@18.8.2_2").unwrap();
    assert_eq!(got.nv.name, "@types/node");
    assert_eq!(got.nv.version.major, 18);
    assert_eq!(got.nv.version.minor, 8);
    assert_eq!(got.nv.version.patch, 2);
    assert_eq!(got.copy_index, 2);
    // npm's grammar is loose about what a version may look like
    let loose = get_package_folder_id_from_folder_name("a@v1.2.3").unwrap();
    assert_eq!(loose.nv.version.major, 1);
}

#[test]
fn identities_that_cannot_be_told_from_their_folder_name() {
    // a build tag is written with `+`, which reading turns into `/`
    let build = Version {
        major: 1,
        minor: 0,
        patch: 0,
        pre: Vec::new(),
        build: vec!["x".to_string()],
    };
    assert!(!id("a", build, 0).is_storable());
    assert!(!id("a+b", version(1, 0, 0), 0).is_storable());
    assert!(!id("_a", version(1, 0, 0), 0).is_storable());
    // with an upper-case letter the name is encoded, and anything goes
    assert!(id("_A+b", version(1, 0, 0), 0).is_storable());
}

#[test]
fn version_order_and_text() {
    assert!(version(1, 0, 0).precedes(&version(1, 0, 1)));
    assert!(!version(1, 0, 1).precedes(&version(1, 0, 0)));
    assert!(!version(1, 0, 0).precedes(&version(1, 0, 0)));
    let pre = Version {
        major: 1,
        minor: 0,
        patch: 0,
        pre: vec!["alpha".to_string()],
        build: Vec::new(),
    };
    assert!(pre.precedes(&version(1, 0, 0)));
    assert_eq!(pre.to_text(), "1.0.0-alpha");
    assert_eq!(version(10, 20, 30).to_text(), "10.20.30");
    let parsed = Version::parse_from_npm("1.2.3-rc.1+build.5").unwrap();
    assert_eq!(parsed.pre, vec!["rc".to_string(), "1".to_string()]);
    assert_eq!(parsed.build, vec!["build".to_string(), "5".to_string()]);
    assert!(Version::parse_from_npm("one").is_none());
}

#[test]
fn decimal_numbers() {
    assert_eq!(text(format_u8(0)), "0");
    assert_eq!(text(format_u8(9)), "9");
    assert_eq!(text(format_u8(10)), "10");
    assert_eq!(text(format_u8(105)), "105");
    assert_eq!(text(format_u8(255)), "255");
    for n in 0..=255u8 {
        assert_eq!(parse_u8(&format_u8(n)), Some(n));
    }
    assert_eq!(parse_u8(&chars("+7")), Some(7));
    assert_eq!(parse_u8(&chars("007")), Some(7));
    assert_eq!(parse_u8(&chars("256")), None);
    assert_eq!(parse_u8(&chars("")), None);
    assert_eq!(parse_u8(&chars("+")), None);
    assert_eq!(parse_u8(&chars("-1")), None);
    assert_eq!(parse_u8(&chars("1a")), None);
}
