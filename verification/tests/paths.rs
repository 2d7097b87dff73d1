use node_resolution::path::{clean, file_name, is_within, join_paths, parent};

fn chars(s: &str) -> Vec<char> {
    s.chars().collect()
}

fn text(v: Vec<char>) -> String {
    v.into_iter().collect()
}

#[test]
fn join_puts_one_separator() {
    assert_eq!(join_paths("/a", "b"), "/a/b");
    assert_eq!(join_paths("/a/", "b"), "/a/b");
    assert_eq!(join_paths("/a", "/b"), "/b");
    assert_eq!(join_paths("", "b"), "b");
    assert_eq!(join_paths("/a", ""), "/a/");
    assert_eq!(join_paths("/a", "./b"), "/a/./b");
}

#[test]
fn clean_removes_what_names_nothing() {
    let cases = [
        ("", "."),
        ("/", "/"),
        ("/..", "/"),
        ("a/..", "."),
        ("../a", "../a"),
        ("/a/./b//c/", "/a/b/c"),
        ("/a/b/../c", "/a/c"),
        ("/a/b/../../..", "/"),
        ("a/../../b", "../b"),
        ("./a", "a"),
        ("/pkg/./dist/x.js", "/pkg/dist/x.js"),
    ];
    for (given, expected) in cases {
        assert_eq!(text(clean(&chars(given))), expected, "{given}");
    }
}

#[test]
fn parent_and_file_name() {
    assert_eq!(parent(&chars("/a/b")).map(text), Some("/a".to_string()));
    assert_eq!(parent(&chars("/a/b/")).map(text), Some("/a".to_string()));
    assert_eq!(parent(&chars("/a")).map(text), Some("/".to_string()));
    assert_eq!(parent(&chars("/")).map(text), None);
    assert_eq!(parent(&chars("")).map(text), None);
    assert_eq!(parent(&chars("a")).map(text), Some("".to_string()));
    assert_eq!(parent(&chars("a//b")).map(text), Some("a".to_string()));
    assert_eq!(file_name(&chars("/a/b.js")).map(text), Some("b.js".to_string()));
    assert_eq!(file_name(&chars("/a/b/")).map(text), Some("b".to_string()));
    assert_eq!(file_name(&chars("b")).map(text), Some("b".to_string()));
    assert_eq!(file_name(&chars("/")).map(text), None);
    assert_eq!(file_name(&chars("/a/..")).map(text), None);
}

#[test]
fn within_goes_by_segments() {
    assert!(is_within(&chars("/a/b"), &chars("/a")));
    assert!(is_within(&chars("/a"), &chars("/a")));
    assert!(is_within(&chars("/a/b"), &chars("/a/")));
    assert!(!is_within(&chars("/ab"), &chars("/a")));
    assert!(!is_within(&chars("/"), &chars("/a")));
    assert!(!is_within(&chars("a/b"), &chars("/a")));
}
