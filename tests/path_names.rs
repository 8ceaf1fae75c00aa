use rhai_learning::paths::{has_extension, is_script_path, markdown_path, with_extension};

#[test]
fn markdown_path_replaces_extension() {
    assert_eq!(markdown_path("docs/hello.html"), "docs/hello.md");
    assert_eq!(markdown_path("docs/readme"), "docs/readme.md");
    assert_eq!(markdown_path("a.tar.gz"), "a.tar.md");
    assert_eq!(markdown_path(".hidden"), ".hidden.md");
}

#[test]
fn markdown_path_edge_cases() {
    assert_eq!(markdown_path("docs/x.html/"), "docs/x.md");
    assert_eq!(markdown_path("docs/x.html/."), "docs/x.md");
    assert_eq!(markdown_path(""), "");
    assert_eq!(markdown_path("a/.."), "a/..");
    assert_eq!(markdown_path("/"), "/");
}

#[test]
fn markdown_path_agrees_with_std() {
    for p in ["docs/hello.html", "x", "a.b.c", ".hidden", "dir/", "a/./b.txt", "name."] {
        let expected = std::path::Path::new(p).with_extension("md");
        assert_eq!(markdown_path(p), expected.to_str().unwrap(), "path {p}");
    }
}

#[test]
fn with_extension_empty_removes() {
    assert_eq!(with_extension("a/b.html", ""), "a/b");
}

#[test]
fn script_paths_recognised() {
    assert!(is_script_path("examples/hello.rhai"));
    assert!(is_script_path("a/b.rhai/"));
    assert!(!is_script_path("notes.txt"));
    assert!(!is_script_path(".rhai"));
    assert!(!is_script_path("x.RHAI"));
    assert!(!is_script_path("dir.rhai/file"));
    assert!(!is_script_path("x.rhai.bak"));
}

#[test]
fn extension_compared_exactly() {
    assert!(has_extension("a.txt", "txt"));
    assert!(!has_extension("a.txt", "tx"));
    assert!(has_extension("a.", ""));
    assert!(!has_extension("a", ""));
}
