use hagen::generator::normalize_path;
use hagen::loader::Metadata;

#[test]
fn test_1() {
    assert_eq!(normalize_path(""), "");
}

#[test]
fn test_backslash() {
    assert_eq!(normalize_path("\\foo/bar/baz"), "foo/bar/baz");
}

#[test]
fn test_double() {
    assert_eq!(normalize_path("//foo/bar/baz"), "foo/bar/baz");
}

#[test]
fn test_double_2() {
    assert_eq!(normalize_path("//foo////bar/baz"), "foo/bar/baz");
}

#[test]
fn test_double_back() {
    assert_eq!(normalize_path("\\\\foo/bar/baz"), "foo/bar/baz");
}

#[test]
fn test_double_back_2() {
    assert_eq!(normalize_path("\\\\foo//bar/baz"), "foo/bar/baz");
}

#[test]
fn test_normalize_trailing_kept() {
    assert_eq!(normalize_path("foo/bar/"), "foo/bar/");
}

#[test]
fn test_normalize_idempotent_samples() {
    for s in ["", "\\foo/bar", "//a//b", "a/b/c", "\\\\x\\y"] {
        let once = normalize_path(s);
        assert_eq!(normalize_path(&once), once);
    }
}

#[test]
fn test_path_2() {
    let m = Metadata::from_path("/root", "/root/foo/bar", None, "type");
    assert_eq!(m.parent, "/foo");
}

#[test]
fn test_path_3() {
    let m = Metadata::from_path("/root", "/root/foo/bar/baz.md", None, "type");
    assert_eq!(m.parent, "/foo/bar");
}

#[test]
fn test_path_root() {
    let m = Metadata::from_path("/root", "/root", None, "type");
    assert_eq!(m.parent, "/");
}

#[test]
fn test_path_root_first() {
    let m = Metadata::from_path("/root", "/root/foo", None, "type");
    assert_eq!(m.parent, "/");
}

#[test]
fn test_metadata_fields() {
    let m = Metadata::from_path("/r", "/r/a/b.md", Some("b"), "md");
    assert_eq!(m.name, "b");
    assert_eq!(m.filename, "b.md");
    assert_eq!(m.node_type, "md");
    assert_eq!(m.parent, "/a");
}
