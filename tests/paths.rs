use pandalib::builder::{classify_entry, EntryKind};
use pandalib::path::{canonical_exec, extension_exec, html_path, join_exec, parent_exec};

#[test]
fn canonical_resolves_dots() {
    assert_eq!(canonical_exec("a/./b/../c"), "a/c");
    assert_eq!(canonical_exec("a//b/"), "a/b");
    assert_eq!(canonical_exec("../x"), "../x");
    assert_eq!(canonical_exec("a/../../x"), "../x");
    assert_eq!(canonical_exec(""), "");
    assert_eq!(canonical_exec("a/b/.."), "a");
}

#[test]
fn join_and_parent() {
    assert_eq!(join_exec("a", "b.md"), "a/b.md");
    assert_eq!(join_exec("", "b.md"), "b.md");
    assert_eq!(join_exec("a", "/b.md"), "/b.md");
    assert_eq!(parent_exec("a/b/c.md"), "a/b");
    assert_eq!(parent_exec("c.md"), "");
}

#[test]
fn extensions() {
    assert_eq!(extension_exec("a/b.md").as_deref(), Some("md"));
    assert_eq!(extension_exec("a/.bashrc"), None);
    assert_eq!(extension_exec("a.b/c"), None);
    assert_eq!(html_path("a/b.md"), "a/b.html");
    assert_eq!(html_path("a/b.tar.gz"), "a/b.tar.html");
    assert_eq!(html_path("noext"), "noext.html");
    assert_eq!(html_path(".hidden"), ".hidden.html");
}

#[test]
fn entries_classified() {
    assert_eq!(classify_entry("posts", true), EntryKind::Directory);
    assert_eq!(classify_entry("posts/a.md", false), EntryKind::Document);
    assert_eq!(classify_entry("style.css", false), EntryKind::Asset);
    assert_eq!(classify_entry("README", false), EntryKind::Asset);
}
