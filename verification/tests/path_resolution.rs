use image_provider::paths::extension_of;
use image_provider::paths::normalize_path;
use image_provider::paths::resolve_under_root;

fn components(raw: &str) -> Vec<String> {
    normalize_path(raw)
}

#[test]
fn plain_paths_resolve_under_the_root() {
    assert_eq!(resolve_under_root("/srv/images", "a/b.jpg"), "/srv/images/a/b.jpg");
    assert_eq!(resolve_under_root("/srv/images", "/a/b.jpg"), "/srv/images/a/b.jpg");
}

#[test]
fn dot_and_empty_components_collapse() {
    assert_eq!(resolve_under_root("/srv", "./a//b/./c.png"), "/srv/a/b/c.png");
}

#[test]
fn dot_dot_pops_within_the_tree() {
    assert_eq!(resolve_under_root("/srv", "a/b/../c.png"), "/srv/a/c.png");
}

#[test]
fn traversal_cannot_escape_the_root() {
    assert_eq!(resolve_under_root("/srv", "../../etc/passwd"), "/srv/etc/passwd");
    assert_eq!(resolve_under_root("/srv", "/../..//../secret"), "/srv/secret");
    assert_eq!(resolve_under_root("/srv", "a/../../../x"), "/srv/x");
}

#[test]
fn normalized_components_are_always_safe_names() {
    for raw in [
        "../../etc/passwd",
        "a/./..//..//../b/c/../../d",
        "////",
        "..",
        ".hidden/../../../top",
    ] {
        for c in components(raw) {
            assert!(!c.is_empty());
            assert_ne!(c, ".");
            assert_ne!(c, "..");
            assert!(!c.contains('/'));
        }
    }
}

#[test]
fn extension_is_the_suffix_after_the_last_dot() {
    assert_eq!(extension_of("/srv/a/b.jpg"), Some("jpg".to_string()));
    assert_eq!(extension_of("/srv/a/archive.tar.gz"), Some("gz".to_string()));
}

#[test]
fn hidden_files_and_dotless_names_have_no_extension() {
    assert_eq!(extension_of("/srv/a/.bashrc"), None);
    assert_eq!(extension_of(".bashrc"), None);
    assert_eq!(extension_of("/srv/a/readme"), None);
    assert_eq!(extension_of("/srv/a.b/readme"), None);
}

#[test]
fn trailing_dot_gives_an_empty_extension() {
    assert_eq!(extension_of("/srv/a/strange."), Some(String::new()));
}
