use plugin_runtime::path::{check_guest_path, is_under_root, join_path, sanitize_resolved};

#[test]
fn relative_paths_without_parent_segments_pass() {
    assert!(check_guest_path("logo.png"));
    assert!(check_guest_path("textures/wood.png"));
    assert!(check_guest_path("a/b/c"));
    assert!(check_guest_path("./logo.png"));
    assert!(check_guest_path("..hidden"));
    assert!(check_guest_path("a..b"));
    assert!(check_guest_path("trailing.."));
    assert!(check_guest_path(""));
}

#[test]
fn absolute_paths_are_rejected() {
    assert!(!check_guest_path("/etc/passwd"));
    assert!(!check_guest_path("/"));
}

#[test]
fn parent_segments_are_rejected() {
    assert!(!check_guest_path(".."));
    assert!(!check_guest_path("../etc/passwd"));
    assert!(!check_guest_path("a/../b"));
    assert!(!check_guest_path("a/b/.."));
    assert!(!check_guest_path("a/.."));
}

#[test]
fn join_puts_one_separator_between() {
    assert_eq!(join_path("plugins", "logo.png"), "plugins/logo.png");
    assert_eq!(join_path("plugins/", "logo.png"), "plugins/logo.png");
    assert_eq!(join_path("", "logo.png"), "logo.png");
}

#[test]
fn under_root_is_by_whole_segments() {
    assert!(is_under_root("/srv/plugins/logo.png", "/srv/plugins"));
    assert!(is_under_root("/srv/plugins", "/srv/plugins"));
    assert!(is_under_root("/srv/plugins/a/b", "/srv/plugins"));
    assert!(!is_under_root("/srv/plugins-evil/x", "/srv/plugins"));
    assert!(!is_under_root("/srv", "/srv/plugins"));
    assert!(is_under_root("/etc/passwd", "/"));
}

#[test]
fn sanitize_resolved_accepts_only_paths_under_the_root() {
    let ok = sanitize_resolved(Some(String::from("/srv/plugins/logo.png")), "/srv/plugins");
    assert_eq!(ok, Some(String::from("/srv/plugins/logo.png")));

    let escaped = sanitize_resolved(Some(String::from("/etc/passwd")), "/srv/plugins");
    assert_eq!(escaped, None);

    let unresolved = sanitize_resolved(None, "/srv/plugins");
    assert_eq!(unresolved, None);
}
