use chromaport::store::{date_stamp, include_depth_exceeded, include_to_follow, theme_file_too_large};
use chromaport::store::{resolve_theme_path, symlink_action, LinkAction, LinkPlace};

#[test]
fn test_resolve_theme_path_rejects_null_byte() {
    let result = resolve_theme_path("foo\0bar.json", "/tmp/foo\0bar.json", None, "/tmp", None);
    assert!(result.is_err());
    assert_eq!(result.err(), Some("theme path contains null byte".to_string()));
}

#[test]
fn resolve_theme_path_outcomes() {
    let ok = resolve_theme_path(
        "themes/dark.json",
        "/ext/a/themes/dark.json",
        Some("/ext/a/themes/dark.json".to_string()),
        "/ext/a",
        Some("/ext/a".to_string()),
    );
    assert_eq!(ok, Ok("/ext/a/themes/dark.json".to_string()));
    let missing = resolve_theme_path("x.json", "/ext/a/x.json", None, "/ext/a", Some("/ext/a".to_string()));
    assert_eq!(missing, Err("theme file not found: /ext/a/x.json".to_string()));
    let no_dir = resolve_theme_path("x.json", "/ext/a/x.json", Some("/ext/a/x.json".to_string()), "/ext/a", None);
    assert_eq!(no_dir, Err("extension dir not found: /ext/a".to_string()));
    let escape = resolve_theme_path(
        "../outside.json",
        "/ext/a/../outside.json",
        Some("/ext/outside.json".to_string()),
        "/ext/a",
        Some("/ext/a".to_string()),
    );
    assert_eq!(
        escape,
        Err("theme path escapes extension directory: ../outside.json -> /ext/outside.json".to_string())
    );
    let sibling = resolve_theme_path(
        "x.json",
        "/ext/ab/x.json",
        Some("/ext/ab/x.json".to_string()),
        "/ext/a",
        Some("/ext/a".to_string()),
    );
    assert!(sibling.is_err());
    let txt = resolve_theme_path("t.txt", "/e/t.txt", Some("/e/t.txt".to_string()), "/e", Some("/e".to_string()));
    assert_eq!(txt, Err("theme file must be .json, got: Some(\"txt\")".to_string()));
    let bare = resolve_theme_path(".json", "/e/.json", Some("/e/.json".to_string()), "/e", Some("/e".to_string()));
    assert_eq!(bare, Err("theme file must be .json, got: None".to_string()));
    let odd = resolve_theme_path("t.j\"n\tx", "/e/t.j\"n\tx", Some("/e/t.j\"n\tx".to_string()), "/e", Some("/e".to_string()));
    assert_eq!(odd, Err("theme file must be .json, got: Some(\"j\\\"n\\tx\")".to_string()));
    let root = resolve_theme_path("t.json", "/t.json", Some("/t.json".to_string()), "/", Some("/".to_string()));
    assert_eq!(root, Ok("/t.json".to_string()));
}

#[test]
fn symlink_actions() {
    assert_eq!(symlink_action(LinkPlace::Symlink, false), LinkAction::ReplaceAtomically);
    assert_eq!(symlink_action(LinkPlace::Other, false), LinkAction::RefuseRegularFile);
    assert_eq!(symlink_action(LinkPlace::Other, true), LinkAction::ReplaceAtomically);
    assert_eq!(symlink_action(LinkPlace::Empty, true), LinkAction::Create);
}

#[test]
fn date_stamps() {
    assert_eq!(date_stamp(0), "1970-01-01");
    assert_eq!(date_stamp(20525 * 86400 + 3600), "2026-03-13");
    assert_eq!(date_stamp(11016 * 86400), "2000-02-29");
}

#[test]
fn includes_are_followed_only_inside_the_extensions_directory() {
    assert_eq!(
        include_to_follow(Some("/ext/a/base.json".to_string()), Some("/ext".to_string())),
        Some("/ext/a/base.json".to_string())
    );
    assert_eq!(include_to_follow(Some("/etc/passwd".to_string()), Some("/ext".to_string())), None);
    assert_eq!(include_to_follow(Some("/extra/x.json".to_string()), Some("/ext".to_string())), None);
    assert_eq!(include_to_follow(None, Some("/ext".to_string())), None);
    assert!(!include_depth_exceeded(5));
    assert!(include_depth_exceeded(6));
    assert!(theme_file_too_large(10 * 1024 * 1024 + 1));
    assert!(!theme_file_too_large(10 * 1024 * 1024));
}
