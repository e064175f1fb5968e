use sing::jail::{anchor_path, confine, Jail, JailError};
use sing::path::{is_absolute_path, is_within, join_path, parent_or_current, split_components};

fn comps(s: &str) -> Vec<String> {
    split_components(s).0.into_iter().map(|c| c.into_iter().collect()).collect()
}

#[test]
fn components_skip_empty_and_dot() {
    assert_eq!(comps("/a//b/./c/"), vec!["a", "b", "c"]);
    assert_eq!(comps("a/../b"), vec!["a", "..", "b"]);
    assert_eq!(comps("/"), Vec::<String>::new());
    assert_eq!(split_components("/a/b").1, 3);
}

#[test]
fn within_compares_whole_components() {
    assert!(is_within("/game", "/game/font.ttf"));
    assert!(is_within("/game/", "/game"));
    assert!(!is_within("/game", "/gamex/font.ttf"));
    assert!(!is_within("/game/fonts", "/game"));
    assert!(!is_within("game", "/game/x"));
    assert!(is_within("/", "/etc/passwd"));
}

#[test]
fn join_and_parent() {
    assert_eq!(join_path("/game", "font.ttf"), "/game/font.ttf");
    assert_eq!(join_path("/game/", "font.ttf"), "/game/font.ttf");
    assert_eq!(join_path("", "font.ttf"), "font.ttf");
    assert_eq!(parent_or_current("/game/main.lua"), "/game/");
    assert_eq!(parent_or_current("/main.lua"), "/");
    assert_eq!(parent_or_current("/"), ".");
    assert_eq!(parent_or_current("main.lua"), "");
    assert!(is_absolute_path("/x"));
    assert!(!is_absolute_path("x/y"));
}

#[test]
fn anchor_is_made_absolute() {
    assert_eq!(anchor_path("/game/main.lua", "/home/u"), "/game/main.lua");
    assert_eq!(anchor_path("game/main.lua", "/home/u"), "/home/u/game/main.lua");
}

#[test]
fn jail_root_from_file_or_directory() {
    assert_eq!(Jail::new("/game/main.lua", false).root(), "/game/");
    assert_eq!(Jail::new("/game", true).root(), "/game");
}

#[test]
fn font_in_jail_resolves() {
    let jail = Jail::new("/game/", true);
    let target = jail.target("font.ttf").ok().unwrap();
    assert_eq!(target, "/game/font.ttf");
    let r = confine(Ok("/game".to_string()), Ok(target)).ok().unwrap();
    assert_eq!(r.as_str(), "/game/font.ttf");
}

#[test]
fn parent_traversal_is_refused() {
    let jail = Jail::new("/game/", true);
    let target = jail.target("../secret.txt").ok().unwrap();
    assert_eq!(target, "/game/../secret.txt");
    let e = confine(Ok("/game".to_string()), Ok("/secret.txt".to_string())).err().unwrap();
    assert!(matches!(e, JailError::TraversalDetected));
    assert_eq!(e.message(), "Directory traversal attempt detected");
}

#[test]
fn symlink_escape_is_refused() {
    let e = confine(Ok("/game".to_string()), Ok("/etc/shadow".to_string())).err().unwrap();
    assert!(matches!(e, JailError::TraversalDetected));
}

#[test]
fn absolute_request_is_refused() {
    let jail = Jail::new("/game/", true);
    let e = jail.target("/etc/passwd").err().unwrap();
    assert!(matches!(e, JailError::AbsolutePathForbidden));
    assert_eq!(e.message(), "Absolute paths are forbidden");
    let e = jail.target("/game/font.ttf").err().unwrap();
    assert!(matches!(e, JailError::AbsolutePathForbidden));
}

#[test]
fn canonicalization_failures_are_reported() {
    let e = confine(Err("gone".to_string()), Ok("/game/x".to_string())).err().unwrap();
    assert!(matches!(e, JailError::InvalidBase(_)));
    assert_eq!(e.message(), "Base path invalid: gone");
    let e = confine(Ok("/game".to_string()), Err("No such file".to_string())).err().unwrap();
    assert!(matches!(e, JailError::ResourceNotFound(_)));
    assert_eq!(e.message(), "Resource not found or invalid: No such file");
}
