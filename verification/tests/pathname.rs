use koscleaner::pathname::{components_of, is_absolute_path, join_path, path_eq, Component};

fn names(cs: &[Component]) -> Vec<String> {
    cs.iter()
        .map(|c| match c {
            Component::Prefix(d) => format!("{d}:"),
            Component::VerbatimDisk(d) => format!("\\\\?\\{d}:"),
            Component::RootDir => "/".to_string(),
            Component::CurDir => ".".to_string(),
            Component::ParentDir => "..".to_string(),
            Component::Normal(n) => n.clone(),
        })
        .collect()
}

#[test]
fn unix_components_drop_dots_and_empty_segments() {
    assert_eq!(names(&components_of("/a//b/./c/", false)), vec!["/", "a", "b", "c"]);
    assert_eq!(names(&components_of("./a/../b", false)), vec![".", "a", "..", "b"]);
    assert_eq!(names(&components_of("a\\b", false)), vec!["a\\b"]);
}

#[test]
fn windows_components_know_drives_and_verbatim_drives() {
    assert_eq!(names(&components_of("c:\\Users/alice", true)), vec!["C:", "/", "Users", "alice"]);
    assert_eq!(names(&components_of("\\\\?\\c:\\Users", true)), vec!["\\\\?\\C:", "/", "Users"]);
    assert!(!path_eq("\\\\?\\C:\\Users", "C:\\Users", true));
    assert!(path_eq("C:/Users/", "c:\\Users", true));
}

#[test]
fn absolute_paths() {
    assert!(is_absolute_path("/tmp", false));
    assert!(!is_absolute_path("tmp", false));
    assert!(is_absolute_path("C:\\Temp", true));
    assert!(!is_absolute_path("C:Temp", true));
    assert!(!is_absolute_path("\\Temp", true));
    assert!(is_absolute_path("\\\\?\\C:\\Temp", true));
    assert!(is_absolute_path("\\\\?\\C:", true));
}

#[test]
fn pushing_a_name_adds_one_component() {
    assert_eq!(join_path("/tmp", "a", false), "/tmp/a");
    assert_eq!(join_path("/tmp/", "a", false), "/tmp/a");
    assert_eq!(join_path("", "a", false), "a");
    assert_eq!(join_path("C:", "a", true), "C:a");
    assert_eq!(join_path("C:\\x", "a", true), "C:\\x\\a");
    // A bare verbatim drive gains a root before the name.
    assert_eq!(join_path("\\\\?\\C:", "a", true), "\\\\?\\C:\\a");
    assert_eq!(names(&components_of(&join_path("\\\\?\\C:", "a", true), true)), vec!["\\\\?\\C:", "/", "a"]);
}

#[test]
fn pushing_a_rooted_or_absolute_path() {
    assert_eq!(join_path("/tmp", "/etc", false), "/etc");
    assert_eq!(join_path("C:\\x", "\\y", true), "C:\\y");
    assert_eq!(join_path("\\\\?\\C:\\x", "\\y", true), "\\\\?\\C:\\y");
    assert_eq!(join_path("C:\\x", "D:\\y", true), "D:\\y");
    assert_eq!(join_path("/a", "b/c", false), "/a/b/c");
}
