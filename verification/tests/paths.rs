use itemviewer::paths::same_path_text;

fn same(a: &str, b: &str) -> bool {
    same_path_text(&a.to_string(), &b.to_string())
}

#[test]
fn same_path_ignores_how_separators_are_written() {
    assert!(same("C:\\a", "C:\\a\\"));
    assert!(same("C:/Users", "C:\\Users"));
    assert!(same("C:\\a\\\\b", "C:\\a\\b"));
    assert!(same("C:\\a\\.\\b", "C:\\a\\b"));
    assert!(same("\\\\server\\share", "//server/share/"));
    assert!(same("c:\\x", "C:\\x"));
    assert!(same("\\\\?\\c:\\x", "\\\\?\\C:\\x"));
}

#[test]
fn same_path_tells_different_paths_apart() {
    assert!(!same("C:\\a", "C:\\b"));
    assert!(!same("C:\\A", "C:\\a"));
    assert!(!same("C:a", "C:\\a"));
    assert!(!same("C:\\a\\..\\b", "C:\\b"));
    assert!(!same("\\\\?\\C:\\x", "C:\\x"));
    assert!(!same("./x", "x"));
    assert!(!same("D:\\x", "C:\\x"));
    assert!(!same("\\\\s\\a\\x", "\\\\s\\b\\x"));
}

#[test]
fn verbatim_paths_keep_dot_components() {
    assert!(!same("\\\\?\\C:\\a\\.\\b", "\\\\?\\C:\\a\\b"));
    assert!(same("\\\\?\\C:\\a\\b\\", "\\\\?\\C:\\a\\b"));
}

#[test]
fn dot_after_drive_is_not_a_component() {
    assert!(same("C:.", "C:"));
    assert!(same("C:.\\x", "C:x"));
    assert!(!same(".", ""));
    assert!(!same(".\\x", "x"));
}

#[test]
fn verbatim_drive_root_may_be_a_forward_slash() {
    assert!(same("\\\\?\\C:/x", "\\\\?\\C:\\x"));
    assert!(same("\\\\?\\C:/x", "\\\\?\\c:/x"));
    assert!(!same("\\\\?\\C:/x", "\\\\?\\C:/y"));
}
