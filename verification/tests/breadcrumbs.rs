use itemviewer::breadcrumbs::{
    breadcrumbs_for, build_breadcrumbs, breadcrumbs_from_segments, fit_last_label, keep_first_and_last, render_whole,
    shortened_label, Breadcrumb,
};

fn pairs(crumbs: &[Breadcrumb]) -> Vec<(String, String)> {
    crumbs.iter().map(|c| (c.label.clone(), c.path.clone())).collect()
}

fn owned(v: &[(&str, &str)]) -> Vec<(String, String)> {
    v.iter().map(|(a, b)| (a.to_string(), b.to_string())).collect()
}

#[test]
fn drive_path_gives_prefix_then_names() {
    let crumbs = build_breadcrumbs("C:\\Users\\me\\Documents");
    assert_eq!(
        pairs(&crumbs),
        owned(&[
            ("C:", "C:"),
            ("Users", "C:\\Users"),
            ("me", "C:\\Users\\me"),
            ("Documents", "C:\\Users\\me\\Documents"),
        ])
    );
}

#[test]
fn forward_slashes_and_trailing_separator_are_normalised() {
    let crumbs = build_breadcrumbs("C:/Users//me/");
    assert_eq!(pairs(&crumbs), owned(&[("C:", "C:"), ("Users", "C:\\Users"), ("me", "C:\\Users\\me")]));
}

#[test]
fn dot_components_are_skipped() {
    let crumbs = build_breadcrumbs("C:\\a\\.\\b\\..\\c");
    assert_eq!(
        pairs(&crumbs),
        owned(&[("C:", "C:"), ("a", "C:\\a"), ("b", "C:\\a\\b"), ("c", "C:\\a\\b\\c")])
    );
}

#[test]
fn drive_relative_path_has_no_separator_after_drive() {
    let crumbs = build_breadcrumbs("D:games\\saves");
    assert_eq!(pairs(&crumbs), owned(&[("D:", "D:"), ("games", "D:games"), ("saves", "D:games\\saves")]));
}

#[test]
fn unc_share_is_one_crumb() {
    let crumbs = build_breadcrumbs("\\\\server\\share\\docs");
    assert_eq!(
        pairs(&crumbs),
        owned(&[("\\\\server\\share", "\\\\server\\share"), ("docs", "\\\\server\\share\\docs")])
    );
}

#[test]
fn unc_share_without_root_implies_one() {
    let crumbs = build_breadcrumbs("\\\\server\\share");
    assert_eq!(pairs(&crumbs), owned(&[("\\\\server\\share", "\\\\server\\share")]));
}

#[test]
fn verbatim_disk_prefix() {
    let crumbs = build_breadcrumbs("\\\\?\\C:\\x\\y");
    assert_eq!(
        pairs(&crumbs),
        owned(&[("\\\\?\\C:", "\\\\?\\C:"), ("x", "\\\\?\\C:\\x"), ("y", "\\\\?\\C:\\x\\y")])
    );
}

#[test]
fn verbatim_unc_prefix() {
    let crumbs = build_breadcrumbs("\\\\?\\UNC\\srv\\sh\\d");
    assert_eq!(
        pairs(&crumbs),
        owned(&[("\\\\?\\UNC\\srv\\sh", "\\\\?\\UNC\\srv\\sh"), ("d", "\\\\?\\UNC\\srv\\sh\\d")])
    );
}

#[test]
fn verbatim_prefix_keeps_forward_slash_in_names() {
    let crumbs = build_breadcrumbs("\\\\?\\C:\\a/b");
    assert_eq!(pairs(&crumbs), owned(&[("\\\\?\\C:", "\\\\?\\C:"), ("a/b", "\\\\?\\C:\\a/b")]));
}

#[test]
fn device_prefix() {
    let crumbs = build_breadcrumbs("\\\\.\\COM1");
    assert_eq!(pairs(&crumbs), owned(&[("\\\\.\\COM1", "\\\\.\\COM1")]));
}

#[test]
fn relative_path_without_prefix() {
    let crumbs = build_breadcrumbs("relative\\path");
    assert_eq!(pairs(&crumbs), owned(&[("relative", "relative"), ("path", "relative\\path")]));
}

#[test]
fn rooted_path_without_prefix() {
    let crumbs = build_breadcrumbs("\\Windows\\System32");
    assert_eq!(pairs(&crumbs), owned(&[("Windows", "\\Windows"), ("System32", "\\Windows\\System32")]));
}

#[test]
fn empty_path_has_no_crumbs() {
    assert!(build_breadcrumbs("").is_empty());
}

#[test]
fn non_ascii_names_are_kept() {
    let crumbs = build_breadcrumbs("C:\\Données\\日本");
    assert_eq!(
        pairs(&crumbs),
        owned(&[("C:", "C:"), ("Données", "C:\\Données"), ("日本", "C:\\Données\\日本")])
    );
}

#[test]
fn each_crumb_extends_the_previous_one() {
    let crumbs = build_breadcrumbs("E:\\one\\two\\three");
    for k in 1..crumbs.len() {
        let prev = &crumbs[k - 1].path;
        let here = &crumbs[k].path;
        assert!(here == &format!("{}{}", prev, crumbs[k].label) || here == &format!("{}\\{}", prev, crumbs[k].label));
    }
}

#[test]
fn portable_segments_become_crumbs() {
    let crumbs = breadcrumbs_from_segments(Some(vec![
        ("Portable".to_string(), "P:\\".to_string()),
        ("Music".to_string(), "P:\\Music".to_string()),
    ]));
    assert_eq!(pairs(&crumbs), owned(&[("Portable", "P:\\"), ("Music", "P:\\Music")]));
    assert!(breadcrumbs_from_segments(None).is_empty());
}

#[test]
fn layout_keeps_first_and_last_with_ellipsis() {
    let crumbs = build_breadcrumbs("C:\\a\\b\\c\\d");
    let rendered = render_whole(&crumbs);
    assert_eq!(rendered.len(), 5);
    let laid = keep_first_and_last(rendered, 2);
    let labels: Vec<&str> = laid.iter().map(|c| c.label.as_str()).collect();
    assert_eq!(labels, vec!["C:", "...", "c", "d"]);
    assert!(laid[1].is_ellipsis);
    assert_eq!(laid[1].path, "C:");
    assert!(!laid[2].is_ellipsis);
}

#[test]
fn layout_without_omission_has_no_ellipsis() {
    let crumbs = build_breadcrumbs("C:\\a\\b");
    let laid = keep_first_and_last(render_whole(&crumbs), 2);
    let labels: Vec<&str> = laid.iter().map(|c| c.label.as_str()).collect();
    assert_eq!(labels, vec!["C:", "a", "b"]);
    assert!(laid.iter().all(|c| !c.is_ellipsis));
}

#[test]
fn last_label_is_shortened_when_it_does_not_fit() {
    let crumbs = build_breadcrumbs("C:\\averylongname");
    let mut laid = render_whole(&crumbs);
    fit_last_label(&mut laid, Some(5));
    assert_eq!(laid[1].label, "avery...");
    assert_eq!(laid[1].full_label, "averylongname");
    assert!(laid[1].truncated);
    fit_last_label(&mut laid, None);
    assert_eq!(laid[1].label, "averylongname");
    assert!(!laid[1].truncated);
    assert_eq!(laid[0].label, "C:");
}

#[test]
fn shortened_label_counts_characters() {
    assert_eq!(shortened_label(&"日本語のフォルダ".to_string(), 3), "日本語...");
    assert_eq!(shortened_label(&"abc".to_string(), 0), "...");
}

#[test]
fn forward_slash_unc_share() {
    let crumbs = build_breadcrumbs("//server/share/x");
    assert_eq!(pairs(&crumbs), owned(&[("//server/share", "//server/share"), ("x", "//server/share\\x")]));
}

#[test]
fn double_separator_without_share_is_rooted() {
    let crumbs = build_breadcrumbs("\\\\server");
    assert_eq!(pairs(&crumbs), owned(&[("server", "\\server")]));
}

#[test]
fn labels_never_hold_backslashes() {
    for path in ["C:\\a\\b", "\\\\s\\sh\\x\\y", "rel\\x", "\\\\?\\C:\\p\\q", "C:/m/n"] {
        let crumbs = build_breadcrumbs(path);
        for c in crumbs.iter().skip(1) {
            assert!(!c.label.contains('\\'));
            assert!(!c.label.is_empty() && c.label != "." && c.label != "..");
        }
    }
}

#[test]
fn portable_paths_use_their_segments() {
    let portable = breadcrumbs_for("P:\\x", Some(Some(vec![("Stick".to_string(), "P:\\".to_string())])));
    assert_eq!(pairs(&portable), owned(&[("Stick", "P:\\")]));
    assert!(breadcrumbs_for("P:\\x", Some(None)).is_empty());
    let plain = breadcrumbs_for("P:\\x", None);
    assert_eq!(pairs(&plain), owned(&[("P:", "P:"), ("x", "P:\\x")]));
}

#[test]
fn verbatim_drive_followed_by_forward_slash_has_a_root() {
    let crumbs = build_breadcrumbs("\\\\?\\C:/x");
    assert_eq!(pairs(&crumbs), owned(&[("\\\\?\\C:", "\\\\?\\C:"), ("x", "\\\\?\\C:\\x")]));
}

#[test]
fn drive_followed_by_dot_has_no_dot_crumb() {
    let crumbs = build_breadcrumbs("C:.\\x");
    assert_eq!(pairs(&crumbs), owned(&[("C:", "C:"), ("x", "C:x")]));
}
