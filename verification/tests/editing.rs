use itemviewer::editing::{
    edit_frame_begin, edit_frame_end, start_path_editing, typed_path_text, BreadcrumbEditState, PathEditCommand,
};

fn idle() -> BreadcrumbEditState {
    BreadcrumbEditState {
        editing: false,
        select_all_on_focus: true,
        just_started_editing: false,
        path_error: false,
        buffer: String::new(),
    }
}

#[test]
fn typed_path_is_trimmed_of_space_and_quotes() {
    assert_eq!(typed_path_text(&"  \"C:\\Program Files\"\t".to_string()), "C:\\Program Files");
    assert_eq!(typed_path_text(&"\u{3000}C:\\x\n".to_string()), "C:\\x");
    assert_eq!(typed_path_text(&"\"\"".to_string()), "");
    assert_eq!(typed_path_text(&"   ".to_string()), "");
    assert_eq!(typed_path_text(&" \" C:\\a \" ".to_string()), " C:\\a ");
}

#[test]
fn empty_area_click_starts_editing_current_path() {
    let mut s = idle();
    start_path_editing(&mut s, &"C:\\Users".to_string());
    assert!(s.editing);
    assert_eq!(s.buffer, "C:\\Users");
}

#[test]
fn first_frame_requests_focus_once() {
    let mut s = idle();
    start_path_editing(&mut s, &"C:\\".to_string());
    assert!(edit_frame_begin(&mut s, false));
    assert!(s.just_started_editing);
    assert!(!edit_frame_begin(&mut s, false));
}

#[test]
fn focus_clears_select_all_and_reports_active() {
    let mut s = idle();
    start_path_editing(&mut s, &"C:\\".to_string());
    edit_frame_begin(&mut s, false);
    let out = edit_frame_end(&mut s, true, PathEditCommand::Continue, &"C:\\".to_string());
    assert!(out.edit_active);
    assert!(!s.select_all_on_focus);
    assert!(s.editing);
    assert!(!out.left_editing);
}

#[test]
fn existing_path_is_opened_and_ends_editing() {
    let mut s = idle();
    start_path_editing(&mut s, &"C:\\".to_string());
    edit_frame_begin(&mut s, false);
    let out = edit_frame_end(
        &mut s,
        true,
        PathEditCommand::Submit { expanded: "C:\\Windows".to_string(), exists: true },
        &"C:\\".to_string(),
    );
    assert_eq!(out.nav_to, Some("C:\\Windows".to_string()));
    assert!(out.left_editing && !out.rejected);
    assert!(!s.editing && !s.just_started_editing && !s.path_error);
}

#[test]
fn missing_path_is_rejected_and_keeps_focus() {
    let mut s = idle();
    start_path_editing(&mut s, &"C:\\".to_string());
    edit_frame_begin(&mut s, false);
    let out = edit_frame_end(
        &mut s,
        true,
        PathEditCommand::Submit { expanded: "C:\\nope".to_string(), exists: false },
        &"C:\\".to_string(),
    );
    assert_eq!(out.nav_to, None);
    assert!(out.rejected && !out.left_editing);
    assert!(s.editing && s.path_error);
    // While in error, focus is requested again; a change clears the error.
    assert!(edit_frame_begin(&mut s, false));
    assert!(!edit_frame_begin(&mut s, true));
    assert!(!s.path_error);
}

#[test]
fn cancel_restores_current_path() {
    let mut s = idle();
    start_path_editing(&mut s, &"C:\\Users".to_string());
    s.buffer = "C:\\Us".to_string();
    edit_frame_begin(&mut s, true);
    let out = edit_frame_end(&mut s, false, PathEditCommand::Cancel, &"C:\\Users".to_string());
    assert!(out.left_editing && out.nav_to.is_none() && !out.edit_active);
    assert_eq!(s.buffer, "C:\\Users");
    assert!(!s.editing);
}

#[test]
fn white_space_is_what_std_calls_white_space() {
    for v in 0u32..=0x10FFFF {
        if let Some(c) = char::from_u32(v) {
            let trimmed = typed_path_text(&c.to_string());
            assert_eq!(trimmed.is_empty(), c.is_whitespace() || c == '"', "character U+{:04X}", v);
        }
    }
}
