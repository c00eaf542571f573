use itemviewer::breadcrumbs::RenderedBreadcrumb;
use itemviewer::navbar::{
    display_mode_after, favorite_hint, handle_breadcrumb_click, handle_breadcrumb_drag, merge_toolbar_action,
    mouse_navigation, special_location, toolbar_action, toolbar_enabled, FavoriteHint, ItemViewerDisplayMode,
    ItemViewerNavAction, ItemViewerNavBarAction, SpecialLocation, ToolbarClicks, ToolbarState,
};

fn no_clicks() -> ToolbarClicks {
    ToolbarClicks {
        back: false,
        forward: false,
        up: false,
        refresh: false,
        new_folder: false,
        new_file: false,
        favorite: false,
        gallery: false,
        terminal: false,
    }
}

fn state() -> ToolbarState {
    ToolbarState {
        is_favorited: false,
        is_root: false,
        is_recycle_bin: false,
        can_go_back: true,
        can_go_forward: false,
        display_mode: ItemViewerDisplayMode::Details,
    }
}

fn crumb(label: &str, path: &str, ellipsis: bool) -> RenderedBreadcrumb {
    RenderedBreadcrumb {
        label: label.to_string(),
        full_label: label.to_string(),
        path: path.to_string(),
        truncated: false,
        is_ellipsis: ellipsis,
    }
}

#[test]
fn merge_keeps_chosen_navigation_and_adds_flags() {
    let mut action = ItemViewerNavBarAction::default();
    action.nav = Some(ItemViewerNavAction::Back);
    action.create_file = true;
    let mut toolbar = ItemViewerNavBarAction::default();
    toolbar.nav = Some(ItemViewerNavAction::Up);
    toolbar.nav_to = Some("C:\\x".to_string());
    toolbar.refresh_current_directory = true;
    toolbar.is_breadcrumb_path_edit_active = true;
    merge_toolbar_action(&mut action, toolbar);
    assert_eq!(action.nav, Some(ItemViewerNavAction::Back));
    assert_eq!(action.nav_to, Some("C:\\x".to_string()));
    assert!(action.refresh_current_directory);
    assert!(action.create_file);
    assert!(!action.create_folder);
    assert!(!action.is_breadcrumb_path_edit_active);
}

#[test]
fn merge_with_idle_toolbar_changes_nothing() {
    let mut action = ItemViewerNavBarAction::default();
    action.toggle_gallery = true;
    action.nav_to = Some("D:\\".to_string());
    merge_toolbar_action(&mut action, ItemViewerNavBarAction::default());
    assert!(action.toggle_gallery);
    assert_eq!(action.nav_to, Some("D:\\".to_string()));
    assert_eq!(action.nav, None);
}

#[test]
fn merge_twice_is_merge_once() {
    let mut toolbar = ItemViewerNavBarAction::default();
    toolbar.add_favorite = true;
    toolbar.nav = Some(ItemViewerNavAction::Forward);
    let mut once = ItemViewerNavBarAction::default();
    merge_toolbar_action(&mut once, toolbar.clone());
    let mut twice = ItemViewerNavBarAction::default();
    merge_toolbar_action(&mut twice, toolbar.clone());
    merge_toolbar_action(&mut twice, toolbar);
    assert_eq!(once.nav, twice.nav);
    assert_eq!(once.add_favorite, twice.add_favorite);
}

#[test]
fn gallery_toggle_switches_mode_and_back() {
    let mut action = ItemViewerNavBarAction::default();
    assert_eq!(display_mode_after(ItemViewerDisplayMode::Details, &action), ItemViewerDisplayMode::Details);
    action.toggle_gallery = true;
    let once = display_mode_after(ItemViewerDisplayMode::Details, &action);
    assert_eq!(once, ItemViewerDisplayMode::Gallery);
    assert_eq!(display_mode_after(once, &action), ItemViewerDisplayMode::Details);
}

#[test]
fn disabled_buttons_do_nothing() {
    let mut s = state();
    s.is_recycle_bin = true;
    let mut clicks = no_clicks();
    clicks.up = true;
    clicks.new_folder = true;
    clicks.new_file = true;
    clicks.gallery = true;
    clicks.terminal = true;
    clicks.forward = true;
    let out = toolbar_action(&s, &clicks);
    assert_eq!(out.action.nav, None);
    assert!(!out.action.create_folder && !out.action.create_file && !out.action.toggle_gallery);
    assert!(!out.open_terminal);
    let en = toolbar_enabled(&s);
    assert!(!en.up && !en.new_folder && !en.terminal && !en.gallery && !en.forward && en.back);
}

#[test]
fn enabled_buttons_set_their_action() {
    let s = state();
    let mut clicks = no_clicks();
    clicks.back = true;
    clicks.up = true;
    clicks.refresh = true;
    clicks.favorite = true;
    clicks.terminal = true;
    let out = toolbar_action(&s, &clicks);
    assert_eq!(out.action.nav, Some(ItemViewerNavAction::Up));
    assert!(out.action.refresh_current_directory);
    assert!(out.action.add_favorite && !out.action.remove_favorite);
    assert!(out.open_terminal);
    let mut fav = s;
    fav.is_favorited = true;
    let out2 = toolbar_action(&fav, &clicks);
    assert!(out2.action.remove_favorite && !out2.action.add_favorite);
}

#[test]
fn favorite_hint_follows_location() {
    let mut s = state();
    assert_eq!(favorite_hint(&s), FavoriteHint::Add);
    s.is_favorited = true;
    assert_eq!(favorite_hint(&s), FavoriteHint::Remove);
    s.is_root = true;
    assert_eq!(favorite_hint(&s), FavoriteHint::Disabled);
}

#[test]
fn mouse_side_buttons_navigate() {
    assert_eq!(mouse_navigation(false, true, false, true, true, true, true), Some(ItemViewerNavAction::Back));
    assert_eq!(mouse_navigation(false, true, false, false, true, true, true), Some(ItemViewerNavAction::Forward));
    assert_eq!(mouse_navigation(true, true, false, true, true, true, true), None);
    assert_eq!(mouse_navigation(false, false, false, true, true, true, true), None);
    assert_eq!(mouse_navigation(false, true, true, true, true, true, true), None);
}

#[test]
fn special_location_label() {
    assert_eq!(special_location(true), SpecialLocation::RecycleBin);
    assert_eq!(special_location(false), SpecialLocation::ThisPc);
}

#[test]
fn click_on_crumb_opens_its_directory() {
    let segments = vec![crumb("C:", "C:", false), crumb("...", "C:", true), crumb("d", "C:\\a\\d", false)];
    let mut action = ItemViewerNavBarAction::default();
    handle_breadcrumb_click(true, &segments[2], &segments, false, &mut action);
    assert_eq!(action.nav_to, Some("C:\\a\\d".to_string()));
    let mut action = ItemViewerNavBarAction::default();
    handle_breadcrumb_click(true, &segments[1], &segments, false, &mut action);
    assert_eq!(action.nav_to, Some("C:".to_string()));
    let mut action = ItemViewerNavBarAction::default();
    handle_breadcrumb_click(true, &segments[2], &segments, true, &mut action);
    assert_eq!(action.nav_to, None);
    handle_breadcrumb_click(false, &segments[2], &segments, false, &mut action);
    assert_eq!(action.nav_to, None);
}

#[test]
fn drop_on_hovered_crumb_sets_target() {
    let segments = vec![crumb("C:", "C:", false), crumb("a", "C:\\a", false)];
    let mut target = None;
    let hovered = Some("C:\\a".to_string());
    let fb = handle_breadcrumb_drag(false, &segments[1], &segments, true, &hovered, true, &mut target);
    assert!(fb.highlight && fb.dropped);
    assert_eq!(target, Some("C:\\a".to_string()));

    let mut target = None;
    let other = Some("C:\\b".to_string());
    let fb = handle_breadcrumb_drag(true, &segments[1], &segments, true, &other, true, &mut target);
    assert!(!fb.highlight && !fb.dropped);
    assert_eq!(target, None);

    let fb = handle_breadcrumb_drag(true, &segments[1], &segments, true, &None, false, &mut target);
    assert!(fb.highlight && !fb.dropped);
    let fb = handle_breadcrumb_drag(true, &segments[1], &segments, false, &None, true, &mut target);
    assert!(!fb.highlight);
    assert_eq!(target, None);
}

#[test]
fn drop_target_compares_paths_not_text() {
    let segments = vec![crumb("C:", "C:", false), crumb("a", "C:\\a", false)];
    let mut target = None;
    let hovered = Some("C:\\a\\".to_string());
    let fb = handle_breadcrumb_drag(false, &segments[1], &segments, true, &hovered, true, &mut target);
    assert!(fb.highlight && fb.dropped);
    assert_eq!(target, Some("C:\\a".to_string()));

    let users = vec![crumb("C:", "C:", false), crumb("Users", "C:\\Users", false)];
    let mut target = None;
    let typed = Some("c:/Users".to_string());
    let fb = handle_breadcrumb_drag(false, &users[1], &users, true, &typed, true, &mut target);
    assert!(fb.dropped);
    assert_eq!(target, Some("C:\\Users".to_string()));
}

#[test]
fn drop_on_drive_crumb_accepts_drive_dot() {
    let segments = vec![crumb("C:", "C:", false)];
    let mut target = None;
    let hovered = Some("C:.".to_string());
    let fb = handle_breadcrumb_drag(false, &segments[0], &segments, true, &hovered, true, &mut target);
    assert!(fb.highlight && fb.dropped);
    assert_eq!(target, Some("C:".to_string()));
}
