//! The navigation bar's actions: the toolbar, the mouse's side buttons,
//! clicks and drops on breadcrumbs, and how they combine in one frame.

use vstd::prelude::*;
use crate::breadcrumbs::RenderedBreadcrumb;
use crate::paths::{same_path, same_path_text};

verus! {

/// A history or hierarchy move requested by the navigation bar.
#[derive(Clone, Copy, Debug, PartialEq, Eq, Structural)]
pub enum ItemViewerNavAction {
    Back,
    Forward,
    Up,
}

/// How the item viewer lays out the entries of a directory.
#[derive(Clone, Copy, Debug, PartialEq, Eq, Structural)]
pub enum ItemViewerDisplayMode {
    Details,
    Gallery,
}

/// Everything the navigation bar asks its owner to do after one frame.
#[derive(Clone, Debug)]
pub struct ItemViewerNavBarAction {
    pub nav: Option<ItemViewerNavAction>,
    pub nav_to: Option<String>,
    pub refresh_current_directory: bool,
    pub create_folder: bool,
    pub create_file: bool,
    pub add_favorite: bool,
    pub remove_favorite: bool,
    pub toggle_gallery: bool,
    pub is_breadcrumb_path_edit_active: bool,
    pub move_files_to_breadcrumb_dir: Option<String>,
}

/// The action that asks for nothing.
pub open spec fn idle_action() -> ItemViewerNavBarAction {
    ItemViewerNavBarAction {
        nav: None,
        nav_to: None,
        refresh_current_directory: false,
        create_folder: false,
        create_file: false,
        add_favorite: false,
        remove_favorite: false,
        toggle_gallery: false,
        is_breadcrumb_path_edit_active: false,
        move_files_to_breadcrumb_dir: None,
    }
}

impl Default for ItemViewerNavBarAction {
    fn default() -> (r: Self)
        ensures
            r == idle_action(),
    {
        ItemViewerNavBarAction {
            nav: None,
            nav_to: None,
            refresh_current_directory: false,
            create_folder: false,
            create_file: false,
            add_favorite: false,
            remove_favorite: false,
            toggle_gallery: false,
            is_breadcrumb_path_edit_active: false,
            move_files_to_breadcrumb_dir: None,
        }
    }
}

/// `action` with the toolbar's requests folded in: a navigation or a target
/// already chosen stays, the toolbar's flags are added to those already set,
/// and the fields the toolbar does not own are left as they were.
pub open spec fn merged(action: ItemViewerNavBarAction, toolbar: ItemViewerNavBarAction) -> ItemViewerNavBarAction {
    ItemViewerNavBarAction {
        nav: if action.nav is Some { action.nav } else { toolbar.nav },
        nav_to: if action.nav_to is Some { action.nav_to } else { toolbar.nav_to },
        refresh_current_directory: action.refresh_current_directory || toolbar.refresh_current_directory,
        create_folder: action.create_folder || toolbar.create_folder,
        create_file: action.create_file || toolbar.create_file,
        add_favorite: action.add_favorite || toolbar.add_favorite,
        remove_favorite: action.remove_favorite || toolbar.remove_favorite,
        toggle_gallery: action.toggle_gallery || toolbar.toggle_gallery,
        is_breadcrumb_path_edit_active: action.is_breadcrumb_path_edit_active,
        move_files_to_breadcrumb_dir: action.move_files_to_breadcrumb_dir,
    }
}

/// Folds the requests of the toolbar into the frame's action.
pub fn merge_toolbar_action(action: &mut ItemViewerNavBarAction, toolbar: ItemViewerNavBarAction)
    ensures
        *final(action) == merged(*old(action), toolbar),
{
    if action.nav.is_none() {
        action.nav = toolbar.nav;
    }
    if action.nav_to.is_none() {
        action.nav_to = toolbar.nav_to;
    }
    action.refresh_current_directory = action.refresh_current_directory || toolbar.refresh_current_directory;
    action.create_folder = action.create_folder || toolbar.create_folder;
    action.create_file = action.create_file || toolbar.create_file;
    action.add_favorite = action.add_favorite || toolbar.add_favorite;
    action.remove_favorite = action.remove_favorite || toolbar.remove_favorite;
    action.toggle_gallery = action.toggle_gallery || toolbar.toggle_gallery;
}

/// The other display mode.
pub open spec fn other_mode(mode: ItemViewerDisplayMode) -> ItemViewerDisplayMode {
    match mode {
        ItemViewerDisplayMode::Details => ItemViewerDisplayMode::Gallery,
        ItemViewerDisplayMode::Gallery => ItemViewerDisplayMode::Details,
    }
}

/// The display mode after the frame's action: switched where the action asks
/// for the gallery toggle, else kept.
pub fn display_mode_after(mode: ItemViewerDisplayMode, action: &ItemViewerNavBarAction) -> (r: ItemViewerDisplayMode)
    ensures
        r == (if action.toggle_gallery { other_mode(mode) } else { mode }),
{
    if action.toggle_gallery {
        match mode {
            ItemViewerDisplayMode::Details => ItemViewerDisplayMode::Gallery,
            ItemViewerDisplayMode::Gallery => ItemViewerDisplayMode::Details,
        }
    } else {
        mode
    }
}

/// Where the current directory stands, as the toolbar needs it.
#[derive(Clone, Copy, Debug)]
pub struct ToolbarState {
    pub is_favorited: bool,
    pub is_root: bool,
    pub is_recycle_bin: bool,
    pub can_go_back: bool,
    pub can_go_forward: bool,
    pub display_mode: ItemViewerDisplayMode,
}

/// Which toolbar buttons are enabled.
#[derive(Clone, Copy, Debug)]
pub struct ToolbarEnabled {
    pub back: bool,
    pub forward: bool,
    pub up: bool,
    pub new_folder: bool,
    pub new_file: bool,
    pub favorite: bool,
    pub gallery: bool,
    pub terminal: bool,
}

/// Going up is possible outside the root and the recycle bin.
pub open spec fn can_go_up(state: ToolbarState) -> bool {
    !state.is_root && !state.is_recycle_bin
}

/// The buttons are enabled as follows: back and forward where the history
/// allows, up and favourite outside the root and the recycle bin, gallery
/// likewise, new folder, new file and terminal outside the recycle bin.
pub fn toolbar_enabled(state: &ToolbarState) -> (r: ToolbarEnabled)
    ensures
        r.back == state.can_go_back,
        r.forward == state.can_go_forward,
        r.up == can_go_up(*state),
        r.new_folder == !state.is_recycle_bin,
        r.new_file == !state.is_recycle_bin,
        r.favorite == can_go_up(*state),
        r.gallery == (!state.is_recycle_bin && !state.is_root),
        r.terminal == !state.is_recycle_bin,
        state.is_root ==> !r.up && !r.favorite && !r.gallery,
        state.is_recycle_bin ==> !r.up && !r.favorite && !r.gallery && !r.new_folder && !r.new_file && !r.terminal,
{
    let up = !state.is_root && !state.is_recycle_bin;
    ToolbarEnabled {
        back: state.can_go_back,
        forward: state.can_go_forward,
        up,
        new_folder: !state.is_recycle_bin,
        new_file: !state.is_recycle_bin,
        favorite: up,
        gallery: !state.is_recycle_bin && !state.is_root,
        terminal: !state.is_recycle_bin,
    }
}

/// What the favourite star offers.
#[derive(Clone, Copy, Debug, PartialEq, Eq, Structural)]
pub enum FavoriteHint {
    /// Favourites are not available here.
    Disabled,
    /// The directory is a favourite and can be removed.
    Remove,
    /// The directory can be added to the favourites.
    Add,
}

pub fn favorite_hint(state: &ToolbarState) -> (r: FavoriteHint)
    ensures
        r == (if state.is_root || state.is_recycle_bin {
            FavoriteHint::Disabled
        } else if state.is_favorited {
            FavoriteHint::Remove
        } else {
            FavoriteHint::Add
        }),
{
    if state.is_root || state.is_recycle_bin {
        FavoriteHint::Disabled
    } else if state.is_favorited {
        FavoriteHint::Remove
    } else {
        FavoriteHint::Add
    }
}

/// The buttons that reported a click in this frame.
#[derive(Clone, Copy, Debug)]
pub struct ToolbarClicks {
    pub back: bool,
    pub forward: bool,
    pub up: bool,
    pub refresh: bool,
    pub new_folder: bool,
    pub new_file: bool,
    pub favorite: bool,
    pub gallery: bool,
    pub terminal: bool,
}

/// What the toolbar asks for after one frame, and whether to open a terminal
/// in the current directory.
#[derive(Clone, Debug)]
pub struct ToolbarOutcome {
    pub action: ItemViewerNavBarAction,
    pub open_terminal: bool,
}

/// The navigation the toolbar requests: the last of back, forward and up
/// that was clicked while possible.
pub open spec fn toolbar_nav(state: ToolbarState, clicks: ToolbarClicks) -> Option<ItemViewerNavAction> {
    if clicks.up && can_go_up(state) {
        Some(ItemViewerNavAction::Up)
    } else if clicks.forward && state.can_go_forward {
        Some(ItemViewerNavAction::Forward)
    } else if clicks.back && state.can_go_back {
        Some(ItemViewerNavAction::Back)
    } else {
        None
    }
}

/// Turns the clicks on the toolbar into its action: a click counts only
/// where its button allows it; the star adds or removes the favourite.
pub fn toolbar_action(state: &ToolbarState, clicks: &ToolbarClicks) -> (r: ToolbarOutcome)
    ensures
        r.action == (ItemViewerNavBarAction {
            nav: toolbar_nav(*state, *clicks),
            nav_to: None,
            refresh_current_directory: clicks.refresh,
            create_folder: clicks.new_folder && !state.is_recycle_bin,
            create_file: clicks.new_file && !state.is_recycle_bin,
            add_favorite: clicks.favorite && !state.is_favorited,
            remove_favorite: clicks.favorite && state.is_favorited,
            toggle_gallery: clicks.gallery && !state.is_recycle_bin,
            is_breadcrumb_path_edit_active: false,
            move_files_to_breadcrumb_dir: None,
        }),
        r.open_terminal == (clicks.terminal && !state.is_recycle_bin),
        r.action.nav == Some(ItemViewerNavAction::Up) ==> clicks.up && !state.is_root && !state.is_recycle_bin,
        r.action.nav == Some(ItemViewerNavAction::Forward) ==> clicks.forward && state.can_go_forward,
        r.action.nav == Some(ItemViewerNavAction::Back) ==> clicks.back && state.can_go_back,
{
    let mut action = ItemViewerNavBarAction::default();
    if clicks.back && state.can_go_back {
        action.nav = Some(ItemViewerNavAction::Back);
    }
    if clicks.forward && state.can_go_forward {
        action.nav = Some(ItemViewerNavAction::Forward);
    }
    let up = !state.is_root && !state.is_recycle_bin;
    if clicks.up && up {
        action.nav = Some(ItemViewerNavAction::Up);
    }
    if clicks.refresh {
        action.refresh_current_directory = true;
    }
    if clicks.new_folder && !state.is_recycle_bin {
        action.create_folder = true;
    }
    if clicks.new_file && !state.is_recycle_bin {
        action.create_file = true;
    }
    if clicks.favorite {
        if state.is_favorited {
            action.remove_favorite = true;
        } else {
            action.add_favorite = true;
        }
    }
    if clicks.gallery && !state.is_recycle_bin {
        action.toggle_gallery = true;
    }
    ToolbarOutcome { action, open_terminal: clicks.terminal && !state.is_recycle_bin }
}

/// The navigation that the mouse's side buttons ask for: only where the frame
/// chose none yet, the pointer is over the bar and no path is being edited;
/// back before forward, each only where the history allows.
pub fn mouse_navigation(
    nav_chosen: bool,
    pointer_in_bar: bool,
    editing_path: bool,
    can_go_back: bool,
    back_pressed: bool,
    can_go_forward: bool,
    forward_pressed: bool,
) -> (r: Option<ItemViewerNavAction>)
    ensures
        r == (if nav_chosen || !pointer_in_bar || editing_path {
            None
        } else if can_go_back && back_pressed {
            Some(ItemViewerNavAction::Back)
        } else if can_go_forward && forward_pressed {
            Some(ItemViewerNavAction::Forward)
        } else {
            None
        }),
{
    if nav_chosen || !pointer_in_bar || editing_path {
        None
    } else if can_go_back && back_pressed {
        Some(ItemViewerNavAction::Back)
    } else if can_go_forward && forward_pressed {
        Some(ItemViewerNavAction::Forward)
    } else {
        None
    }
}

/// The special places the bar shows instead of breadcrumbs.
#[derive(Clone, Copy, Debug, PartialEq, Eq, Structural)]
pub enum SpecialLocation {
    ThisPc,
    RecycleBin,
}

/// The special place shown at the root or in the recycle bin, which a click
/// on its label opens.
pub fn special_location(is_recycle_bin: bool) -> (r: SpecialLocation)
    ensures
        r == (if is_recycle_bin { SpecialLocation::RecycleBin } else { SpecialLocation::ThisPc }),
{
    if is_recycle_bin {
        SpecialLocation::RecycleBin
    } else {
        SpecialLocation::ThisPc
    }
}

/// A click on a breadcrumb, outside a drag, opens its directory; the
/// ellipsis opens the first crumb's.
pub fn handle_breadcrumb_click(
    clicked: bool,
    crumb: &RenderedBreadcrumb,
    segments: &Vec<RenderedBreadcrumb>,
    drag_active: bool,
    action: &mut ItemViewerNavBarAction,
)
    ensures
        final(action).nav_to == (if drag_active || !clicked {
            old(action).nav_to
        } else if crumb.is_ellipsis {
            if segments@.len() > 0 { Some(segments@[0].path) } else { old(action).nav_to }
        } else {
            Some(crumb.path)
        }),
        final(action).nav == old(action).nav,
        final(action).refresh_current_directory == old(action).refresh_current_directory,
        final(action).create_folder == old(action).create_folder,
        final(action).create_file == old(action).create_file,
        final(action).add_favorite == old(action).add_favorite,
        final(action).remove_favorite == old(action).remove_favorite,
        final(action).toggle_gallery == old(action).toggle_gallery,
        final(action).is_breadcrumb_path_edit_active == old(action).is_breadcrumb_path_edit_active,
        final(action).move_files_to_breadcrumb_dir == old(action).move_files_to_breadcrumb_dir,
{
    if drag_active || !clicked {
        return;
    }
    if crumb.is_ellipsis {
        if segments.len() > 0 {
            action.nav_to = Some(segments[0].path.clone());
        }
    } else {
        action.nav_to = Some(crumb.path.clone());
    }
}

/// The directory a breadcrumb stands for: its own, or for the ellipsis the
/// first crumb's.
pub open spec fn drop_directory(crumb: RenderedBreadcrumb, segments: Seq<RenderedBreadcrumb>) -> Option<String> {
    if crumb.is_ellipsis {
        if segments.len() > 0 { Some(segments[0].path) } else { None }
    } else {
        Some(crumb.path)
    }
}

/// Whether the dragged files hover a breadcrumb: where both the crumb's
/// directory and the hovered target are known, they name the same path;
/// else the pointer is over the crumb.
pub open spec fn drag_hovers(target: Option<String>, hovered_target: Option<String>, pointer_in_crumb: bool) -> bool {
    match (target, hovered_target) {
        (Some(t), Some(h)) => same_path(t@, h@),
        _ => pointer_in_crumb,
    }
}

/// What a breadcrumb does while files are dragged: whether it lights up,
/// and whether the files were dropped on it.
#[derive(Clone, Copy, Debug)]
pub struct DragFeedback {
    pub highlight: bool,
    pub dropped: bool,
}

/// A breadcrumb under a drag lights up while hovered, and takes the files
/// dropped on it when the pointer is released.
pub fn handle_breadcrumb_drag(
    pointer_in_crumb: bool,
    crumb: &RenderedBreadcrumb,
    segments: &Vec<RenderedBreadcrumb>,
    drag_active: bool,
    hovered_target: &Option<String>,
    pointer_released: bool,
    drop_target: &mut Option<String>,
) -> (r: DragFeedback)
    ensures
        ({
            let target = drop_directory(*crumb, segments@);
            let hovered = drag_active && drag_hovers(target, *hovered_target, pointer_in_crumb);
            &&& r.highlight == hovered
            &&& r.dropped == (hovered && pointer_released && target is Some)
            &&& *final(drop_target) == (if r.dropped { target } else { *old(drop_target) })
        }),
        drag_active && pointer_released && pointer_in_crumb && hovered_target.is_none()
            && crumb.is_ellipsis && segments@.len() > 0 ==> r.dropped && *final(drop_target) == Some(segments@[0].path),
        drag_active && pointer_released && pointer_in_crumb && hovered_target.is_none()
            && !crumb.is_ellipsis ==> r.dropped && *final(drop_target) == Some(crumb.path),
        r.dropped ==> drag_active && pointer_released,
{
    if !drag_active {
        return DragFeedback { highlight: false, dropped: false };
    }
    let target: Option<String> = if crumb.is_ellipsis {
        if segments.len() > 0 { Some(segments[0].path.clone()) } else { None }
    } else {
        Some(crumb.path.clone())
    };
    let hovered = match (&target, hovered_target) {
        (Some(t), Some(h)) => same_path_text(t, h),
        _ => pointer_in_crumb,
    };
    if !hovered {
        return DragFeedback { highlight: false, dropped: false };
    }
    if pointer_released {
        match target {
            Some(t) => {
                *drop_target = Some(t);
                return DragFeedback { highlight: true, dropped: true };
            },
            None => {},
        }
    }
    DragFeedback { highlight: true, dropped: false }
}

} // verus!

verus! {

/// Folding in a toolbar that asks for nothing changes nothing.
pub proof fn lemma_merge_idle_toolbar(action: ItemViewerNavBarAction)
    ensures
        merged(action, idle_action()) == action,
{
}

/// Folding in the same toolbar twice is folding it in once.
pub proof fn lemma_merge_twice(action: ItemViewerNavBarAction, toolbar: ItemViewerNavBarAction)
    ensures
        merged(merged(action, toolbar), toolbar) == merged(action, toolbar),
{
}

/// A navigation chosen before the toolbar is folded in is never replaced.
pub proof fn lemma_merge_keeps_chosen_navigation(action: ItemViewerNavBarAction, toolbar: ItemViewerNavBarAction)
    requires
        action.nav is Some,
    ensures
        merged(action, toolbar).nav == action.nav,
{
}

/// Toggling the display mode twice gives the mode back.
pub proof fn lemma_toggle_twice(mode: ItemViewerDisplayMode)
    ensures
        other_mode(other_mode(mode)) == mode,
        other_mode(mode) != mode,
{
}

/// The toolbar asks to go up only when up was clicked outside the root and
/// the recycle bin, and whenever that happens it does.
pub proof fn lemma_up_only_below_root(state: ToolbarState, clicks: ToolbarClicks)
    ensures
        toolbar_nav(state, clicks) == Some(ItemViewerNavAction::Up)
            <==> clicks.up && !state.is_root && !state.is_recycle_bin,
        state.is_root ==> !can_go_up(state),
        state.is_recycle_bin ==> !can_go_up(state),
        !state.is_root && !state.is_recycle_bin ==> can_go_up(state),
{
}

/// Any navigation the toolbar asks for was clicked and is allowed where the
/// directory stands.
pub proof fn lemma_toolbar_nav_allowed(state: ToolbarState, clicks: ToolbarClicks)
    ensures
        toolbar_nav(state, clicks) == Some(ItemViewerNavAction::Back) ==> clicks.back && state.can_go_back,
        toolbar_nav(state, clicks) == Some(ItemViewerNavAction::Forward) ==> clicks.forward && state.can_go_forward,
        toolbar_nav(state, clicks) is None ==> !(clicks.back && state.can_go_back)
            && !(clicks.forward && state.can_go_forward)
            && !(clicks.up && !state.is_root && !state.is_recycle_bin),
{
}

/// A breadcrumb stands for a directory exactly when it is not the ellipsis,
/// or it is and there are crumbs: the ellipsis stands for the first crumb's
/// directory, any other crumb for its own.
pub proof fn lemma_drop_directory(crumb: RenderedBreadcrumb, segments: Seq<RenderedBreadcrumb>)
    ensures
        drop_directory(crumb, segments) is Some <==> (!crumb.is_ellipsis || segments.len() > 0),
        crumb.is_ellipsis && segments.len() > 0 ==> drop_directory(crumb, segments) == Some(segments[0].path),
        !crumb.is_ellipsis ==> drop_directory(crumb, segments) == Some(crumb.path),
{
}

/// Files dropped on a breadcrumb go where a click on it leads: released over
/// a crumb whose drop the pointer decides, they go to the directory that
/// `handle_breadcrumb_click` opens for that crumb.
pub proof fn lemma_drop_goes_where_click_leads(crumb: RenderedBreadcrumb, segments: Seq<RenderedBreadcrumb>)
    requires
        !crumb.is_ellipsis || segments.len() > 0,
    ensures
        drag_hovers(drop_directory(crumb, segments), None, true),
        drop_directory(crumb, segments) == Some(if crumb.is_ellipsis { segments[0].path } else { crumb.path }),
{
}

/// Folding in the toolbar loses no request and invents none: a flag is set
/// after exactly when it was set before or by the toolbar; a navigation or a
/// target is the one chosen before where there was one, else the toolbar's;
/// the fields the toolbar does not own are kept.
pub proof fn lemma_merge_loses_nothing(action: ItemViewerNavBarAction, toolbar: ItemViewerNavBarAction)
    ensures
        ({
            let m = merged(action, toolbar);
            &&& m.refresh_current_directory <==> (action.refresh_current_directory || toolbar.refresh_current_directory)
            &&& m.create_folder <==> (action.create_folder || toolbar.create_folder)
            &&& m.create_file <==> (action.create_file || toolbar.create_file)
            &&& m.add_favorite <==> (action.add_favorite || toolbar.add_favorite)
            &&& m.remove_favorite <==> (action.remove_favorite || toolbar.remove_favorite)
            &&& m.toggle_gallery <==> (action.toggle_gallery || toolbar.toggle_gallery)
            &&& (action.nav is Some ==> m.nav == action.nav)
            &&& (action.nav is None ==> m.nav == toolbar.nav)
            &&& (action.nav_to is Some ==> m.nav_to == action.nav_to)
            &&& (action.nav_to is None ==> m.nav_to == toolbar.nav_to)
            &&& m.is_breadcrumb_path_edit_active == action.is_breadcrumb_path_edit_active
            &&& m.move_files_to_breadcrumb_dir == action.move_files_to_breadcrumb_dir
        }),
{
}

} // verus!
