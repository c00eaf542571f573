//! Decision logic of an item viewer's navigation bar and of its clipboard
//! exchange, with the behaviour of each function stated and proved.

pub mod navbar;
pub mod text;
pub mod paths;
pub mod breadcrumbs;
pub mod editing;
pub mod utf16;
pub mod clipboard;
pub mod terminal;
