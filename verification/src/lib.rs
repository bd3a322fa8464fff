use vstd::prelude::*;

pub mod text;
pub mod line_edit;
pub mod keybinding;
pub mod ui;
pub mod bookmark;
pub mod config;
pub mod theme;
pub mod search;
pub mod history;
pub mod import_export;
pub mod netscape;
pub mod launcher;
pub mod session;
pub mod read_back;

verus! {
} // verus!
