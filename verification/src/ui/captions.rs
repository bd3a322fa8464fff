//! The texts that the screens show for the session state: mode names, key hints,
//! dialog prompts, the list position and where the text cursor sits.
use vstd::prelude::*;
use crate::keybinding::AppMode;
use crate::line_edit::cursor_ok;
use crate::text::{
    boundary_index, byte_len, chars_of, decimal, decimal_text, index_of_offset, owned, push_all,
    utf8_len,
};

verus! {

/// The name of a mode in the status bar.
pub open spec fn mode_name(m: AppMode) -> Seq<char> {
    match m {
        AppMode::Normal => "NORMAL"@,
        AppMode::Search => "SEARCH"@,
        AppMode::Add => "ADD"@,
        AppMode::Edit => "EDIT"@,
        AppMode::DeleteConfirm => "DELETE"@,
        AppMode::Help => "HELP"@,
        AppMode::ImportExport => "IMPORT/EXPORT"@,
        AppMode::ImportExportInput => "PATH INPUT"@,
        AppMode::History => "HISTORY"@,
        AppMode::HistoryDeleteConfirm => "DELETE HISTORY"@,
        AppMode::HistoryExportSelect => "EXPORT HISTORY"@,
    }
}

/// The name of a mode (see `mode_name`).
pub fn mode_label(m: AppMode) -> (r: &'static str)
    ensures
        r@ == mode_name(m),
{
    match m {
        AppMode::Normal => "NORMAL",
        AppMode::Search => "SEARCH",
        AppMode::Add => "ADD",
        AppMode::Edit => "EDIT",
        AppMode::DeleteConfirm => "DELETE",
        AppMode::Help => "HELP",
        AppMode::ImportExport => "IMPORT/EXPORT",
        AppMode::ImportExportInput => "PATH INPUT",
        AppMode::History => "HISTORY",
        AppMode::HistoryDeleteConfirm => "DELETE HISTORY",
        AppMode::HistoryExportSelect => "EXPORT HISTORY",
    }
}

/// The key hints of a mode in the status bar.
pub open spec fn hints_of(m: AppMode) -> Seq<char> {
    match m {
        AppMode::Normal => "[/]Search [a]Add [I]Import/Export [X]History [?]Help [q]Quit"@,
        AppMode::Search => "[Enter]Confirm [Esc]Cancel [↓↑]Navigate"@,
        AppMode::Add | AppMode::Edit => "[Ctrl+S]Save [Esc]Cancel [Tab]Next"@,
        AppMode::DeleteConfirm => "[y]Delete [n]Cancel"@,
        AppMode::Help => "[Esc]Close"@,
        AppMode::ImportExport => "[1-7]Select [Esc]Cancel"@,
        AppMode::ImportExportInput => "[Enter]Confirm [Esc]Back [Ctrl+U]Clear"@,
        AppMode::History => "[r/Enter]Restore [d]Delete [E]Export [Esc]Back"@,
        AppMode::HistoryDeleteConfirm => "[y]Delete [n]Cancel"@,
        AppMode::HistoryExportSelect => "[1-3]Select [Esc]Cancel"@,
    }
}

/// The key hints of a mode (see `hints_of`).
pub fn mode_hints(m: AppMode) -> (r: &'static str)
    ensures
        r@ == hints_of(m),
{
    match m {
        AppMode::Normal => "[/]Search [a]Add [I]Import/Export [X]History [?]Help [q]Quit",
        AppMode::Search => "[Enter]Confirm [Esc]Cancel [↓↑]Navigate",
        AppMode::Add | AppMode::Edit => "[Ctrl+S]Save [Esc]Cancel [Tab]Next",
        AppMode::DeleteConfirm => "[y]Delete [n]Cancel",
        AppMode::Help => "[Esc]Close",
        AppMode::ImportExport => "[1-7]Select [Esc]Cancel",
        AppMode::ImportExportInput => "[Enter]Confirm [Esc]Back [Ctrl+U]Clear",
        AppMode::History => "[r/Enter]Restore [d]Delete [E]Export [Esc]Back",
        AppMode::HistoryDeleteConfirm => "[y]Delete [n]Cancel",
        AppMode::HistoryExportSelect => "[1-3]Select [Esc]Cancel",
    }
}

/// The title of the path input for the chosen menu operation.
pub open spec fn path_title(op: Option<char>) -> Seq<char> {
    match op {
        Some(c) => if c == '1' {
            "Import from JSON"@
        } else if c == '2' {
            "Import from HTML"@
        } else if c == '3' {
            "Import from XLSX"@
        } else if c == '5' {
            "Export to JSON"@
        } else if c == '6' {
            "Export to HTML"@
        } else if c == '7' {
            "Export to XLSX"@
        } else {
            "File Path"@
        },
        None => "File Path"@,
    }
}

/// The title of the path input (see `path_title`).
pub fn path_input_title(op: Option<char>) -> (r: &'static str)
    ensures
        r@ == path_title(op),
{
    match op {
        Some(c) => if c == '1' {
            "Import from JSON"
        } else if c == '2' {
            "Import from HTML"
        } else if c == '3' {
            "Import from XLSX"
        } else if c == '5' {
            "Export to JSON"
        } else if c == '6' {
            "Export to HTML"
        } else if c == '7' {
            "Export to XLSX"
        } else {
            "File Path"
        },
        None => "File Path",
    }
}

/// What the delete dialog asks about: the one bookmark's name in quotes, or how
/// many bookmarks.
pub open spec fn delete_target(names: Seq<Seq<char>>) -> Seq<char> {
    if names.len() == 1 {
        "\""@ + names[0] + "\""@
    } else {
        decimal(names.len()) + " bookmarks"@
    }
}

/// What the delete dialog asks about (see `delete_target`).
pub fn delete_prompt_name(names: &Vec<String>) -> (r: String)
    ensures
        r@ == delete_target(names@.map_values(|s: String| s@)),
{
    if names.len() == 1 {
        let mut s = owned("\"");
        push_all(&mut s, names[0].as_str());
        push_all(&mut s, "\"");
        s
    } else {
        let mut s = decimal_text(names.len());
        push_all(&mut s, " bookmarks");
        s
    }
}

/// The question of the history delete dialog.
pub open spec fn history_delete_text(n: nat) -> Seq<char> {
    "Delete "@ + decimal(n) + " history entr"@ + (if n == 1 {
        "y"@
    } else {
        "ies"@
    }) + "?"@
}

/// The question of the history delete dialog (see `history_delete_text`).
pub fn history_delete_prompt(n: usize) -> (r: String)
    ensures
        r@ == history_delete_text(n as nat),
{
    let mut s = owned("Delete ");
    push_all(&mut s, decimal_text(n).as_str());
    push_all(&mut s, " history entr");
    if n == 1 {
        push_all(&mut s, "y");
    } else {
        push_all(&mut s, "ies");
    }
    push_all(&mut s, "?");
    s
}

/// The highlighted row's place in the list, as `row/count`, or `0/0` for an empty list.
pub open spec fn position(filtered: nat, selected: nat) -> Seq<char> {
    if filtered > 0 {
        decimal(selected + 1) + "/"@ + decimal(filtered)
    } else {
        "0/0"@
    }
}

/// The highlighted row's place in the list (see `position`).
pub fn position_text(filtered: usize, selected: usize) -> (r: String)
    requires
        filtered > 0 ==> selected < usize::MAX,
    ensures
        r@ == position(filtered as nat, selected as nat),
{
    if filtered > 0 {
        let mut s = decimal_text(selected + 1);
        push_all(&mut s, "/");
        push_all(&mut s, decimal_text(filtered).as_str());
        s
    } else {
        owned("0/0")
    }
}

/// The screen column of a text cursor: the number of characters before it, or of the
/// whole text when the cursor lies past its end.
pub open spec fn column_of(text: Seq<char>, cursor: int) -> int {
    if cursor <= utf8_len(text) {
        boundary_index(text, cursor)
    } else {
        text.len() as int
    }
}

/// The screen column of a text cursor (see `column_of`).
pub fn cursor_column(text: &str, cursor: usize) -> (r: usize)
    requires
        cursor > utf8_len(text@) || cursor_ok(text@, cursor as int),
    ensures
        r == column_of(text@, cursor as int),
{
    let v = chars_of(text);
    if cursor <= byte_len(text) {
        index_of_offset(&v, cursor)
    } else {
        v.len()
    }
}

} // verus!
