//! The interactive session: what each key action does to the screen state and the
//! store, and which outside work (opening, copying, importing, exporting, history
//! files) it asks for. The event loop that draws, reads keys and performs that work
//! lives outside the library and feeds the outcomes back.
use vstd::prelude::*;
use crate::bookmark::{contains_text, is_add, is_update, now_micros, without_ids, Bookmark, BookmarkStore};
use crate::config::{expand_home, expand_tilde};
use crate::netscape::trim_chars;
use crate::history::{format_utc_micros, id_pattern, utc_format};
use crate::import_export::{blank, ExportFormat};
use crate::keybinding::{Action, AppMode, KeyCode};
use crate::line_edit::{
    backspace_at_cursor, cursor_left_in, cursor_ok, cursor_right_in, delete_at_cursor,
    delete_word_at_cursor, insert_at_cursor, text_backspace, text_delete, text_delete_word,
    text_insert, text_left, text_right,
};
use crate::text::{
    byte_len, chars_of, decimal, decimal_text, string_of, is_blank, lemma_boundary_unique, lemma_byte_offset_full,
    owned, push_all, str_eq, trim, utf8_len,
};
use crate::ui::form_view::{FormData, FormModel};
use crate::ui::help_popup::content_height;

verus! {

/// The session state kept between key presses.
pub struct Session {
    pub mode: AppMode,
    pub search_query: String,
    pub search_cursor: usize,
    pub selected_index: usize,
    pub multi_selected: Vec<String>,
    pub form_data: Option<FormData>,
    pub editing_id: Option<String>,
    pub status_message: String,
    pub message_timer: u8,
    pub import_export_path: String,
    pub import_export_cursor: usize,
    pub import_export_error: String,
    pub import_export_operation: Option<char>,
    pub history_selected: usize,
    pub help_scroll: u16,
    pub history_multi_selected: Vec<String>,
}

/// What the application knows when a key action arrives: the filtered list (its
/// length and the highlighted bookmark), the history (its length and the highlighted
/// entry's id), the terminal height, the home directory and the default import folder.
pub struct KeyContext {
    pub filtered_len: usize,
    pub current: Option<Bookmark>,
    pub history_len: usize,
    pub history_current: Option<String>,
    pub terminal_height: u16,
    pub home: String,
    pub import_dir: String,
}

/// Outside work that an action asks for.
pub enum Effect {
    Nothing,
    Quit,
    /// Open this URL in the browser and end the session.
    Open(String),
    /// Copy this URL to the clipboard (then `yank_done`).
    Yank(String),
    /// Write the store to its file.
    SaveStore,
    /// Import from Chromium's bookmark file (then `chromium_import_done`).
    ImportChromium,
    /// Export to a timestamped file in the export folder (then `export_direct_done`).
    ExportBookmarks(ExportFormat),
    /// Import this file (then `import_file_done`).
    ImportFile(String),
    /// Export to this file (then `export_file_done`).
    ExportFile(ExportFormat, String),
    /// Restore the snapshot of this history entry (then `restore_done`).
    RestoreHistory(String),
    /// Delete these history entries (then `history_delete_done`).
    DeleteHistory(Vec<String>),
    /// Export the history to a timestamped file (then `history_export_done`).
    ExportHistory(ExportFormat),
}

// ─── the model ───────────────────────────────────────────────────────────

pub struct SessionModel {
    pub mode: AppMode,
    pub query: Seq<char>,
    pub query_cursor: int,
    pub selected: int,
    pub multi: Seq<Seq<char>>,
    pub form: Option<FormModel>,
    pub editing: Option<Seq<char>>,
    pub status: Seq<char>,
    pub timer: u8,
    pub path: Seq<char>,
    pub path_cursor: int,
    pub path_error: Seq<char>,
    pub operation: Option<char>,
    pub history_selected: int,
    pub help_scroll: u16,
    pub history_multi: Seq<Seq<char>>,
}

pub enum EffectModel {
    Nothing,
    Quit,
    Open(Seq<char>),
    Yank(Seq<char>),
    SaveStore,
    ImportChromium,
    ExportBookmarks(ExportFormat),
    ImportFile(Seq<char>),
    ExportFile(ExportFormat, Seq<char>),
    RestoreHistory(Seq<char>),
    DeleteHistory(Seq<Seq<char>>),
    ExportHistory(ExportFormat),
}

pub open spec fn texts(v: Seq<String>) -> Seq<Seq<char>> {
    v.map_values(|s: String| s@)
}

pub open spec fn opt_form(f: Option<FormData>) -> Option<FormModel> {
    match f {
        Some(d) => Some(d@),
        None => None,
    }
}

pub open spec fn opt_text(t: Option<String>) -> Option<Seq<char>> {
    match t {
        Some(s) => Some(s@),
        None => None,
    }
}

impl View for Session {
    type V = SessionModel;

    open spec fn view(&self) -> SessionModel {
        SessionModel {
            mode: self.mode,
            query: self.search_query@,
            query_cursor: self.search_cursor as int,
            selected: self.selected_index as int,
            multi: texts(self.multi_selected@),
            form: opt_form(self.form_data),
            editing: opt_text(self.editing_id),
            status: self.status_message@,
            timer: self.message_timer,
            path: self.import_export_path@,
            path_cursor: self.import_export_cursor as int,
            path_error: self.import_export_error@,
            operation: self.import_export_operation,
            history_selected: self.history_selected as int,
            help_scroll: self.help_scroll,
            history_multi: texts(self.history_multi_selected@),
        }
    }
}

impl View for Effect {
    type V = EffectModel;

    open spec fn view(&self) -> EffectModel {
        match self {
            Effect::Nothing => EffectModel::Nothing,
            Effect::Quit => EffectModel::Quit,
            Effect::Open(u) => EffectModel::Open(u@),
            Effect::Yank(u) => EffectModel::Yank(u@),
            Effect::SaveStore => EffectModel::SaveStore,
            Effect::ImportChromium => EffectModel::ImportChromium,
            Effect::ExportBookmarks(f) => EffectModel::ExportBookmarks(*f),
            Effect::ImportFile(p) => EffectModel::ImportFile(p@),
            Effect::ExportFile(f, p) => EffectModel::ExportFile(*f, p@),
            Effect::RestoreHistory(id) => EffectModel::RestoreHistory(id@),
            Effect::DeleteHistory(ids) => EffectModel::DeleteHistory(texts(ids@)),
            Effect::ExportHistory(f) => EffectModel::ExportHistory(*f),
        }
    }
}

impl SessionModel {
    /// Cursors sit on character boundaries of their texts, an open form can be edited,
    /// and neither selection holds an id twice.
    pub open spec fn wf(self) -> bool {
        &&& cursor_ok(self.query, self.query_cursor)
        &&& self.multi.no_duplicates()
        &&& self.history_multi.no_duplicates()
        &&& (self.mode == AppMode::ImportExport || self.mode == AppMode::ImportExportInput)
            ==> cursor_ok(self.path, self.path_cursor)
        &&& self.form matches Some(f) ==> f.cursor_valid()
    }
}

impl KeyContext {
    /// The highlighted bookmark is there exactly when the filtered list is not empty,
    /// and the highlighted entry exactly when the history is not empty.
    pub open spec fn wf(&self) -> bool {
        &&& (self.current is Some <==> self.filtered_len > 0)
        &&& (self.history_current is Some <==> self.history_len > 0)
    }
}

/// `list` with `id` removed if present, added at the end otherwise.
pub open spec fn toggled(list: Seq<Seq<char>>, id: Seq<char>) -> Seq<Seq<char>> {
    if list.contains(id) {
        without_text(list, id)
    } else {
        list.push(id)
    }
}

/// `list` without the occurrences of `id`.
pub open spec fn without_text(list: Seq<Seq<char>>, id: Seq<char>) -> Seq<Seq<char>>
    decreases list.len(),
{
    if list.len() == 0 {
        list
    } else if list.last() == id {
        without_text(list.drop_last(), id)
    } else {
        without_text(list.drop_last(), id).push(list.last())
    }
}

proof fn lemma_without_text_within(list: Seq<Seq<char>>, id: Seq<char>, x: Seq<char>)
    requires
        without_text(list, id).contains(x),
    ensures
        list.contains(x),
        x != id,
    decreases list.len(),
{
    let rest = without_text(list.drop_last(), id);
    if list.last() != id && x == list.last() {
        assert(list[list.len() - 1] == x);
    } else {
        if list.last() != id {
            let k = choose|k: int| 0 <= k < without_text(list, id).len() && without_text(list, id)[k] == x;
            assert(rest[k] == x);
        }
        lemma_without_text_within(list.drop_last(), id, x);
        let k = choose|k: int| 0 <= k < list.drop_last().len() && list.drop_last()[k] == x;
        assert(list[k] == x);
    }
}

proof fn lemma_without_text_no_duplicates(list: Seq<Seq<char>>, id: Seq<char>)
    requires
        list.no_duplicates(),
    ensures
        without_text(list, id).no_duplicates(),
    decreases list.len(),
{
    if list.len() > 0 {
        let init = list.drop_last();
        assert(init.no_duplicates());
        lemma_without_text_no_duplicates(init, id);
        if list.last() != id {
            let rest = without_text(init, id);
            if rest.contains(list.last()) {
                lemma_without_text_within(init, id, list.last());
                let k = choose|k: int| 0 <= k < init.len() && init[k] == list.last();
                assert(list[k] == list[list.len() - 1]);
            }
        }
    }
}

/// Toggling an id in a selection without repeats leaves it without repeats.
pub proof fn lemma_toggled_no_duplicates(list: Seq<Seq<char>>, id: Seq<char>)
    requires
        list.no_duplicates(),
    ensures
        toggled(list, id).no_duplicates(),
{
    if list.contains(id) {
        lemma_without_text_no_duplicates(list, id);
    }
}

/// Largest scroll offset of the help popup for a terminal of height `h`.
pub open spec fn help_max(h: u16) -> int {
    let popup = if (h as int) < 2 {
        0
    } else if h - 2 < 30 {
        h - 2
    } else {
        30
    };
    if popup <= 2 {
        49
    } else if 49 <= popup - 2 {
        0
    } else {
        49 - (popup - 2)
    }
}

/// The ids that a confirmed deletion removes: the selection, else the highlighted bookmark.
pub open spec fn delete_ids(s: SessionModel, c: KeyContext) -> Seq<Seq<char>> {
    if s.multi.len() > 0 {
        s.multi
    } else {
        match c.current {
            Some(b) => seq![b.id@],
            None => Seq::empty(),
        }
    }
}

pub open spec fn deleted_message(n: nat) -> Seq<char> {
    "Deleted "@ + decimal(n) + " bookmark(s)"@
}

/// The folder a saved form files the bookmark in: "Uncategorized" when blank.
pub open spec fn saved_folder(f: FormModel) -> Seq<char> {
    if is_blank(f.folder) {
        "Uncategorized"@
    } else {
        f.folder
    }
}

/// Saving the form: the session after it and the work it asks for.
pub open spec fn save_step(s: SessionModel) -> (SessionModel, EffectModel) {
    match s.form {
        None => (s, EffectModel::Nothing),
        Some(f) => if f.name.len() == 0 || f.url.len() == 0 {
            (SessionModel { status: "Name and URL are required!"@, timer: 20, ..s }, EffectModel::Nothing)
        } else {
            (
                SessionModel {
                    status: match s.editing {
                        Some(_) => "Updated: "@ + f.name,
                        None => "Added: "@ + f.name,
                    },
                    timer: 20,
                    mode: AppMode::Normal,
                    form: None,
                    editing: None,
                    ..s
                },
                EffectModel::SaveStore,
            )
        },
    }
}

/// What saving the form does to the bookmarks: an update of the edited bookmark, or a
/// new bookmark; nothing when there is no form or its name or URL is empty.
pub open spec fn save_store(s: SessionModel, old: Seq<Bookmark>, new: Seq<Bookmark>) -> bool {
    match s.form {
        Some(f) => if f.name.len() == 0 || f.url.len() == 0 {
            new == old
        } else {
            match s.editing {
                Some(id) => is_update(old, new, id, f.name, f.url, saved_folder(f)),
                None => is_add(old, new, f.name, f.url, saved_folder(f)),
            }
        },
        None => new == old,
    }
}

/// Whether the action is one of the form's own actions that saves.
pub open spec fn saves(s: SessionModel, a: Action) -> bool {
    ||| a == Action::FormSave
    ||| (a == Action::FormEnter && (s.form matches Some(f) && f.active
        == crate::keybinding::FormField::Folder))
}

/// The export format chosen by menu key `c` (5, 6 or 7).
pub open spec fn menu_format(c: char) -> ExportFormat {
    if c == '6' {
        ExportFormat::Html
    } else if c == '7' {
        ExportFormat::Xlsx
    } else {
        ExportFormat::Json
    }
}

/// The export format chosen by history menu key `c` (1, 2 or 3; others mean JSON).
pub open spec fn history_menu_format(c: char) -> ExportFormat {
    if c == '2' {
        ExportFormat::Html
    } else if c == '3' {
        ExportFormat::Xlsx
    } else {
        ExportFormat::Json
    }
}

/// The path a confirmed path input names: trimmed, `~` replaced by the home directory.
pub open spec fn confirmed_path(s: SessionModel, c: KeyContext) -> Seq<char> {
    expand_tilde(trim(s.path), c.home@)
}

/// Confirming the path input.
pub open spec fn confirm_step(s: SessionModel, c: KeyContext) -> (SessionModel, EffectModel) {
    let p = confirmed_path(s, c);
    if p.len() == 0 {
        (SessionModel { path_error: "Path cannot be empty"@, ..s }, EffectModel::Nothing)
    } else {
        match s.operation {
            Some(op) => if op == '1' || op == '2' || op == '3' {
                (s, EffectModel::ImportFile(p))
            } else if op == '5' {
                (s, EffectModel::ExportFile(ExportFormat::Json, p))
            } else if op == '6' {
                (s, EffectModel::ExportFile(ExportFormat::Html, p))
            } else if op == '7' {
                (s, EffectModel::ExportFile(ExportFormat::Xlsx, p))
            } else {
                (SessionModel { path_error: "Invalid operation"@, ..s }, EffectModel::Nothing)
            },
            None => (SessionModel { path_error: "Invalid operation"@, ..s }, EffectModel::Nothing),
        }
    }
}

/// What an action does to the session and which outside work it asks for.
pub open spec fn step(s: SessionModel, a: Action, c: KeyContext) -> (SessionModel, EffectModel) {
    let n = c.filtered_len as int;
    let hn = c.history_len as int;
    match a {
        Action::Quit => (s, EffectModel::Quit),
        Action::MoveDown => (
            if s.mode == AppMode::Help {
                if (s.help_scroll as int) < help_max(c.terminal_height) {
                    SessionModel { help_scroll: (s.help_scroll + 1) as u16, ..s }
                } else {
                    s
                }
            } else if s.mode == AppMode::History {
                if hn > 0 && s.history_selected < hn - 1 {
                    SessionModel { history_selected: s.history_selected + 1, ..s }
                } else {
                    s
                }
            } else if n > 0 && s.selected < n - 1 {
                SessionModel { selected: s.selected + 1, ..s }
            } else {
                s
            },
            EffectModel::Nothing,
        ),
        Action::MoveUp => (
            if s.mode == AppMode::Help {
                if s.help_scroll > 0 {
                    SessionModel { help_scroll: (s.help_scroll - 1) as u16, ..s }
                } else {
                    s
                }
            } else if s.mode == AppMode::History {
                if s.history_selected > 0 {
                    SessionModel { history_selected: s.history_selected - 1, ..s }
                } else {
                    s
                }
            } else if s.selected > 0 {
                SessionModel { selected: s.selected - 1, ..s }
            } else {
                s
            },
            EffectModel::Nothing,
        ),
        Action::GoTop => (
            if s.mode == AppMode::Help {
                SessionModel { help_scroll: 0, ..s }
            } else if s.mode == AppMode::History {
                SessionModel { history_selected: 0, ..s }
            } else {
                SessionModel { selected: 0, ..s }
            },
            EffectModel::Nothing,
        ),
        Action::GoBottom => (
            if s.mode == AppMode::Help {
                SessionModel { help_scroll: help_max(c.terminal_height) as u16, ..s }
            } else if s.mode == AppMode::History {
                if hn > 0 {
                    SessionModel { history_selected: hn - 1, ..s }
                } else {
                    s
                }
            } else if n > 0 {
                SessionModel { selected: n - 1, ..s }
            } else {
                s
            },
            EffectModel::Nothing,
        ),
        Action::EnterSearch => (
            SessionModel { mode: AppMode::Search, query_cursor: utf8_len(s.query) as int, ..s },
            EffectModel::Nothing,
        ),
        Action::Cancel => (
            SessionModel {
                mode: AppMode::Normal,
                query: Seq::empty(),
                query_cursor: 0,
                selected: 0,
                help_scroll: 0,
                ..s
            },
            EffectModel::Nothing,
        ),
        Action::SearchInput(ch) => {
            let (q, p) = text_insert(s.query, s.query_cursor, ch);
            (SessionModel { query: q, query_cursor: p, selected: 0, ..s }, EffectModel::Nothing)
        },
        Action::SearchBackspace => {
            let (q, p) = text_backspace(s.query, s.query_cursor);
            (SessionModel { query: q, query_cursor: p, selected: 0, ..s }, EffectModel::Nothing)
        },
        Action::SearchDelete => {
            let (q, p) = text_delete(s.query, s.query_cursor);
            (SessionModel { query: q, query_cursor: p, selected: 0, ..s }, EffectModel::Nothing)
        },
        Action::SearchClear => (
            SessionModel { query: Seq::empty(), query_cursor: 0, selected: 0, ..s },
            EffectModel::Nothing,
        ),
        Action::SearchDeleteWord => {
            let (q, p) = text_delete_word(s.query, s.query_cursor, ' ');
            (SessionModel { query: q, query_cursor: p, selected: 0, ..s }, EffectModel::Nothing)
        },
        Action::SearchCursorLeft => (
            SessionModel { query_cursor: text_left(s.query, s.query_cursor), ..s },
            EffectModel::Nothing,
        ),
        Action::SearchCursorRight => (
            SessionModel { query_cursor: text_right(s.query, s.query_cursor), ..s },
            EffectModel::Nothing,
        ),
        Action::SearchCursorHome => (SessionModel { query_cursor: 0, ..s }, EffectModel::Nothing),
        Action::SearchCursorEnd => (
            SessionModel { query_cursor: utf8_len(s.query) as int, ..s },
            EffectModel::Nothing,
        ),
        Action::SearchConfirm => (SessionModel { mode: AppMode::Normal, ..s }, EffectModel::Nothing),
        Action::SearchNavigateDown => (
            if n > 0 && s.selected < n - 1 {
                SessionModel { selected: s.selected + 1, ..s }
            } else {
                s
            },
            EffectModel::Nothing,
        ),
        Action::SearchNavigateUp => (
            if s.selected > 0 {
                SessionModel { selected: s.selected - 1, ..s }
            } else {
                s
            },
            EffectModel::Nothing,
        ),
        Action::Open => match c.current {
            Some(b) => (s, EffectModel::Open(b.url@)),
            None => (s, EffectModel::Nothing),
        },
        Action::YankUrl => match c.current {
            Some(b) => (s, EffectModel::Yank(b.url@)),
            None => (s, EffectModel::Nothing),
        },
        Action::ToggleSelect => match c.current {
            Some(b) => (SessionModel { multi: toggled(s.multi, b.id@), ..s }, EffectModel::Nothing),
            None => (s, EffectModel::Nothing),
        },
        Action::EnterAdd => (
            SessionModel {
                mode: AppMode::Add,
                form: Some(
                    FormModel {
                        name: Seq::empty(),
                        url: Seq::empty(),
                        folder: Seq::empty(),
                        active: crate::keybinding::FormField::Name,
                        cursor: 0,
                    },
                ),
                editing: None,
                ..s
            },
            EffectModel::Nothing,
        ),
        Action::EnterEdit => match c.current {
            Some(b) => (
                SessionModel {
                    mode: AppMode::Edit,
                    form: Some(
                        FormModel {
                            name: b.name@,
                            url: b.url@,
                            folder: b.folder@,
                            active: crate::keybinding::FormField::Name,
                            cursor: utf8_len(b.name@),
                        },
                    ),
                    editing: Some(b.id@),
                    ..s
                },
                EffectModel::Nothing,
            ),
            None => (s, EffectModel::Nothing),
        },
        Action::EnterDeleteConfirm => (
            if n > 0 || s.multi.len() > 0 {
                SessionModel { mode: AppMode::DeleteConfirm, ..s }
            } else {
                s
            },
            EffectModel::Nothing,
        ),
        Action::BulkDelete => (
            if s.multi.len() > 0 {
                SessionModel { mode: AppMode::DeleteConfirm, ..s }
            } else {
                s
            },
            EffectModel::Nothing,
        ),
        Action::ConfirmDelete => (
            SessionModel {
                multi: Seq::empty(),
                status: deleted_message(delete_ids(s, c).len()),
                timer: 20,
                mode: AppMode::Normal,
                selected: if s.selected > 0 {
                    s.selected - 1
                } else {
                    0
                },
                ..s
            },
            EffectModel::SaveStore,
        ),
        Action::CancelDelete => (SessionModel { mode: AppMode::Normal, ..s }, EffectModel::Nothing),
        Action::FormInput(ch) => (
            match s.form {
                Some(f) => SessionModel { form: Some(f.after_insert(ch)), ..s },
                None => s,
            },
            EffectModel::Nothing,
        ),
        Action::FormBackspace => (
            match s.form {
                Some(f) => SessionModel { form: Some(f.after_backspace()), ..s },
                None => s,
            },
            EffectModel::Nothing,
        ),
        Action::FormDelete => (
            match s.form {
                Some(f) => SessionModel { form: Some(f.after_delete()), ..s },
                None => s,
            },
            EffectModel::Nothing,
        ),
        Action::FormDeleteWord => (
            match s.form {
                Some(f) => SessionModel { form: Some(f.after_delete_word()), ..s },
                None => s,
            },
            EffectModel::Nothing,
        ),
        Action::FormClearField => (
            match s.form {
                Some(f) => SessionModel { form: Some(f.after_clear()), ..s },
                None => s,
            },
            EffectModel::Nothing,
        ),
        Action::FormCursorLeft => (
            match s.form {
                Some(f) => SessionModel { form: Some(f.after_left()), ..s },
                None => s,
            },
            EffectModel::Nothing,
        ),
        Action::FormCursorRight => (
            match s.form {
                Some(f) => SessionModel { form: Some(f.after_right()), ..s },
                None => s,
            },
            EffectModel::Nothing,
        ),
        Action::FormCursorHome => (
            match s.form {
                Some(f) => SessionModel { form: Some(f.with_cursor(0)), ..s },
                None => s,
            },
            EffectModel::Nothing,
        ),
        Action::FormCursorEnd => (
            match s.form {
                Some(f) => SessionModel { form: Some(f.with_cursor(f.active_len())), ..s },
                None => s,
            },
            EffectModel::Nothing,
        ),
        Action::FormNextField => (
            match s.form {
                Some(f) => SessionModel { form: Some(f.after_next_field()), ..s },
                None => s,
            },
            EffectModel::Nothing,
        ),
        Action::FormPrevField => (
            match s.form {
                Some(f) => SessionModel { form: Some(f.after_prev_field()), ..s },
                None => s,
            },
            EffectModel::Nothing,
        ),
        Action::FormEnter => match s.form {
            Some(f) => if f.active == crate::keybinding::FormField::Folder {
                save_step(s)
            } else {
                (SessionModel { form: Some(f.after_next_field()), ..s }, EffectModel::Nothing)
            },
            None => (s, EffectModel::Nothing),
        },
        Action::FormSave => save_step(s),
        Action::FormCancel => (
            SessionModel { mode: AppMode::Normal, form: None, editing: None, ..s },
            EffectModel::Nothing,
        ),
        Action::ShowHelp => (SessionModel { mode: AppMode::Help, ..s }, EffectModel::Nothing),
        Action::EnterImportExport => (
            SessionModel {
                mode: AppMode::ImportExport,
                path: Seq::empty(),
                path_cursor: 0,
                path_error: Seq::empty(),
                operation: None,
                ..s
            },
            EffectModel::Nothing,
        ),
        Action::ImportExportSelect(ch) => {
            let s1 = SessionModel { operation: Some(ch), ..s };
            if ch == '4' {
                (s1, EffectModel::ImportChromium)
            } else if ch == '1' || ch == '2' || ch == '3' {
                (
                    SessionModel {
                        path: c.import_dir@,
                        path_cursor: utf8_len(c.import_dir@) as int,
                        path_error: Seq::empty(),
                        mode: AppMode::ImportExportInput,
                        ..s1
                    },
                    EffectModel::Nothing,
                )
            } else if ch == '5' || ch == '6' || ch == '7' {
                (s1, EffectModel::ExportBookmarks(menu_format(ch)))
            } else {
                (s1, EffectModel::Nothing)
            }
        },
        Action::ImportExportCancel => (
            SessionModel { mode: AppMode::Normal, operation: None, ..s },
            EffectModel::Nothing,
        ),
        Action::PathInput(ch) => {
            let (t, p) = text_insert(s.path, s.path_cursor, ch);
            (SessionModel { path: t, path_cursor: p, path_error: Seq::empty(), ..s }, EffectModel::Nothing)
        },
        Action::PathBackspace => {
            let (t, p) = text_backspace(s.path, s.path_cursor);
            (SessionModel { path: t, path_cursor: p, ..s }, EffectModel::Nothing)
        },
        Action::PathDelete => {
            let (t, p) = text_delete(s.path, s.path_cursor);
            (SessionModel { path: t, path_cursor: p, ..s }, EffectModel::Nothing)
        },
        Action::PathCursorLeft => (
            SessionModel { path_cursor: text_left(s.path, s.path_cursor), ..s },
            EffectModel::Nothing,
        ),
        Action::PathCursorRight => (
            SessionModel { path_cursor: text_right(s.path, s.path_cursor), ..s },
            EffectModel::Nothing,
        ),
        Action::PathCursorHome => (SessionModel { path_cursor: 0, ..s }, EffectModel::Nothing),
        Action::PathCursorEnd => (
            SessionModel { path_cursor: utf8_len(s.path) as int, ..s },
            EffectModel::Nothing,
        ),
        Action::PathClear => (SessionModel { path: Seq::empty(), path_cursor: 0, ..s }, EffectModel::Nothing),
        Action::PathDeleteWord => {
            let (t, p) = text_delete_word(s.path, s.path_cursor, '/');
            (SessionModel { path: t, path_cursor: p, ..s }, EffectModel::Nothing)
        },
        Action::PathCancel => (
            SessionModel { mode: AppMode::ImportExport, path_error: Seq::empty(), ..s },
            EffectModel::Nothing,
        ),
        Action::PathConfirm => confirm_step(s, c),
        Action::EnterHistory => (
            SessionModel {
                mode: AppMode::History,
                history_selected: 0,
                history_multi: Seq::empty(),
                ..s
            },
            EffectModel::Nothing,
        ),
        Action::HistoryRestore => match c.history_current {
            Some(id) => (s, EffectModel::RestoreHistory(id@)),
            None => (s, EffectModel::Nothing),
        },
        Action::HistoryToggleSelect => match c.history_current {
            Some(id) => (
                SessionModel { history_multi: toggled(s.history_multi, id@), ..s },
                EffectModel::Nothing,
            ),
            None => (s, EffectModel::Nothing),
        },
        Action::HistoryDelete => (
            if hn > 0 {
                SessionModel { mode: AppMode::HistoryDeleteConfirm, ..s }
            } else {
                s
            },
            EffectModel::Nothing,
        ),
        Action::HistoryBulkDelete => (
            if s.history_multi.len() > 0 {
                SessionModel { mode: AppMode::HistoryDeleteConfirm, ..s }
            } else {
                s
            },
            EffectModel::Nothing,
        ),
        Action::HistoryConfirmDelete => {
            let ids = if s.history_multi.len() > 0 {
                s.history_multi
            } else {
                match c.history_current {
                    Some(id) => seq![id@],
                    None => Seq::empty(),
                }
            };
            (
                SessionModel { mode: AppMode::History, ..s },
                if ids.len() > 0 {
                    EffectModel::DeleteHistory(ids)
                } else {
                    EffectModel::Nothing
                },
            )
        },
        Action::HistoryCancelDelete => (SessionModel { mode: AppMode::History, ..s }, EffectModel::Nothing),
        Action::HistoryExport => (
            if hn > 0 {
                SessionModel { mode: AppMode::HistoryExportSelect, ..s }
            } else {
                SessionModel { status: "No history to export"@, timer: 20, ..s }
            },
            EffectModel::Nothing,
        ),
        Action::HistoryExportSelect(ch) => (
            SessionModel { mode: AppMode::History, ..s },
            EffectModel::ExportHistory(history_menu_format(ch)),
        ),
        Action::HistoryExportCancel => (SessionModel { mode: AppMode::History, ..s }, EffectModel::Nothing),
        Action::HistoryCancel => (
            SessionModel { mode: AppMode::Normal, history_multi: Seq::empty(), ..s },
            EffectModel::Nothing,
        ),
        Action::Nothing => (s, EffectModel::Nothing),
    }
}

/// Path-input actions come only in path-input mode, menu choices only in the menu.
pub open spec fn action_fits(s: SessionModel, a: Action) -> bool {
    &&& (a is PathInput || a is PathBackspace || a is PathDelete || a is PathCursorLeft
        || a is PathCursorRight || a is PathCursorHome || a is PathCursorEnd || a is PathClear
        || a is PathDeleteWord || a is PathCancel || a is PathConfirm) ==> s.mode
        == AppMode::ImportExportInput
    &&& a is ImportExportSelect ==> s.mode == AppMode::ImportExport
}

/// The session before the first key press.
pub open spec fn initial_session() -> SessionModel {
    SessionModel {
        mode: AppMode::Normal,
        query: Seq::empty(),
        query_cursor: 0,
        selected: 0,
        multi: Seq::empty(),
        form: None,
        editing: None,
        status: Seq::empty(),
        timer: 0,
        path: Seq::empty(),
        path_cursor: 0,
        path_error: Seq::empty(),
        operation: None,
        history_selected: 0,
        help_scroll: 0,
        history_multi: Seq::empty(),
    }
}

/// One frame of the status message timer: it counts down, and the message goes when
/// it reaches zero.
pub open spec fn ticked(s: SessionModel) -> SessionModel {
    if s.timer == 0 {
        s
    } else if s.timer == 1 {
        SessionModel { timer: 0, status: Seq::empty(), ..s }
    } else {
        SessionModel { timer: (s.timer - 1) as u8, ..s }
    }
}

/// The highlighted rows kept inside lists of `n` bookmarks and `hn` history entries.
pub open spec fn prepared(s: SessionModel, n: int, hn: int) -> SessionModel {
    SessionModel {
        selected: if n > 0 && s.selected >= n {
            n - 1
        } else {
            s.selected
        },
        history_selected: if hn == 0 {
            0
        } else if s.history_selected >= hn {
            hn - 1
        } else {
            s.history_selected
        },
        ..s
    }
}

/// The names of the bookmarks of `bs`, in order, whose ids are in `ids`.
pub open spec fn names_with_ids(bs: Seq<Bookmark>, ids: Seq<Seq<char>>) -> Seq<Seq<char>>
    decreases bs.len(),
{
    if bs.len() == 0 {
        Seq::empty()
    } else if ids.contains(bs.last().id@) {
        names_with_ids(bs.drop_last(), ids).push(bs.last().name@)
    } else {
        names_with_ids(bs.drop_last(), ids)
    }
}

/// The names the delete dialog lists: the selected bookmarks, else the highlighted one,
/// and none outside the dialog.
pub open spec fn delete_names_of(s: SessionModel, bs: Seq<Bookmark>, current: Option<Bookmark>) -> Seq<Seq<char>> {
    if s.mode != AppMode::DeleteConfirm {
        Seq::empty()
    } else if s.multi.len() > 0 {
        names_with_ids(bs, s.multi)
    } else {
        match current {
            Some(b) => seq![b.name@],
            None => Seq::empty(),
        }
    }
}

/// How many history entries a confirmed deletion would remove.
pub open spec fn history_delete_count_of(s: SessionModel, hn: int) -> int {
    if s.history_multi.len() > 0 {
        s.history_multi.len() as int
    } else if hn > 0 {
        1
    } else {
        0
    }
}

proof fn lemma_start_boundary(s: Seq<char>)
    ensures
        cursor_ok(s, 0),
{
    assert(s.take(0) =~= Seq::<char>::empty());
    assert(crate::text::byte_offset(s, 0) == 0);
}

proof fn lemma_end_boundary(s: Seq<char>)
    ensures
        cursor_ok(s, utf8_len(s) as int),
{
    lemma_byte_offset_full(s);
    lemma_boundary_unique(s, s.len() as int);
}

/// `list` with `id` taken out if it is there, else with `id` added at the end.
fn toggle_text(list: &mut Vec<String>, id: &str)
    ensures
        texts(final(list)@) == toggled(texts(old(list)@), id@),
{
    if contains_text(list.as_slice(), id) {
        let mut kept: Vec<String> = Vec::new();
        let n = list.len();
        let mut i: usize = 0;
        while i < n
            invariant
                i <= n == list.len(),
                list@ == old(list)@,
                texts(kept@) == without_text(texts(list@.take(i as int)), id@),
            decreases n - i,
        {
            assert(texts(list@.take(i + 1)).drop_last() =~= texts(list@.take(i as int)));
            assert(texts(list@.take(i + 1)).last() == list@[i as int]@);
            if !str_eq(list[i].as_str(), id) {
                kept.push(owned(list[i].as_str()));
                assert(texts(kept@) =~= without_text(texts(list@.take(i as int)), id@).push(list@[i as int]@));
            }
            i += 1;
        }
        assert(list@.take(n as int) =~= list@);
        *list = kept;
    } else {
        let ghost before = list@;
        list.push(owned(id));
        assert(texts(list@) =~= texts(before).push(id@));
    }
}

impl Session {
    /// A fresh session: normal mode, empty search, nothing selected.
    pub fn new() -> (r: Self)
        ensures
            r@ == initial_session(),
            r@.wf(),
    {
        proof {
            lemma_start_boundary(Seq::<char>::empty());
        }
        let r = Session {
            mode: AppMode::Normal,
            search_query: String::new(),
            search_cursor: 0,
            selected_index: 0,
            multi_selected: Vec::new(),
            form_data: None,
            editing_id: None,
            status_message: String::new(),
            message_timer: 0,
            import_export_path: String::new(),
            import_export_cursor: 0,
            import_export_error: String::new(),
            import_export_operation: None,
            history_selected: 0,
            help_scroll: 0,
            history_multi_selected: Vec::new(),
        };
        assert(texts(r.multi_selected@) =~= Seq::empty());
        assert(texts(r.history_multi_selected@) =~= Seq::empty());
        r
    }

    /// Counts the status message timer down by one frame.
    pub fn tick(&mut self)
        ensures
            final(self)@ == ticked(old(self)@),
    {
        if self.message_timer > 0 {
            self.message_timer -= 1;
            if self.message_timer == 0 {
                self.status_message = String::new();
            }
        }
    }

    /// Keeps the highlighted rows inside the current list lengths.
    pub fn prepare(&mut self, filtered_len: usize, history_len: usize)
        ensures
            final(self)@ == prepared(old(self)@, filtered_len as int, history_len as int),
    {
        if filtered_len > 0 && self.selected_index >= filtered_len {
            self.selected_index = filtered_len - 1;
        }
        if history_len == 0 {
            self.history_selected = 0;
        } else if self.history_selected >= history_len {
            self.history_selected = history_len - 1;
        }
    }

    /// The names the delete dialog lists, given the store and the highlighted bookmark.
    pub fn delete_names(&self, store: &BookmarkStore, current: Option<&Bookmark>) -> (r: Vec<String>)
        ensures
            texts(r@) == delete_names_of(
                self@,
                store.bookmarks@,
                match current {
                    Some(b) => Some(*b),
                    None => None,
                },
            ),
    {
        let mut r: Vec<String> = Vec::new();
        if self.mode != AppMode::DeleteConfirm {
            assert(texts(r@) =~= Seq::empty());
            return r;
        }
        if self.multi_selected.len() > 0 {
            let bs = &store.bookmarks;
            let n = bs.len();
            let mut i: usize = 0;
            assert(texts(r@) =~= Seq::empty());
            while i < n
                invariant
                    i <= n == bs.len(),
                    texts(r@) == names_with_ids(bs@.take(i as int), texts(self.multi_selected@)),
                decreases n - i,
            {
                assert(bs@.take(i + 1).drop_last() =~= bs@.take(i as int));
                if contains_text(self.multi_selected.as_slice(), bs[i].id.as_str()) {
                    let ghost before = r@;
                    r.push(owned(bs[i].name.as_str()));
                    assert(texts(r@) =~= texts(before).push(bs@[i as int].name@));
                }
                i += 1;
            }
            assert(bs@.take(n as int) =~= bs@);
            r
        } else {
            match current {
                Some(b) => {
                    r.push(owned(b.name.as_str()));
                    assert(texts(r@) =~= seq![b.name@]);
                },
                None => {
                    assert(texts(r@) =~= Seq::empty());
                },
            }
            r
        }
    }

    /// How many history entries a confirmed deletion would remove.
    pub fn history_delete_count(&self, history_len: usize) -> (r: usize)
        ensures
            r == history_delete_count_of(self@, history_len as int),
    {
        if self.history_multi_selected.len() > 0 {
            self.history_multi_selected.len()
        } else if history_len > 0 {
            1
        } else {
            0
        }
    }
}

/// An owned copy of a list of texts.
fn copy_texts(v: &Vec<String>) -> (r: Vec<String>)
    ensures
        texts(r@) == texts(v@),
{
    let mut r: Vec<String> = Vec::new();
    let mut i: usize = 0;
    while i < v.len()
        invariant
            i <= v.len(),
            texts(r@) == texts(v@.take(i as int)),
        decreases v.len() - i,
    {
        let ghost before = r@;
        r.push(owned(v[i].as_str()));
        assert(texts(r@) =~= texts(before).push(v@[i as int]@));
        assert(texts(v@.take(i + 1)) =~= texts(v@.take(i as int)).push(v@[i as int]@));
        i += 1;
    }
    assert(v@.take(v.len() as int) =~= v@);
    r
}

/// Largest scroll offset of the help popup for a terminal of height `h`.
fn help_scroll_limit(h: u16) -> (r: u16)
    ensures
        r == help_max(h),
{
    let popup: u16 = if h < 2 {
        0
    } else if h - 2 < 30 {
        h - 2
    } else {
        30
    };
    content_height(popup)
}

/// The actions that move a highlight or scroll.
pub open spec fn is_navigation(a: Action) -> bool {
    ||| a is MoveDown
    ||| a is MoveUp
    ||| a is GoTop
    ||| a is GoBottom
    ||| a is SearchNavigateDown
    ||| a is SearchNavigateUp
}

/// The actions that edit the search or leave a mode.
pub open spec fn is_search_edit(a: Action) -> bool {
    ||| a is EnterSearch
    ||| a is Cancel
    ||| a is SearchInput
    ||| a is SearchBackspace
    ||| a is SearchDelete
    ||| a is SearchClear
    ||| a is SearchDeleteWord
    ||| a is SearchCursorLeft
    ||| a is SearchCursorRight
    ||| a is SearchCursorHome
    ||| a is SearchCursorEnd
    ||| a is SearchConfirm
}

impl Session {
    fn navigate(&mut self, a: Action, ctx: &KeyContext)
        requires
            is_navigation(a),
        ensures
            final(self)@ == step(old(self)@, a, *ctx).0,
            step(old(self)@, a, *ctx).1 == EffectModel::Nothing,
    {
        let n = ctx.filtered_len;
        let hn = ctx.history_len;
        match a {
            Action::MoveDown => {
                if self.mode == AppMode::Help {
                    let max = help_scroll_limit(ctx.terminal_height);
                    if self.help_scroll < max {
                        self.help_scroll = self.help_scroll + 1;
                    }
                } else if self.mode == AppMode::History {
                    if hn > 0 && self.history_selected < hn - 1 {
                        self.history_selected = self.history_selected + 1;
                    }
                } else if n > 0 && self.selected_index < n - 1 {
                    self.selected_index = self.selected_index + 1;
                }
            },
            Action::MoveUp => {
                if self.mode == AppMode::Help {
                    if self.help_scroll > 0 {
                        self.help_scroll = self.help_scroll - 1;
                    }
                } else if self.mode == AppMode::History {
                    if self.history_selected > 0 {
                        self.history_selected = self.history_selected - 1;
                    }
                } else if self.selected_index > 0 {
                    self.selected_index = self.selected_index - 1;
                }
            },
            Action::GoTop => {
                if self.mode == AppMode::Help {
                    self.help_scroll = 0;
                } else if self.mode == AppMode::History {
                    self.history_selected = 0;
                } else {
                    self.selected_index = 0;
                }
            },
            Action::GoBottom => {
                if self.mode == AppMode::Help {
                    self.help_scroll = help_scroll_limit(ctx.terminal_height);
                } else if self.mode == AppMode::History {
                    if hn > 0 {
                        self.history_selected = hn - 1;
                    }
                } else if n > 0 {
                    self.selected_index = n - 1;
                }
            },
            Action::SearchNavigateDown => {
                if n > 0 && self.selected_index < n - 1 {
                    self.selected_index = self.selected_index + 1;
                }
            },
            _ => {
                if self.selected_index > 0 {
                    self.selected_index = self.selected_index - 1;
                }
            },
        }
    }

    fn edit_search(&mut self, a: Action, ctx: &KeyContext)
        requires
            is_search_edit(a),
            old(self)@.wf(),
        ensures
            final(self)@ == step(old(self)@, a, *ctx).0,
            step(old(self)@, a, *ctx).1 == EffectModel::Nothing,
            final(self)@.wf(),
    {
        match a {
            Action::EnterSearch => {
                self.mode = AppMode::Search;
                self.search_cursor = byte_len(self.search_query.as_str());
                proof {
                    lemma_end_boundary(self.search_query@);
                }
            },
            Action::Cancel => {
                self.mode = AppMode::Normal;
                self.search_query = String::new();
                self.search_cursor = 0;
                self.selected_index = 0;
                self.help_scroll = 0;
                proof {
                    lemma_start_boundary(self.search_query@);
                }
            },
            Action::SearchInput(c) => {
                insert_at_cursor(&mut self.search_query, &mut self.search_cursor, c);
                self.selected_index = 0;
            },
            Action::SearchBackspace => {
                backspace_at_cursor(&mut self.search_query, &mut self.search_cursor);
                self.selected_index = 0;
            },
            Action::SearchDelete => {
                delete_at_cursor(&mut self.search_query, &mut self.search_cursor);
                self.selected_index = 0;
            },
            Action::SearchClear => {
                self.search_query = String::new();
                self.search_cursor = 0;
                self.selected_index = 0;
                proof {
                    lemma_start_boundary(self.search_query@);
                }
            },
            Action::SearchDeleteWord => {
                delete_word_at_cursor(&mut self.search_query, &mut self.search_cursor, ' ');
                self.selected_index = 0;
            },
            Action::SearchCursorLeft => {
                cursor_left_in(&self.search_query, &mut self.search_cursor);
            },
            Action::SearchCursorRight => {
                cursor_right_in(&self.search_query, &mut self.search_cursor);
            },
            Action::SearchCursorHome => {
                self.search_cursor = 0;
                proof {
                    lemma_start_boundary(self.search_query@);
                }
            },
            Action::SearchCursorEnd => {
                self.search_cursor = byte_len(self.search_query.as_str());
                proof {
                    lemma_end_boundary(self.search_query@);
                }
            },
            _ => {
                self.mode = AppMode::Normal;
            },
        }
    }
}

/// The actions on the highlighted bookmark or the selection, and the plain mode switches.
pub open spec fn is_list_action(a: Action) -> bool {
    ||| a is Quit
    ||| a is Open
    ||| a is YankUrl
    ||| a is ToggleSelect
    ||| a is EnterAdd
    ||| a is EnterEdit
    ||| a is EnterDeleteConfirm
    ||| a is BulkDelete
    ||| a is CancelDelete
    ||| a is ShowHelp
    ||| a is Nothing
}

/// The actions of the add/edit form that edit it or move in it.
pub open spec fn is_form_edit(a: Action) -> bool {
    ||| a is FormInput
    ||| a is FormBackspace
    ||| a is FormDelete
    ||| a is FormDeleteWord
    ||| a is FormClearField
    ||| a is FormCursorLeft
    ||| a is FormCursorRight
    ||| a is FormCursorHome
    ||| a is FormCursorEnd
    ||| a is FormNextField
    ||| a is FormPrevField
}

proof fn lemma_form_home_valid(f: FormModel)
    ensures
        f.with_cursor(0).cursor_valid(),
{
    lemma_start_boundary(f.active_text());
}

impl Session {
    fn list_action(&mut self, a: Action, ctx: &KeyContext) -> (e: Effect)
        requires
            is_list_action(a),
            old(self)@.wf(),
            ctx.wf(),
        ensures
            final(self)@ == step(old(self)@, a, *ctx).0,
            e@ == step(old(self)@, a, *ctx).1,
            final(self)@.wf(),
    {
        match a {
            Action::Quit => Effect::Quit,
            Action::Open => match &ctx.current {
                Some(b) => Effect::Open(owned(b.url.as_str())),
                None => Effect::Nothing,
            },
            Action::YankUrl => match &ctx.current {
                Some(b) => Effect::Yank(owned(b.url.as_str())),
                None => Effect::Nothing,
            },
            Action::ToggleSelect => {
                match &ctx.current {
                    Some(b) => {
                        proof {
                            lemma_toggled_no_duplicates(texts(self.multi_selected@), b.id@);
                        }
                        toggle_text(&mut self.multi_selected, b.id.as_str());
                    },
                    None => {},
                }
                Effect::Nothing
            },
            Action::EnterAdd => {
                self.mode = AppMode::Add;
                self.form_data = Some(FormData::new());
                self.editing_id = None;
                proof {
                    lemma_start_boundary(Seq::<char>::empty());
                }
                Effect::Nothing
            },
            Action::EnterEdit => {
                match &ctx.current {
                    Some(b) => {
                        self.mode = AppMode::Edit;
                        self.form_data = Some(
                            FormData::from_bookmark(b.name.as_str(), b.url.as_str(), b.folder.as_str()),
                        );
                        self.editing_id = Some(owned(b.id.as_str()));
                    },
                    None => {},
                }
                Effect::Nothing
            },
            Action::EnterDeleteConfirm => {
                if ctx.filtered_len > 0 || self.multi_selected.len() > 0 {
                    self.mode = AppMode::DeleteConfirm;
                }
                Effect::Nothing
            },
            Action::BulkDelete => {
                if self.multi_selected.len() > 0 {
                    self.mode = AppMode::DeleteConfirm;
                }
                Effect::Nothing
            },
            Action::CancelDelete => {
                self.mode = AppMode::Normal;
                Effect::Nothing
            },
            Action::ShowHelp => {
                self.mode = AppMode::Help;
                Effect::Nothing
            },
            _ => Effect::Nothing,
        }
    }

    /// Deletes the selected bookmarks, or the highlighted one, from the store.
    fn confirm_delete(&mut self, ctx: &KeyContext, store: &mut BookmarkStore) -> (e: Effect)
        requires
            old(self)@.wf(),
            ctx.wf(),
        ensures
            final(self)@ == step(old(self)@, Action::ConfirmDelete, *ctx).0,
            e@ == step(old(self)@, Action::ConfirmDelete, *ctx).1,
            final(self)@.wf(),
            final(store).version == old(store).version,
            final(store).bookmarks@ == without_ids(
                old(store).bookmarks@,
                delete_ids(old(self)@, *ctx),
            ),
    {
        let mut ids: Vec<String> = Vec::new();
        if self.multi_selected.len() > 0 {
            core::mem::swap(&mut ids, &mut self.multi_selected);
        } else {
            match &ctx.current {
                Some(b) => {
                    ids.push(owned(b.id.as_str()));
                    assert(texts(ids@) =~= seq![b.id@]);
                },
                None => {
                    assert(texts(ids@) =~= Seq::empty());
                },
            }
        }
        let count = ids.len();
        store.remove_many(ids.as_slice());
        self.multi_selected = Vec::new();
        assert(texts(self.multi_selected@) =~= Seq::empty());
        let mut msg = owned("Deleted ");
        push_all(&mut msg, decimal_text(count).as_str());
        push_all(&mut msg, " bookmark(s)");
        self.status_message = msg;
        self.message_timer = 20;
        self.mode = AppMode::Normal;
        if self.selected_index > 0 {
            self.selected_index = self.selected_index - 1;
        }
        Effect::SaveStore
    }

    fn edit_form(&mut self, a: Action, ctx: &KeyContext)
        requires
            is_form_edit(a),
            old(self)@.wf(),
        ensures
            final(self)@ == step(old(self)@, a, *ctx).0,
            step(old(self)@, a, *ctx).1 == EffectModel::Nothing,
            final(self)@.wf(),
    {
        match self.form_data.take() {
            None => {},
            Some(mut f) => {
                match a {
                    Action::FormInput(c) => f.insert_char(c),
                    Action::FormBackspace => f.backspace(),
                    Action::FormDelete => f.delete_at_cursor(),
                    Action::FormDeleteWord => f.delete_word_before_cursor(),
                    Action::FormClearField => {
                        f.clear_field();
                        proof {
                            lemma_start_boundary(Seq::<char>::empty());
                        }
                    },
                    Action::FormCursorLeft => f.cursor_left(),
                    Action::FormCursorRight => f.cursor_right(),
                    Action::FormCursorHome => {
                        proof {
                            lemma_form_home_valid(f@);
                        }
                        f.cursor_home();
                    },
                    Action::FormCursorEnd => f.cursor_end(),
                    Action::FormNextField => f.next_field(),
                    _ => f.prev_field(),
                }
                self.form_data = Some(f);
            },
        }
    }

    /// Saves the form: updates the edited bookmark or adds a new one.
    fn save_form(&mut self, store: &mut BookmarkStore) -> (e: Effect)
        requires
            old(self)@.wf(),
        ensures
            final(self)@ == save_step(old(self)@).0,
            e@ == save_step(old(self)@).1,
            final(self)@.wf(),
            final(store).version == old(store).version,
            save_store(old(self)@, old(store).bookmarks@, final(store).bookmarks@),
    {
        match self.form_data.take() {
            None => Effect::Nothing,
            Some(f) => {
                if f.name.as_str().is_empty() || f.url.as_str().is_empty() {
                    self.form_data = Some(f);
                    self.status_message = owned("Name and URL are required!");
                    self.message_timer = 20;
                    Effect::Nothing
                } else {
                    let folder = if blank(f.folder.as_str()) {
                        owned("Uncategorized")
                    } else {
                        owned(f.folder.as_str())
                    };
                    let ghost gf = f@;
                    let ghost old_bs = store.bookmarks@;
                    match self.editing_id.take() {
                        Some(id) => {
                            let mut msg = owned("Updated: ");
                            push_all(&mut msg, f.name.as_str());
                            self.status_message = msg;
                            store.update(id.as_str(), f.name, f.url, folder);
                        },
                        None => {
                            let mut msg = owned("Added: ");
                            push_all(&mut msg, f.name.as_str());
                            self.status_message = msg;
                            store.add(Bookmark::new(f.name, f.url, folder));
                            assert(store.bookmarks@.take(old_bs.len() as int) =~= old_bs);
                        },
                    }
                    self.message_timer = 20;
                    self.mode = AppMode::Normal;
                    Effect::SaveStore
                }
            },
        }
    }
}

/// The actions of the import/export menu and its path input.
pub open spec fn is_transfer_action(a: Action) -> bool {
    ||| a is EnterImportExport
    ||| a is ImportExportSelect
    ||| a is ImportExportCancel
    ||| a is PathInput
    ||| a is PathBackspace
    ||| a is PathDelete
    ||| a is PathCursorLeft
    ||| a is PathCursorRight
    ||| a is PathCursorHome
    ||| a is PathCursorEnd
    ||| a is PathClear
    ||| a is PathDeleteWord
    ||| a is PathCancel
    ||| a is PathConfirm
}

/// The actions of the history view and its dialogs.
pub open spec fn is_history_action(a: Action) -> bool {
    ||| a is EnterHistory
    ||| a is HistoryRestore
    ||| a is HistoryToggleSelect
    ||| a is HistoryDelete
    ||| a is HistoryBulkDelete
    ||| a is HistoryConfirmDelete
    ||| a is HistoryCancelDelete
    ||| a is HistoryExport
    ||| a is HistoryExportSelect
    ||| a is HistoryExportCancel
    ||| a is HistoryCancel
}

/// The trimmed text of `s`.
fn trimmed(s: &str) -> (r: String)
    ensures
        r@ == trim(s@),
{
    let v = chars_of(s);
    let t = trim_chars(&v);
    string_of(&t, 0, t.len())
}

impl Session {
    fn transfer_action(&mut self, a: Action, ctx: &KeyContext) -> (e: Effect)
        requires
            is_transfer_action(a),
            old(self)@.wf(),
            action_fits(old(self)@, a),
        ensures
            final(self)@ == step(old(self)@, a, *ctx).0,
            e@ == step(old(self)@, a, *ctx).1,
            final(self)@.wf(),
    {
        match a {
            Action::EnterImportExport => {
                self.mode = AppMode::ImportExport;
                self.import_export_path = String::new();
                self.import_export_cursor = 0;
                self.import_export_error = String::new();
                self.import_export_operation = None;
                proof {
                    lemma_start_boundary(self.import_export_path@);
                }
                Effect::Nothing
            },
            Action::ImportExportSelect(c) => {
                self.import_export_operation = Some(c);
                if c == '4' {
                    Effect::ImportChromium
                } else if c == '1' || c == '2' || c == '3' {
                    self.import_export_path = owned(ctx.import_dir.as_str());
                    self.import_export_cursor = byte_len(ctx.import_dir.as_str());
                    self.import_export_error = String::new();
                    self.mode = AppMode::ImportExportInput;
                    proof {
                        lemma_end_boundary(ctx.import_dir@);
                    }
                    Effect::Nothing
                } else if c == '5' {
                    Effect::ExportBookmarks(ExportFormat::Json)
                } else if c == '6' {
                    Effect::ExportBookmarks(ExportFormat::Html)
                } else if c == '7' {
                    Effect::ExportBookmarks(ExportFormat::Xlsx)
                } else {
                    Effect::Nothing
                }
            },
            Action::ImportExportCancel => {
                self.mode = AppMode::Normal;
                self.import_export_operation = None;
                Effect::Nothing
            },
            Action::PathInput(c) => {
                insert_at_cursor(&mut self.import_export_path, &mut self.import_export_cursor, c);
                self.import_export_error = String::new();
                Effect::Nothing
            },
            Action::PathBackspace => {
                backspace_at_cursor(&mut self.import_export_path, &mut self.import_export_cursor);
                Effect::Nothing
            },
            Action::PathDelete => {
                delete_at_cursor(&mut self.import_export_path, &mut self.import_export_cursor);
                Effect::Nothing
            },
            Action::PathCursorLeft => {
                cursor_left_in(&self.import_export_path, &mut self.import_export_cursor);
                Effect::Nothing
            },
            Action::PathCursorRight => {
                cursor_right_in(&self.import_export_path, &mut self.import_export_cursor);
                Effect::Nothing
            },
            Action::PathCursorHome => {
                self.import_export_cursor = 0;
                proof {
                    lemma_start_boundary(self.import_export_path@);
                }
                Effect::Nothing
            },
            Action::PathCursorEnd => {
                self.import_export_cursor = byte_len(self.import_export_path.as_str());
                proof {
                    lemma_end_boundary(self.import_export_path@);
                }
                Effect::Nothing
            },
            Action::PathClear => {
                self.import_export_path = String::new();
                self.import_export_cursor = 0;
                proof {
                    lemma_start_boundary(Seq::<char>::empty());
                }
                Effect::Nothing
            },
            Action::PathDeleteWord => {
                delete_word_at_cursor(&mut self.import_export_path, &mut self.import_export_cursor, '/');
                Effect::Nothing
            },
            Action::PathCancel => {
                self.mode = AppMode::ImportExport;
                self.import_export_error = String::new();
                Effect::Nothing
            },
            _ => {
                let t = trimmed(self.import_export_path.as_str());
                let p = expand_home(t.as_str(), ctx.home.as_str());
                if p.as_str().is_empty() {
                    self.import_export_error = owned("Path cannot be empty");
                    Effect::Nothing
                } else {
                    match self.import_export_operation {
                        Some(op) => {
                            if op == '1' || op == '2' || op == '3' {
                                Effect::ImportFile(p)
                            } else if op == '5' {
                                Effect::ExportFile(ExportFormat::Json, p)
                            } else if op == '6' {
                                Effect::ExportFile(ExportFormat::Html, p)
                            } else if op == '7' {
                                Effect::ExportFile(ExportFormat::Xlsx, p)
                            } else {
                                self.import_export_error = owned("Invalid operation");
                                Effect::Nothing
                            }
                        },
                        None => {
                            self.import_export_error = owned("Invalid operation");
                            Effect::Nothing
                        },
                    }
                }
            },
        }
    }

    fn history_action(&mut self, a: Action, ctx: &KeyContext) -> (e: Effect)
        requires
            is_history_action(a),
            old(self)@.wf(),
            ctx.wf(),
        ensures
            final(self)@ == step(old(self)@, a, *ctx).0,
            e@ == step(old(self)@, a, *ctx).1,
            final(self)@.wf(),
    {
        match a {
            Action::EnterHistory => {
                self.mode = AppMode::History;
                self.history_selected = 0;
                self.history_multi_selected = Vec::new();
                assert(texts(self.history_multi_selected@) =~= Seq::empty());
                Effect::Nothing
            },
            Action::HistoryRestore => match &ctx.history_current {
                Some(id) => Effect::RestoreHistory(owned(id.as_str())),
                None => Effect::Nothing,
            },
            Action::HistoryToggleSelect => {
                match &ctx.history_current {
                    Some(id) => {
                        proof {
                            lemma_toggled_no_duplicates(texts(self.history_multi_selected@), id@);
                        }
                        toggle_text(&mut self.history_multi_selected, id.as_str());
                    },
                    None => {},
                }
                Effect::Nothing
            },
            Action::HistoryDelete => {
                if ctx.history_len > 0 {
                    self.mode = AppMode::HistoryDeleteConfirm;
                }
                Effect::Nothing
            },
            Action::HistoryBulkDelete => {
                if self.history_multi_selected.len() > 0 {
                    self.mode = AppMode::HistoryDeleteConfirm;
                }
                Effect::Nothing
            },
            Action::HistoryConfirmDelete => {
                let ids: Vec<String> = if self.history_multi_selected.len() > 0 {
                    copy_texts(&self.history_multi_selected)
                } else {
                    let mut v: Vec<String> = Vec::new();
                    match &ctx.history_current {
                        Some(id) => {
                            v.push(owned(id.as_str()));
                            assert(texts(v@) =~= seq![id@]);
                        },
                        None => {
                            assert(texts(v@) =~= Seq::empty());
                        },
                    }
                    v
                };
                self.mode = AppMode::History;
                if ids.len() > 0 {
                    Effect::DeleteHistory(ids)
                } else {
                    Effect::Nothing
                }
            },
            Action::HistoryCancelDelete => {
                self.mode = AppMode::History;
                Effect::Nothing
            },
            Action::HistoryExport => {
                if ctx.history_len > 0 {
                    self.mode = AppMode::HistoryExportSelect;
                } else {
                    self.status_message = owned("No history to export");
                    self.message_timer = 20;
                }
                Effect::Nothing
            },
            Action::HistoryExportSelect(c) => {
                self.mode = AppMode::History;
                if c == '2' {
                    Effect::ExportHistory(ExportFormat::Html)
                } else if c == '3' {
                    Effect::ExportHistory(ExportFormat::Xlsx)
                } else {
                    Effect::ExportHistory(ExportFormat::Json)
                }
            },
            Action::HistoryExportCancel => {
                self.mode = AppMode::History;
                Effect::Nothing
            },
            _ => {
                self.mode = AppMode::Normal;
                self.history_multi_selected = Vec::new();
                assert(texts(self.history_multi_selected@) =~= Seq::empty());
                Effect::Nothing
            },
        }
    }
}

impl Session {
    /// Carries out a key action: updates the session and the store, and says which
    /// outside work the action asks for. Deleting removes the chosen bookmarks from
    /// the store; saving the form updates or adds one; no other action touches it.
    pub fn apply(&mut self, action: Action, ctx: &KeyContext, store: &mut BookmarkStore) -> (e: Effect)
        requires
            old(self)@.wf(),
            ctx.wf(),
            action_fits(old(self)@, action),
        ensures
            final(self)@ == step(old(self)@, action, *ctx).0,
            e@ == step(old(self)@, action, *ctx).1,
            final(self)@.wf(),
            final(store).version == old(store).version,
            action == Action::ConfirmDelete ==> final(store).bookmarks@ == without_ids(
                old(store).bookmarks@,
                delete_ids(old(self)@, *ctx),
            ),
            saves(old(self)@, action) ==> save_store(
                old(self)@,
                old(store).bookmarks@,
                final(store).bookmarks@,
            ),
            action != Action::ConfirmDelete && !saves(old(self)@, action) ==> final(store).bookmarks@
                == old(store).bookmarks@,
    {
        if is_navigation_action(action) {
            self.navigate(action, ctx);
            Effect::Nothing
        } else if is_search_edit_action(action) {
            self.edit_search(action, ctx);
            Effect::Nothing
        } else if is_form_edit_action(action) {
            self.edit_form(action, ctx);
            Effect::Nothing
        } else if is_transfer(action) {
            self.transfer_action(action, ctx)
        } else if is_history(action) {
            self.history_action(action, ctx)
        } else {
            match action {
                Action::ConfirmDelete => self.confirm_delete(ctx, store),
                Action::FormSave => self.save_form(store),
                Action::FormEnter => {
                    let last = match &self.form_data {
                        Some(f) => f.is_last_field(),
                        None => false,
                    };
                    if last {
                        self.save_form(store)
                    } else {
                        match self.form_data.take() {
                            Some(mut f) => {
                                f.next_field();
                                self.form_data = Some(f);
                            },
                            None => {},
                        }
                        Effect::Nothing
                    }
                },
                Action::FormCancel => {
                    self.mode = AppMode::Normal;
                    self.form_data = None;
                    self.editing_id = None;
                    Effect::Nothing
                },
                _ => self.list_action(action, ctx),
            }
        }
    }
}

fn is_navigation_action(a: Action) -> (r: bool)
    ensures
        r == is_navigation(a),
{
    match a {
        Action::MoveDown | Action::MoveUp | Action::GoTop | Action::GoBottom
        | Action::SearchNavigateDown | Action::SearchNavigateUp => true,
        _ => false,
    }
}

fn is_search_edit_action(a: Action) -> (r: bool)
    ensures
        r == is_search_edit(a),
{
    match a {
        Action::EnterSearch | Action::Cancel | Action::SearchInput(_) | Action::SearchBackspace
        | Action::SearchDelete | Action::SearchClear | Action::SearchDeleteWord
        | Action::SearchCursorLeft | Action::SearchCursorRight | Action::SearchCursorHome
        | Action::SearchCursorEnd | Action::SearchConfirm => true,
        _ => false,
    }
}

fn is_form_edit_action(a: Action) -> (r: bool)
    ensures
        r == is_form_edit(a),
{
    match a {
        Action::FormInput(_) | Action::FormBackspace | Action::FormDelete | Action::FormDeleteWord
        | Action::FormClearField | Action::FormCursorLeft | Action::FormCursorRight
        | Action::FormCursorHome | Action::FormCursorEnd | Action::FormNextField
        | Action::FormPrevField => true,
        _ => false,
    }
}

fn is_transfer(a: Action) -> (r: bool)
    ensures
        r == is_transfer_action(a),
{
    match a {
        Action::EnterImportExport | Action::ImportExportSelect(_) | Action::ImportExportCancel
        | Action::PathInput(_) | Action::PathBackspace | Action::PathDelete
        | Action::PathCursorLeft | Action::PathCursorRight | Action::PathCursorHome
        | Action::PathCursorEnd | Action::PathClear | Action::PathDeleteWord | Action::PathCancel
        | Action::PathConfirm => true,
        _ => false,
    }
}

fn is_history(a: Action) -> (r: bool)
    ensures
        r == is_history_action(a),
{
    match a {
        Action::EnterHistory | Action::HistoryRestore | Action::HistoryToggleSelect
        | Action::HistoryDelete | Action::HistoryBulkDelete | Action::HistoryConfirmDelete
        | Action::HistoryCancelDelete | Action::HistoryExport | Action::HistoryExportSelect(_)
        | Action::HistoryExportCancel | Action::HistoryCancel => true,
        _ => false,
    }
}

/// `a`, `b` and `c` joined.
fn joined(a: &str, b: &str, c: &str) -> (r: String)
    ensures
        r@ == a@ + b@ + c@,
{
    let mut r = owned(a);
    push_all(&mut r, b);
    push_all(&mut r, c);
    r
}

/// Name of an export format in messages.
pub open spec fn format_label(f: ExportFormat) -> Seq<char> {
    match f {
        ExportFormat::Json => "JSON"@,
        ExportFormat::Html => "HTML"@,
        ExportFormat::Xlsx => "XLSX"@,
    }
}

fn format_label_text(f: ExportFormat) -> (r: &'static str)
    ensures
        r@ == format_label(f),
{
    match f {
        ExportFormat::Json => "JSON",
        ExportFormat::Html => "HTML",
        ExportFormat::Xlsx => "XLSX",
    }
}

impl Session {
    /// After copying `url` to the clipboard (`Effect::Yank`).
    pub fn yank_done(&mut self, url: &str, result: Result<(), String>)
        ensures
            final(self)@ == match result {
                Ok(_) => SessionModel { status: "Copied: "@ + url@, timer: 20, ..old(self)@ },
                Err(e) => SessionModel { status: "Yank error: "@ + e@, timer: 30, ..old(self)@ },
            },
            old(self)@.wf() ==> final(self)@.wf(),
    {
        match result {
            Ok(_) => {
                self.status_message = joined("Copied: ", url, "");
                self.message_timer = 20;
            },
            Err(e) => {
                self.status_message = joined("Yank error: ", e.as_str(), "");
                self.message_timer = 30;
            },
        }
        proof {
            reveal_strlit("");
        }
    }

    /// After importing from Chromium (`Effect::ImportChromium`): the count of imported
    /// bookmarks, or the error, which the path input then shows.
    pub fn chromium_import_done(&mut self, result: Result<usize, String>)
        requires
            old(self)@.wf(),
            old(self)@.mode == AppMode::ImportExport,
        ensures
            final(self)@ == match result {
                Ok(n) => SessionModel {
                    status: "✓ Imported "@ + decimal(n as nat) + " bookmarks from Chromium"@,
                    timer: 30,
                    mode: AppMode::Normal,
                    ..old(self)@
                },
                Err(e) => SessionModel {
                    path_error: e@,
                    mode: AppMode::ImportExportInput,
                    ..old(self)@
                },
            },
            final(self)@.wf(),
    {
        match result {
            Ok(n) => {
                self.status_message = joined(
                    "✓ Imported ",
                    decimal_text(n).as_str(),
                    " bookmarks from Chromium",
                );
                self.message_timer = 30;
                self.mode = AppMode::Normal;
            },
            Err(e) => {
                self.import_export_error = e;
                self.mode = AppMode::ImportExportInput;
            },
        }
    }

    /// After exporting to the timestamped file `file_name` (`Effect::ExportBookmarks`).
    pub fn export_direct_done(&mut self, file_name: &str, result: Result<usize, String>)
        ensures
            final(self)@ == match result {
                Ok(n) => SessionModel {
                    status: "✓ Exported "@ + decimal(n as nat) + " bookmarks to "@ + file_name@,
                    timer: 30,
                    mode: AppMode::Normal,
                    ..old(self)@
                },
                Err(e) => SessionModel {
                    status: "✗ Export failed: "@ + e@,
                    timer: 30,
                    mode: AppMode::Normal,
                    ..old(self)@
                },
            },
            old(self)@.wf() ==> final(self)@.wf(),
    {
        match result {
            Ok(n) => {
                let mut msg = joined("✓ Exported ", decimal_text(n).as_str(), " bookmarks to ");
                push_all(&mut msg, file_name);
                self.status_message = msg;
            },
            Err(e) => {
                self.status_message = joined("✗ Export failed: ", e.as_str(), "");
                proof {
                    reveal_strlit("");
                }
            },
        }
        self.message_timer = 30;
        self.mode = AppMode::Normal;
    }

    /// After importing the file named in the path input (`Effect::ImportFile`).
    pub fn import_file_done(&mut self, result: Result<usize, String>)
        ensures
            final(self)@ == match result {
                Ok(n) => SessionModel {
                    status: "✓ Imported "@ + decimal(n as nat) + " bookmarks"@,
                    timer: 30,
                    mode: AppMode::Normal,
                    path: Seq::empty(),
                    ..old(self)@
                },
                Err(e) => SessionModel { path_error: e@, ..old(self)@ },
            },
            old(self)@.wf() ==> final(self)@.wf(),
    {
        match result {
            Ok(n) => {
                self.status_message = joined("✓ Imported ", decimal_text(n).as_str(), " bookmarks");
                self.message_timer = 30;
                self.mode = AppMode::Normal;
                self.import_export_path = String::new();
            },
            Err(e) => {
                self.import_export_error = e;
            },
        }
    }

    /// After exporting to the file named in the path input (`Effect::ExportFile`).
    pub fn export_file_done(&mut self, format: ExportFormat, result: Result<usize, String>)
        ensures
            final(self)@ == match result {
                Ok(n) => SessionModel {
                    status: "✓ Exported "@ + decimal(n as nat) + " bookmarks to "@ + format_label(
                        format,
                    ),
                    timer: 30,
                    mode: AppMode::Normal,
                    path: Seq::empty(),
                    ..old(self)@
                },
                Err(e) => SessionModel { path_error: e@, ..old(self)@ },
            },
            old(self)@.wf() ==> final(self)@.wf(),
    {
        match result {
            Ok(n) => {
                let mut msg = joined("✓ Exported ", decimal_text(n).as_str(), " bookmarks to ");
                push_all(&mut msg, format_label_text(format));
                self.status_message = msg;
                self.message_timer = 30;
                self.mode = AppMode::Normal;
                self.import_export_path = String::new();
            },
            Err(e) => {
                self.import_export_error = e;
            },
        }
    }

    /// After restoring a history snapshot (`Effect::RestoreHistory`): the number of
    /// restored bookmarks and the entry's description, or the error.
    pub fn restore_done(&mut self, result: Result<(usize, String), String>)
        ensures
            final(self)@ == match result {
                Ok((n, desc)) => SessionModel {
                    status: "✓ Restored: "@ + desc@ + " ("@ + decimal(n as nat) + " bookmarks)"@,
                    timer: 30,
                    mode: AppMode::Normal,
                    ..old(self)@
                },
                Err(e) => SessionModel {
                    status: "✗ Restore failed: "@ + e@,
                    timer: 30,
                    ..old(self)@
                },
            },
            old(self)@.wf() ==> final(self)@.wf(),
    {
        match result {
            Ok((n, desc)) => {
                let mut msg = joined("✓ Restored: ", desc.as_str(), " (");
                push_all(&mut msg, decimal_text(n).as_str());
                push_all(&mut msg, " bookmarks)");
                self.status_message = msg;
                self.mode = AppMode::Normal;
            },
            Err(e) => {
                self.status_message = joined("✗ Restore failed: ", e.as_str(), "");
                proof {
                    reveal_strlit("");
                }
            },
        }
        self.message_timer = 30;
    }

    /// After deleting history entries (`Effect::DeleteHistory`).
    pub fn history_delete_done(&mut self, result: Result<usize, String>)
        ensures
            final(self)@ == match result {
                Ok(n) => SessionModel {
                    status: "✓ Deleted "@ + decimal(n as nat) + " history entries"@,
                    timer: 20,
                    history_multi: Seq::empty(),
                    history_selected: if old(self)@.history_selected > 0 {
                        old(self)@.history_selected - 1
                    } else {
                        0
                    },
                    ..old(self)@
                },
                Err(e) => SessionModel {
                    status: "✗ Delete failed: "@ + e@,
                    timer: 30,
                    ..old(self)@
                },
            },
            old(self)@.wf() ==> final(self)@.wf(),
    {
        match result {
            Ok(n) => {
                self.status_message = joined("✓ Deleted ", decimal_text(n).as_str(), " history entries");
                self.message_timer = 20;
                self.history_multi_selected = Vec::new();
                assert(texts(self.history_multi_selected@) =~= Seq::empty());
                if self.history_selected > 0 {
                    self.history_selected = self.history_selected - 1;
                }
            },
            Err(e) => {
                self.status_message = joined("✗ Delete failed: ", e.as_str(), "");
                self.message_timer = 30;
                proof {
                    reveal_strlit("");
                }
            },
        }
    }

    /// After exporting the history to the timestamped file `file_name`
    /// (`Effect::ExportHistory`).
    pub fn history_export_done(&mut self, file_name: &str, result: Result<usize, String>)
        ensures
            final(self)@ == match result {
                Ok(n) => SessionModel {
                    status: "✓ Exported "@ + decimal(n as nat) + " entries to "@ + file_name@,
                    timer: 30,
                    ..old(self)@
                },
                Err(e) => SessionModel {
                    status: "✗ Export failed: "@ + e@,
                    timer: 30,
                    ..old(self)@
                },
            },
            old(self)@.wf() ==> final(self)@.wf(),
    {
        match result {
            Ok(n) => {
                let mut msg = joined("✓ Exported ", decimal_text(n).as_str(), " entries to ");
                push_all(&mut msg, file_name);
                self.status_message = msg;
            },
            Err(e) => {
                self.status_message = joined("✗ Export failed: ", e.as_str(), "");
                proof {
                    reveal_strlit("");
                }
            },
        }
        self.message_timer = 30;
    }
}

/// File name extension of an export format.
pub open spec fn extension(f: ExportFormat) -> Seq<char> {
    match f {
        ExportFormat::Json => "json"@,
        ExportFormat::Html => "html"@,
        ExportFormat::Xlsx => "xlsx"@,
    }
}

/// Name of a timestamped export file: `prefix`, the instant as `YYYYmmdd_HHMMSS`,
/// a dot and the format's extension.
pub fn stamped_file_name(prefix: &str, micros: i64, format: ExportFormat) -> (r: Option<String>)
    ensures
        match utc_format(micros, id_pattern()) {
            Some(t) => r matches Some(s) && s@ == prefix@ + t + "."@ + extension(format),
            None => r is None,
        },
{
    match format_utc_micros(micros, "%Y%m%d_%H%M%S") {
        None => None,
        Some(t) => {
            let mut s = joined(prefix, t.as_str(), ".");
            let ext = match format {
                ExportFormat::Json => "json",
                ExportFormat::Html => "html",
                ExportFormat::Xlsx => "xlsx",
            };
            push_all(&mut s, ext);
            Some(s)
        },
    }
}

/// Name of a timestamped export file for the instant the clock reads now (see
/// `stamped_file_name`); `None` when that instant cannot be formatted.
pub fn stamped_file_name_now(prefix: &str, format: ExportFormat) -> (r: Option<String>)
    ensures
        r matches Some(s) ==> exists|micros: i64|
            #[trigger] utc_format(micros, id_pattern()) matches Some(t) && s@ == prefix@ + t + "."@
                + extension(format),
{
    stamped_file_name(prefix, now_micros(), format)
}

// ─── laws ────────────────────────────────────────────────────────────────

/// Every action that a key produces fits the mode it was pressed in, so the
/// session can always carry it out.
pub proof fn law_key_actions_fit(s: SessionModel, key: crate::keybinding::KeyEvent)
    ensures
        action_fits(s, crate::keybinding::key_action(s.mode, key)),
{
}

proof fn lemma_without_absent(list: Seq<Seq<char>>, id: Seq<char>)
    requires
        !list.contains(id),
    ensures
        without_text(list, id) == list,
    decreases list.len(),
{
    if list.len() > 0 {
        assert(list.drop_last().contains(id) ==> list.contains(id)) by {
            if list.drop_last().contains(id) {
                let j = choose|j: int| 0 <= j < list.drop_last().len() && list.drop_last()[j] == id;
                assert(list[j] == id);
            }
        }
        assert(list[list.len() - 1] == list.last());
        lemma_without_absent(list.drop_last(), id);
        assert(list.drop_last().push(list.last()) =~= list);
    }
}

/// Selecting an item and then deselecting it leaves the selection as it was.
pub proof fn law_toggle_twice(list: Seq<Seq<char>>, id: Seq<char>)
    requires
        !list.contains(id),
    ensures
        toggled(toggled(list, id), id) == list,
{
    let l1 = list.push(id);
    assert(l1[list.len() as int] == id);
    assert(l1.contains(id));
    assert(l1.drop_last() =~= list);
    lemma_without_absent(list, id);
}

/// Moving through the bookmark list: outside the help screen and the history, Down
/// (and, in any mode, the search bar's Down) moves the highlight one row down unless
/// it is on the last of the `filtered_len` results, and Up one row up unless it is on
/// the first; nothing else changes and no outside work is asked for.
pub proof fn law_list_moves(s: SessionModel, c: KeyContext)
    ensures
        ({
            let n = c.filtered_len as int;
            let down = if n > 0 && s.selected < n - 1 {
                s.selected + 1
            } else {
                s.selected
            };
            let up = if s.selected > 0 {
                s.selected - 1
            } else {
                s.selected
            };
            &&& step(s, Action::SearchNavigateDown, c) == (
            SessionModel { selected: down, ..s },
            EffectModel::Nothing,
            )
            &&& step(s, Action::SearchNavigateUp, c) == (
            SessionModel { selected: up, ..s },
            EffectModel::Nothing,
            )
            &&& s.mode != AppMode::Help && s.mode != AppMode::History ==> step(s, Action::MoveDown, c)
                == (SessionModel { selected: down, ..s }, EffectModel::Nothing)
            &&& s.mode != AppMode::Help && s.mode != AppMode::History ==> step(s, Action::MoveUp, c)
                == (SessionModel { selected: up, ..s }, EffectModel::Nothing)
        }),
{
}

/// Moving through the history: Down moves the highlighted entry one down unless it is
/// the last of `history_len`, Up one up unless it is the first.
pub proof fn law_history_moves(s: SessionModel, c: KeyContext)
    requires
        s.mode == AppMode::History,
    ensures
        ({
            let n = c.history_len as int;
            &&& step(s, Action::MoveDown, c).0 == SessionModel {
                history_selected: if n > 0 && s.history_selected < n - 1 {
                    s.history_selected + 1
                } else {
                    s.history_selected
                },
                ..s
            }
            &&& step(s, Action::MoveUp, c).0 == SessionModel {
                history_selected: if s.history_selected > 0 {
                    s.history_selected - 1
                } else {
                    s.history_selected
                },
                ..s
            }
        }),
{
}

/// In the bookmark list, the help screen and the history, the up keys (`k`, Up) never
/// move the highlight or the help text down, and the down keys (`j`, Down) never move
/// them up; with a row to go to, each moves by exactly one.
pub proof fn law_vertical_keys_move(s: SessionModel, c: KeyContext, key: crate::keybinding::KeyEvent)
    requires
        s.mode == AppMode::Normal || s.mode == AppMode::Help || s.mode == AppMode::History,
    ensures
        ({
            let r = step(s, crate::keybinding::key_action(s.mode, key), c).0;
            let up = key.code == KeyCode::Char('k') || key.code == KeyCode::Up;
            let down = key.code == KeyCode::Char('j') || key.code == KeyCode::Down;
            &&& up ==> r.selected <= s.selected && r.history_selected <= s.history_selected
                && r.help_scroll <= s.help_scroll
            &&& down ==> r.selected >= s.selected && r.history_selected >= s.history_selected
                && r.help_scroll >= s.help_scroll
            &&& up && s.mode == AppMode::Normal && s.selected > 0 ==> r.selected == s.selected - 1
            &&& down && s.mode == AppMode::Normal && 0 <= s.selected < c.filtered_len - 1
                ==> r.selected == s.selected + 1
        }),
{
}

} // verus!
