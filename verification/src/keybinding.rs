//! Modes of the application and the mapping from key presses to actions.
use vstd::prelude::*;

verus! {

#[derive(Debug, Clone, Copy, PartialEq, Eq, Structural)]
pub enum AppMode {
    Normal,
    Search,
    Add,
    Edit,
    DeleteConfirm,
    Help,
    ImportExport,
    ImportExportInput,
    History,
    HistoryDeleteConfirm,
    HistoryExportSelect,
}

#[derive(Debug, Clone, Copy, PartialEq, Eq, Structural)]
pub enum FormField {
    Name,
    Url,
    Folder,
}

/// The field that follows `f` in the cycle Name → Url → Folder → Name.
pub open spec fn field_after(f: FormField) -> FormField {
    match f {
        FormField::Name => FormField::Url,
        FormField::Url => FormField::Folder,
        FormField::Folder => FormField::Name,
    }
}

/// The field that precedes `f` in the cycle Name → Url → Folder → Name.
pub open spec fn field_before(f: FormField) -> FormField {
    match f {
        FormField::Name => FormField::Folder,
        FormField::Url => FormField::Name,
        FormField::Folder => FormField::Url,
    }
}

impl FormField {
    pub fn next(&self) -> (r: Self)
        ensures
            r == field_after(*self),
    {
        match self {
            FormField::Name => FormField::Url,
            FormField::Url => FormField::Folder,
            FormField::Folder => FormField::Name,
        }
    }

    pub fn prev(&self) -> (r: Self)
        ensures
            r == field_before(*self),
    {
        match self {
            FormField::Name => FormField::Folder,
            FormField::Url => FormField::Name,
            FormField::Folder => FormField::Url,
        }
    }
}

/// `prev` undoes `next` and `next` undoes `prev`.
pub proof fn lemma_field_cycle_inverse(f: FormField)
    ensures
        field_before(field_after(f)) == f,
        field_after(field_before(f)) == f,
{
}

/// Three steps of `next` (or of `prev`) come back to the starting field.
pub proof fn lemma_field_cycle_period(f: FormField)
    ensures
        field_after(field_after(field_after(f))) == f,
        field_before(field_before(field_before(f))) == f,
        field_after(f) != f,
{
}

/// The key of a key press, as far as the key map distinguishes keys.
#[derive(Debug, Clone, Copy, PartialEq, Eq, Structural)]
pub enum KeyCode {
    Char(char),
    Enter,
    Esc,
    Backspace,
    Delete,
    Left,
    Right,
    Up,
    Down,
    Home,
    End,
    Tab,
    BackTab,
    Other,
}

/// A key press: the key and whether Control was held.
#[derive(Debug, Clone, Copy, PartialEq, Eq, Structural)]
pub struct KeyEvent {
    pub code: KeyCode,
    pub ctrl: bool,
}

#[derive(Debug, Clone, Copy, PartialEq, Eq, Structural)]
pub enum Action {
    // Navigation
    MoveDown,
    MoveUp,
    GoTop,
    GoBottom,
    // Mode switches
    EnterSearch,
    EnterAdd,
    EnterEdit,
    EnterDeleteConfirm,
    EnterImportExport,
    EnterHistory,
    ShowHelp,
    Cancel,
    // Actions
    Open,
    ToggleSelect,
    BulkDelete,
    YankUrl,
    Quit,
    // Search
    SearchInput(char),
    SearchBackspace,
    SearchClear,
    SearchDeleteWord,
    SearchConfirm,
    SearchNavigateDown,
    SearchNavigateUp,
    SearchCursorLeft,
    SearchCursorRight,
    SearchCursorHome,
    SearchCursorEnd,
    SearchDelete,
    // Form
    FormInput(char),
    FormBackspace,
    FormDelete,
    FormDeleteWord,
    FormClearField,
    FormNextField,
    FormPrevField,
    FormSave,
    FormCancel,
    FormCursorLeft,
    FormCursorRight,
    FormCursorHome,
    FormCursorEnd,
    FormEnter,
    // Delete confirm
    ConfirmDelete,
    CancelDelete,
    // Import/Export
    ImportExportSelect(char),
    ImportExportCancel,
    // Import/Export path input
    PathInput(char),
    PathBackspace,
    PathDelete,
    PathCursorLeft,
    PathCursorRight,
    PathCursorHome,
    PathCursorEnd,
    PathDeleteWord,
    PathClear,
    PathConfirm,
    PathCancel,
    // History
    HistoryRestore,
    HistoryDelete,
    HistoryBulkDelete,
    HistoryExport,
    HistoryToggleSelect,
    HistoryCancel,
    // History delete confirm
    HistoryConfirmDelete,
    HistoryCancelDelete,
    // History export select
    HistoryExportSelect(char),
    HistoryExportCancel,
    // No action
    Nothing,
}

// ─── the key map, one table per mode ─────────────────────────────────────

pub open spec fn normal_action(key: KeyEvent) -> Action {
    match key.code {
        KeyCode::Char('q') => Action::Quit,
        KeyCode::Char('j') | KeyCode::Down => Action::MoveDown,
        KeyCode::Char('k') | KeyCode::Up => Action::MoveUp,
        KeyCode::Char('g') => Action::GoTop,
        KeyCode::Char('G') => Action::GoBottom,
        KeyCode::Char('/') => Action::EnterSearch,
        KeyCode::Char('a') => Action::EnterAdd,
        KeyCode::Char('e') => Action::EnterEdit,
        KeyCode::Char('d') => Action::EnterDeleteConfirm,
        KeyCode::Char(' ') => Action::ToggleSelect,
        KeyCode::Char('D') => Action::BulkDelete,
        KeyCode::Char('y') => Action::YankUrl,
        KeyCode::Char('?') => Action::ShowHelp,
        KeyCode::Char('I') => Action::EnterImportExport,
        KeyCode::Char('X') => Action::EnterHistory,
        KeyCode::Enter => Action::Open,
        KeyCode::Esc => Action::Quit,
        _ => Action::Nothing,
    }
}

pub open spec fn search_action(key: KeyEvent) -> Action {
    match key.code {
        KeyCode::Esc => Action::Cancel,
        KeyCode::Enter => Action::SearchConfirm,
        KeyCode::Backspace => Action::SearchBackspace,
        KeyCode::Delete => Action::SearchDelete,
        KeyCode::Left => Action::SearchCursorLeft,
        KeyCode::Right => Action::SearchCursorRight,
        KeyCode::Home => Action::SearchCursorHome,
        KeyCode::End => Action::SearchCursorEnd,
        KeyCode::Down => Action::SearchNavigateDown,
        KeyCode::Up => Action::SearchNavigateUp,
        KeyCode::Char(c) => if key.ctrl && c == 'b' {
            Action::SearchCursorLeft
        } else if key.ctrl && c == 'f' {
            Action::SearchCursorRight
        } else if key.ctrl && c == 'a' {
            Action::SearchCursorHome
        } else if key.ctrl && c == 'e' {
            Action::SearchCursorEnd
        } else if key.ctrl && c == 'n' {
            Action::SearchNavigateDown
        } else if key.ctrl && c == 'p' {
            Action::SearchNavigateUp
        } else if key.ctrl && c == 'u' {
            Action::SearchClear
        } else if key.ctrl && c == 'w' {
            Action::SearchDeleteWord
        } else {
            Action::SearchInput(c)
        },
        _ => Action::Nothing,
    }
}

pub open spec fn form_action(key: KeyEvent) -> Action {
    match key.code {
        KeyCode::Esc => Action::FormCancel,
        KeyCode::Tab => Action::FormNextField,
        KeyCode::BackTab => Action::FormPrevField,
        KeyCode::Enter => Action::FormEnter,
        KeyCode::Backspace => Action::FormBackspace,
        KeyCode::Delete => Action::FormDelete,
        KeyCode::Left => Action::FormCursorLeft,
        KeyCode::Right => Action::FormCursorRight,
        KeyCode::Home => Action::FormCursorHome,
        KeyCode::End => Action::FormCursorEnd,
        KeyCode::Char(c) => if key.ctrl && c == 'b' {
            Action::FormCursorLeft
        } else if key.ctrl && c == 'f' {
            Action::FormCursorRight
        } else if key.ctrl && c == 'a' {
            Action::FormCursorHome
        } else if key.ctrl && c == 'e' {
            Action::FormCursorEnd
        } else if key.ctrl && c == 's' {
            Action::FormSave
        } else if key.ctrl && c == 'u' {
            Action::FormClearField
        } else if key.ctrl && c == 'w' {
            Action::FormDeleteWord
        } else {
            Action::FormInput(c)
        },
        _ => Action::Nothing,
    }
}

pub open spec fn delete_confirm_action(key: KeyEvent) -> Action {
    match key.code {
        KeyCode::Char('y') | KeyCode::Enter => Action::ConfirmDelete,
        KeyCode::Char('n') | KeyCode::Esc => Action::CancelDelete,
        _ => Action::Nothing,
    }
}

pub open spec fn help_action(key: KeyEvent) -> Action {
    match key.code {
        KeyCode::Esc | KeyCode::Char('q') | KeyCode::Char('?') => Action::Cancel,
        KeyCode::Char('j') | KeyCode::Down => Action::MoveDown,
        KeyCode::Char('k') | KeyCode::Up => Action::MoveUp,
        KeyCode::Char('g') => Action::GoTop,
        KeyCode::Char('G') => Action::GoBottom,
        _ => Action::Nothing,
    }
}

pub open spec fn import_export_action(key: KeyEvent) -> Action {
    match key.code {
        KeyCode::Char(c) => if '1' <= c && c <= '7' {
            Action::ImportExportSelect(c)
        } else {
            Action::Nothing
        },
        KeyCode::Esc => Action::ImportExportCancel,
        _ => Action::Nothing,
    }
}

pub open spec fn path_input_action(key: KeyEvent) -> Action {
    match key.code {
        KeyCode::Esc => Action::PathCancel,
        KeyCode::Enter => Action::PathConfirm,
        KeyCode::Backspace => Action::PathBackspace,
        KeyCode::Delete => Action::PathDelete,
        KeyCode::Left => Action::PathCursorLeft,
        KeyCode::Right => Action::PathCursorRight,
        KeyCode::Home => Action::PathCursorHome,
        KeyCode::End => Action::PathCursorEnd,
        KeyCode::Char(c) => if key.ctrl && c == 'u' {
            Action::PathClear
        } else if key.ctrl && c == 'w' {
            Action::PathDeleteWord
        } else if key.ctrl && c == 'b' {
            Action::PathCursorLeft
        } else if key.ctrl && c == 'f' {
            Action::PathCursorRight
        } else if key.ctrl && c == 'a' {
            Action::PathCursorHome
        } else if key.ctrl && c == 'e' {
            Action::PathCursorEnd
        } else {
            Action::PathInput(c)
        },
        _ => Action::Nothing,
    }
}

pub open spec fn history_action(key: KeyEvent) -> Action {
    match key.code {
        KeyCode::Char('j') | KeyCode::Down => Action::MoveDown,
        KeyCode::Char('k') | KeyCode::Up => Action::MoveUp,
        KeyCode::Char('g') => Action::GoTop,
        KeyCode::Char('G') => Action::GoBottom,
        KeyCode::Char('r') | KeyCode::Enter => Action::HistoryRestore,
        KeyCode::Char('d') => Action::HistoryDelete,
        KeyCode::Char('D') => Action::HistoryBulkDelete,
        KeyCode::Char('E') => Action::HistoryExport,
        KeyCode::Char(' ') => Action::HistoryToggleSelect,
        KeyCode::Esc => Action::HistoryCancel,
        _ => Action::Nothing,
    }
}

pub open spec fn history_delete_confirm_action(key: KeyEvent) -> Action {
    match key.code {
        KeyCode::Char('y') | KeyCode::Enter => Action::HistoryConfirmDelete,
        KeyCode::Char('n') | KeyCode::Esc => Action::HistoryCancelDelete,
        _ => Action::Nothing,
    }
}

pub open spec fn history_export_select_action(key: KeyEvent) -> Action {
    match key.code {
        KeyCode::Char(c) => if '1' <= c && c <= '3' {
            Action::HistoryExportSelect(c)
        } else {
            Action::Nothing
        },
        KeyCode::Esc => Action::HistoryExportCancel,
        _ => Action::Nothing,
    }
}

/// The action that a key press means in a mode.
pub open spec fn key_action(mode: AppMode, key: KeyEvent) -> Action {
    match mode {
        AppMode::Normal => normal_action(key),
        AppMode::Search => search_action(key),
        AppMode::Add | AppMode::Edit => form_action(key),
        AppMode::DeleteConfirm => delete_confirm_action(key),
        AppMode::Help => help_action(key),
        AppMode::ImportExport => import_export_action(key),
        AppMode::ImportExportInput => path_input_action(key),
        AppMode::History => history_action(key),
        AppMode::HistoryDeleteConfirm => history_delete_confirm_action(key),
        AppMode::HistoryExportSelect => history_export_select_action(key),
    }
}

pub fn handle_key(mode: &AppMode, key: KeyEvent) -> (r: Action)
    ensures
        r == key_action(*mode, key),
{
    match mode {
        AppMode::Normal => handle_normal(key),
        AppMode::Search => handle_search(key),
        AppMode::Add | AppMode::Edit => handle_form(key),
        AppMode::DeleteConfirm => handle_delete_confirm(key),
        AppMode::Help => handle_help(key),
        AppMode::ImportExport => handle_import_export(key),
        AppMode::ImportExportInput => handle_import_export_input(key),
        AppMode::History => handle_history(key),
        AppMode::HistoryDeleteConfirm => handle_history_delete_confirm(key),
        AppMode::HistoryExportSelect => handle_history_export_select(key),
    }
}

fn handle_normal(key: KeyEvent) -> (r: Action)
    ensures
        r == normal_action(key),
{
    match key.code {
        KeyCode::Char('q') => Action::Quit,
        KeyCode::Char('j') | KeyCode::Down => Action::MoveDown,
        KeyCode::Char('k') | KeyCode::Up => Action::MoveUp,
        KeyCode::Char('g') => Action::GoTop,
        KeyCode::Char('G') => Action::GoBottom,
        KeyCode::Char('/') => Action::EnterSearch,
        KeyCode::Char('a') => Action::EnterAdd,
        KeyCode::Char('e') => Action::EnterEdit,
        KeyCode::Char('d') => Action::EnterDeleteConfirm,
        KeyCode::Char(' ') => Action::ToggleSelect,
        KeyCode::Char('D') => Action::BulkDelete,
        KeyCode::Char('y') => Action::YankUrl,
        KeyCode::Char('?') => Action::ShowHelp,
        KeyCode::Char('I') => Action::EnterImportExport,
        KeyCode::Char('X') => Action::EnterHistory,
        KeyCode::Enter => Action::Open,
        KeyCode::Esc => Action::Quit,
        _ => Action::Nothing,
    }
}

fn handle_search(key: KeyEvent) -> (r: Action)
    ensures
        r == search_action(key),
{
    match key.code {
        KeyCode::Esc => Action::Cancel,
        KeyCode::Enter => Action::SearchConfirm,
        KeyCode::Backspace => Action::SearchBackspace,
        KeyCode::Delete => Action::SearchDelete,
        KeyCode::Left => Action::SearchCursorLeft,
        KeyCode::Right => Action::SearchCursorRight,
        KeyCode::Home => Action::SearchCursorHome,
        KeyCode::End => Action::SearchCursorEnd,
        KeyCode::Down => Action::SearchNavigateDown,
        KeyCode::Up => Action::SearchNavigateUp,
        KeyCode::Char('b') if key.ctrl => Action::SearchCursorLeft,
        KeyCode::Char('f') if key.ctrl => Action::SearchCursorRight,
        KeyCode::Char('a') if key.ctrl => Action::SearchCursorHome,
        KeyCode::Char('e') if key.ctrl => Action::SearchCursorEnd,
        KeyCode::Char('n') if key.ctrl => Action::SearchNavigateDown,
        KeyCode::Char('p') if key.ctrl => Action::SearchNavigateUp,
        KeyCode::Char('u') if key.ctrl => Action::SearchClear,
        KeyCode::Char('w') if key.ctrl => Action::SearchDeleteWord,
        KeyCode::Char(c) => Action::SearchInput(c),
        _ => Action::Nothing,
    }
}

fn handle_form(key: KeyEvent) -> (r: Action)
    ensures
        r == form_action(key),
{
    match key.code {
        KeyCode::Esc => Action::FormCancel,
        KeyCode::Tab => Action::FormNextField,
        KeyCode::BackTab => Action::FormPrevField,
        KeyCode::Enter => Action::FormEnter,
        KeyCode::Backspace => Action::FormBackspace,
        KeyCode::Delete => Action::FormDelete,
        KeyCode::Left => Action::FormCursorLeft,
        KeyCode::Right => Action::FormCursorRight,
        KeyCode::Home => Action::FormCursorHome,
        KeyCode::End => Action::FormCursorEnd,
        KeyCode::Char('b') if key.ctrl => Action::FormCursorLeft,
        KeyCode::Char('f') if key.ctrl => Action::FormCursorRight,
        KeyCode::Char('a') if key.ctrl => Action::FormCursorHome,
        KeyCode::Char('e') if key.ctrl => Action::FormCursorEnd,
        KeyCode::Char('s') if key.ctrl => Action::FormSave,
        KeyCode::Char('u') if key.ctrl => Action::FormClearField,
        KeyCode::Char('w') if key.ctrl => Action::FormDeleteWord,
        KeyCode::Char(c) => Action::FormInput(c),
        _ => Action::Nothing,
    }
}

fn handle_delete_confirm(key: KeyEvent) -> (r: Action)
    ensures
        r == delete_confirm_action(key),
{
    match key.code {
        KeyCode::Char('y') | KeyCode::Enter => Action::ConfirmDelete,
        KeyCode::Char('n') | KeyCode::Esc => Action::CancelDelete,
        _ => Action::Nothing,
    }
}

fn handle_help(key: KeyEvent) -> (r: Action)
    ensures
        r == help_action(key),
{
    match key.code {
        KeyCode::Esc | KeyCode::Char('q') | KeyCode::Char('?') => Action::Cancel,
        KeyCode::Char('j') | KeyCode::Down => Action::MoveDown,
        KeyCode::Char('k') | KeyCode::Up => Action::MoveUp,
        KeyCode::Char('g') => Action::GoTop,
        KeyCode::Char('G') => Action::GoBottom,
        _ => Action::Nothing,
    }
}

fn handle_import_export(key: KeyEvent) -> (r: Action)
    ensures
        r == import_export_action(key),
{
    match key.code {
        KeyCode::Char(c) if '1' <= c && c <= '7' => Action::ImportExportSelect(c),
        KeyCode::Esc => Action::ImportExportCancel,
        _ => Action::Nothing,
    }
}

fn handle_import_export_input(key: KeyEvent) -> (r: Action)
    ensures
        r == path_input_action(key),
{
    match key.code {
        KeyCode::Esc => Action::PathCancel,
        KeyCode::Enter => Action::PathConfirm,
        KeyCode::Backspace => Action::PathBackspace,
        KeyCode::Delete => Action::PathDelete,
        KeyCode::Left => Action::PathCursorLeft,
        KeyCode::Right => Action::PathCursorRight,
        KeyCode::Home => Action::PathCursorHome,
        KeyCode::End => Action::PathCursorEnd,
        KeyCode::Char('u') if key.ctrl => Action::PathClear,
        KeyCode::Char('w') if key.ctrl => Action::PathDeleteWord,
        KeyCode::Char('b') if key.ctrl => Action::PathCursorLeft,
        KeyCode::Char('f') if key.ctrl => Action::PathCursorRight,
        KeyCode::Char('a') if key.ctrl => Action::PathCursorHome,
        KeyCode::Char('e') if key.ctrl => Action::PathCursorEnd,
        KeyCode::Char(c) => Action::PathInput(c),
        _ => Action::Nothing,
    }
}

fn handle_history(key: KeyEvent) -> (r: Action)
    ensures
        r == history_action(key),
{
    match key.code {
        KeyCode::Char('j') | KeyCode::Down => Action::MoveDown,
        KeyCode::Char('k') | KeyCode::Up => Action::MoveUp,
        KeyCode::Char('g') => Action::GoTop,
        KeyCode::Char('G') => Action::GoBottom,
        KeyCode::Char('r') | KeyCode::Enter => Action::HistoryRestore,
        KeyCode::Char('d') => Action::HistoryDelete,
        KeyCode::Char('D') => Action::HistoryBulkDelete,
        KeyCode::Char('E') => Action::HistoryExport,
        KeyCode::Char(' ') => Action::HistoryToggleSelect,
        KeyCode::Esc => Action::HistoryCancel,
        _ => Action::Nothing,
    }
}

fn handle_history_delete_confirm(key: KeyEvent) -> (r: Action)
    ensures
        r == history_delete_confirm_action(key),
{
    match key.code {
        KeyCode::Char('y') | KeyCode::Enter => Action::HistoryConfirmDelete,
        KeyCode::Char('n') | KeyCode::Esc => Action::HistoryCancelDelete,
        _ => Action::Nothing,
    }
}

fn handle_history_export_select(key: KeyEvent) -> (r: Action)
    ensures
        r == history_export_select_action(key),
{
    match key.code {
        KeyCode::Char(c) if '1' <= c && c <= '3' => Action::HistoryExportSelect(c),
        KeyCode::Esc => Action::HistoryExportCancel,
        _ => Action::Nothing,
    }
}

/// Escape always leaves the current mode or the application: in every mode it
/// maps to a cancelling action (or to quitting from the main list).
pub proof fn lemma_escape_never_ignored(mode: AppMode)
    ensures
        key_action(mode, KeyEvent { code: KeyCode::Esc, ctrl: false }) != Action::Nothing,
{
}

/// Every plain character typed in a text-entry mode is taken as input.
pub proof fn lemma_text_modes_take_plain_chars(mode: AppMode, c: char)
    ensures
        mode == AppMode::Search ==> key_action(mode, KeyEvent { code: KeyCode::Char(c), ctrl: false })
            == Action::SearchInput(c),
        (mode == AppMode::Add || mode == AppMode::Edit) ==> key_action(
            mode,
            KeyEvent { code: KeyCode::Char(c), ctrl: false },
        ) == Action::FormInput(c),
        mode == AppMode::ImportExportInput ==> key_action(
            mode,
            KeyEvent { code: KeyCode::Char(c), ctrl: false },
        ) == Action::PathInput(c),
{
}

/// The vertical keys move through lists: in the bookmark list, the help screen and the
/// history, `k` and Up move up and `j` and Down move down (with or without Ctrl); in the
/// search bar Up / Ctrl+P and Down / Ctrl+N move through the results.
pub proof fn law_vertical_keys(mode: AppMode, ctrl: bool)
    ensures
        mode == AppMode::Normal || mode == AppMode::Help || mode == AppMode::History ==> {
            &&& key_action(mode, KeyEvent { code: KeyCode::Char('k'), ctrl }) == Action::MoveUp
            &&& key_action(mode, KeyEvent { code: KeyCode::Up, ctrl }) == Action::MoveUp
            &&& key_action(mode, KeyEvent { code: KeyCode::Char('j'), ctrl }) == Action::MoveDown
            &&& key_action(mode, KeyEvent { code: KeyCode::Down, ctrl }) == Action::MoveDown
        },
        mode == AppMode::Search ==> {
            &&& key_action(mode, KeyEvent { code: KeyCode::Up, ctrl }) == Action::SearchNavigateUp
            &&& key_action(mode, KeyEvent { code: KeyCode::Down, ctrl }) == Action::SearchNavigateDown
            &&& key_action(mode, KeyEvent { code: KeyCode::Char('p'), ctrl: true })
                == Action::SearchNavigateUp
            &&& key_action(mode, KeyEvent { code: KeyCode::Char('n'), ctrl: true })
                == Action::SearchNavigateDown
        },
{
}

} // verus!
