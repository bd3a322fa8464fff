use edbookmark::bookmark::{Bookmark, BookmarkStore};
use edbookmark::import_export::ExportFormat;
use edbookmark::keybinding::{handle_key, Action, AppMode, FormField, KeyCode, KeyEvent};
use edbookmark::session::{stamped_file_name, stamped_file_name_now, Effect, KeyContext, Session};

fn mark(id: &str, name: &str, url: &str, folder: &str) -> Bookmark {
    Bookmark {
        id: id.to_string(),
        name: name.to_string(),
        url: url.to_string(),
        folder: folder.to_string(),
        created_at: 0,
        updated_at: 0,
    }
}

fn store_of(bs: Vec<Bookmark>) -> BookmarkStore {
    BookmarkStore { version: "1.0".to_string(), bookmarks: bs }
}

fn ctx(filtered_len: usize, current: Option<Bookmark>) -> KeyContext {
    KeyContext {
        filtered_len,
        current,
        history_len: 0,
        history_current: None,
        terminal_height: 40,
        home: "/home/u".to_string(),
        import_dir: "/data/imports/".to_string(),
    }
}

fn history_ctx(history_len: usize, id: Option<&str>) -> KeyContext {
    KeyContext {
        filtered_len: 0,
        current: None,
        history_len,
        history_current: id.map(|s| s.to_string()),
        terminal_height: 40,
        home: "/home/u".to_string(),
        import_dir: "/data/imports/".to_string(),
    }
}

fn press(s: &mut Session, a: Action, c: &KeyContext, store: &mut BookmarkStore) -> Effect {
    s.apply(a, c, store)
}

#[test]
fn new_session_starts_in_normal_mode() {
    let s = Session::new();
    assert_eq!(s.mode, AppMode::Normal);
    assert_eq!(s.search_query, "");
    assert_eq!(s.selected_index, 0);
    assert!(s.form_data.is_none());
}

#[test]
fn navigation_stays_inside_the_list() {
    let mut s = Session::new();
    let mut store = store_of(vec![]);
    let c = ctx(3, Some(mark("1", "a", "u", "f")));
    press(&mut s, Action::MoveDown, &c, &mut store);
    assert_eq!(s.selected_index, 1);
    press(&mut s, Action::GoBottom, &c, &mut store);
    assert_eq!(s.selected_index, 2);
    press(&mut s, Action::MoveDown, &c, &mut store);
    assert_eq!(s.selected_index, 2);
    press(&mut s, Action::GoTop, &c, &mut store);
    assert_eq!(s.selected_index, 0);
    press(&mut s, Action::MoveUp, &c, &mut store);
    assert_eq!(s.selected_index, 0);
}

#[test]
fn help_scroll_stops_at_its_limit() {
    let mut s = Session::new();
    let mut store = store_of(vec![]);
    let c = ctx(0, None);
    press(&mut s, Action::ShowHelp, &c, &mut store);
    assert_eq!(s.mode, AppMode::Help);
    press(&mut s, Action::GoBottom, &c, &mut store);
    assert_eq!(s.help_scroll, 21);
    press(&mut s, Action::MoveDown, &c, &mut store);
    assert_eq!(s.help_scroll, 21);
    press(&mut s, Action::MoveUp, &c, &mut store);
    assert_eq!(s.help_scroll, 20);
    press(&mut s, Action::Cancel, &c, &mut store);
    assert_eq!(s.help_scroll, 0);
    assert_eq!(s.mode, AppMode::Normal);
}

#[test]
fn search_editing_with_cursor() {
    let mut s = Session::new();
    let mut store = store_of(vec![]);
    let c = ctx(0, None);
    press(&mut s, Action::EnterSearch, &c, &mut store);
    assert_eq!(s.mode, AppMode::Search);
    press(&mut s, Action::SearchInput('a'), &c, &mut store);
    press(&mut s, Action::SearchInput('b'), &c, &mut store);
    press(&mut s, Action::SearchCursorLeft, &c, &mut store);
    press(&mut s, Action::SearchInput('é'), &c, &mut store);
    assert_eq!(s.search_query, "aéb");
    assert_eq!(s.search_cursor, 3);
    press(&mut s, Action::SearchCursorEnd, &c, &mut store);
    assert_eq!(s.search_cursor, 4);
    press(&mut s, Action::SearchConfirm, &c, &mut store);
    assert_eq!(s.mode, AppMode::Normal);
    assert_eq!(s.search_query, "aéb");
    press(&mut s, Action::Cancel, &c, &mut store);
    assert_eq!(s.search_query, "");
    assert_eq!(s.search_cursor, 0);
}

#[test]
fn confirmed_delete_removes_highlighted_bookmark() {
    let mut s = Session::new();
    let mut store = store_of(vec![
        mark("1", "One", "https://1", "A"),
        mark("2", "Two", "https://2", "A"),
        mark("3", "Three", "https://3", "B"),
    ]);
    s.selected_index = 1;
    let c = ctx(3, Some(store.bookmarks[1].clone()));
    press(&mut s, Action::EnterDeleteConfirm, &c, &mut store);
    assert_eq!(s.mode, AppMode::DeleteConfirm);
    let cur = store.bookmarks[1].clone();
    assert_eq!(s.delete_names(&store, Some(&cur)), vec!["Two".to_string()]);
    let e = press(&mut s, Action::ConfirmDelete, &c, &mut store);
    assert!(matches!(e, Effect::SaveStore));
    assert_eq!(store.bookmarks.len(), 2);
    assert_eq!(store.bookmarks[0].id, "1");
    assert_eq!(store.bookmarks[1].id, "3");
    assert_eq!(s.status_message, "Deleted 1 bookmark(s)");
    assert_eq!(s.message_timer, 20);
    assert_eq!(s.mode, AppMode::Normal);
    assert_eq!(s.selected_index, 0);
}

#[test]
fn bulk_delete_uses_selection() {
    let mut s = Session::new();
    let mut store = store_of(vec![
        mark("1", "One", "https://1", "A"),
        mark("2", "Two", "https://2", "A"),
        mark("3", "Three", "https://3", "B"),
    ]);
    let c1 = ctx(3, Some(store.bookmarks[0].clone()));
    let c3 = ctx(3, Some(store.bookmarks[2].clone()));
    press(&mut s, Action::BulkDelete, &c1, &mut store);
    assert_eq!(s.mode, AppMode::Normal);
    press(&mut s, Action::ToggleSelect, &c1, &mut store);
    press(&mut s, Action::ToggleSelect, &c3, &mut store);
    assert_eq!(s.multi_selected, vec!["1".to_string(), "3".to_string()]);
    press(&mut s, Action::BulkDelete, &c1, &mut store);
    assert_eq!(s.mode, AppMode::DeleteConfirm);
    assert_eq!(s.delete_names(&store, None), vec!["One".to_string(), "Three".to_string()]);
    press(&mut s, Action::ConfirmDelete, &c1, &mut store);
    assert_eq!(store.bookmarks.len(), 1);
    assert_eq!(store.bookmarks[0].id, "2");
    assert!(s.multi_selected.is_empty());
    assert_eq!(s.status_message, "Deleted 2 bookmark(s)");
}

#[test]
fn toggling_twice_clears_the_selection() {
    let mut s = Session::new();
    let mut store = store_of(vec![mark("1", "One", "https://1", "A")]);
    let c = ctx(1, Some(store.bookmarks[0].clone()));
    press(&mut s, Action::ToggleSelect, &c, &mut store);
    assert_eq!(s.multi_selected.len(), 1);
    press(&mut s, Action::ToggleSelect, &c, &mut store);
    assert!(s.multi_selected.is_empty());
}

#[test]
fn adding_through_the_form() {
    let mut s = Session::new();
    let mut store = store_of(vec![]);
    let c = ctx(0, None);
    press(&mut s, Action::EnterAdd, &c, &mut store);
    assert_eq!(s.mode, AppMode::Add);
    for ch in "Go".chars() {
        press(&mut s, Action::FormInput(ch), &c, &mut store);
    }
    press(&mut s, Action::FormEnter, &c, &mut store);
    assert_eq!(s.form_data.as_ref().unwrap().active_field, FormField::Url);
    for ch in "https://go.dev".chars() {
        press(&mut s, Action::FormInput(ch), &c, &mut store);
    }
    press(&mut s, Action::FormNextField, &c, &mut store);
    press(&mut s, Action::FormInput(' '), &c, &mut store);
    let e = press(&mut s, Action::FormEnter, &c, &mut store);
    assert!(matches!(e, Effect::SaveStore));
    assert_eq!(store.bookmarks.len(), 1);
    assert_eq!(store.bookmarks[0].name, "Go");
    assert_eq!(store.bookmarks[0].url, "https://go.dev");
    assert_eq!(store.bookmarks[0].folder, "Uncategorized");
    assert_eq!(store.bookmarks[0].id.len(), 36);
    assert_eq!(s.status_message, "Added: Go");
    assert_eq!(s.mode, AppMode::Normal);
    assert!(s.form_data.is_none());
}

#[test]
fn saving_without_url_is_refused() {
    let mut s = Session::new();
    let mut store = store_of(vec![]);
    let c = ctx(0, None);
    press(&mut s, Action::EnterAdd, &c, &mut store);
    press(&mut s, Action::FormInput('x'), &c, &mut store);
    let e = press(&mut s, Action::FormSave, &c, &mut store);
    assert!(matches!(e, Effect::Nothing));
    assert_eq!(s.status_message, "Name and URL are required!");
    assert_eq!(s.message_timer, 20);
    assert_eq!(s.mode, AppMode::Add);
    assert!(s.form_data.is_some());
    assert!(store.bookmarks.is_empty());
}

#[test]
fn editing_updates_the_bookmark() {
    let mut s = Session::new();
    let mut store = store_of(vec![mark("7", "Docs", "https://d", "Dev")]);
    let c = ctx(1, Some(store.bookmarks[0].clone()));
    press(&mut s, Action::EnterEdit, &c, &mut store);
    assert_eq!(s.mode, AppMode::Edit);
    assert_eq!(s.editing_id.as_deref(), Some("7"));
    press(&mut s, Action::FormInput('!'), &c, &mut store);
    press(&mut s, Action::FormSave, &c, &mut store);
    assert_eq!(store.bookmarks.len(), 1);
    assert_eq!(store.bookmarks[0].name, "Docs!");
    assert_eq!(store.bookmarks[0].id, "7");
    assert_eq!(store.bookmarks[0].folder, "Dev");
    assert_eq!(s.status_message, "Updated: Docs!");
    assert!(s.editing_id.is_none());
}

#[test]
fn cancelling_the_form_keeps_the_store() {
    let mut s = Session::new();
    let mut store = store_of(vec![]);
    let c = ctx(0, None);
    press(&mut s, Action::EnterAdd, &c, &mut store);
    press(&mut s, Action::FormInput('x'), &c, &mut store);
    press(&mut s, Action::FormCancel, &c, &mut store);
    assert_eq!(s.mode, AppMode::Normal);
    assert!(s.form_data.is_none());
    assert!(store.bookmarks.is_empty());
}

#[test]
fn open_and_yank_and_quit_ask_for_outside_work() {
    let mut s = Session::new();
    let mut store = store_of(vec![mark("1", "One", "https://1", "A")]);
    let c = ctx(1, Some(store.bookmarks[0].clone()));
    match press(&mut s, Action::Open, &c, &mut store) {
        Effect::Open(u) => assert_eq!(u, "https://1"),
        _ => panic!("expected Open"),
    }
    match press(&mut s, Action::YankUrl, &c, &mut store) {
        Effect::Yank(u) => assert_eq!(u, "https://1"),
        _ => panic!("expected Yank"),
    }
    assert!(matches!(press(&mut s, Action::Quit, &c, &mut store), Effect::Quit));
    let empty = ctx(0, None);
    assert!(matches!(press(&mut s, Action::Open, &empty, &mut store), Effect::Nothing));
    s.yank_done("https://1", Ok(()));
    assert_eq!(s.status_message, "Copied: https://1");
    assert_eq!(s.message_timer, 20);
    s.yank_done("https://1", Err("wl-copy not found".to_string()));
    assert_eq!(s.status_message, "Yank error: wl-copy not found");
    assert_eq!(s.message_timer, 30);
}

#[test]
fn path_input_confirms_expanded_path() {
    let mut s = Session::new();
    let mut store = store_of(vec![]);
    let c = ctx(0, None);
    press(&mut s, Action::EnterImportExport, &c, &mut store);
    assert_eq!(s.mode, AppMode::ImportExport);
    press(&mut s, Action::ImportExportSelect('2'), &c, &mut store);
    assert_eq!(s.mode, AppMode::ImportExportInput);
    assert_eq!(s.import_export_path, "/data/imports/");
    assert_eq!(s.import_export_cursor, 14);
    press(&mut s, Action::PathClear, &c, &mut store);
    for ch in " ~/b.html ".chars() {
        press(&mut s, Action::PathInput(ch), &c, &mut store);
    }
    match press(&mut s, Action::PathConfirm, &c, &mut store) {
        Effect::ImportFile(p) => assert_eq!(p, "/home/u/b.html"),
        _ => panic!("expected ImportFile"),
    }
    s.import_file_done(Ok(3));
    assert_eq!(s.status_message, "✓ Imported 3 bookmarks");
    assert_eq!(s.mode, AppMode::Normal);
    assert_eq!(s.import_export_path, "");
}

#[test]
fn empty_path_is_refused() {
    let mut s = Session::new();
    let mut store = store_of(vec![]);
    let c = ctx(0, None);
    press(&mut s, Action::EnterImportExport, &c, &mut store);
    press(&mut s, Action::ImportExportSelect('1'), &c, &mut store);
    press(&mut s, Action::PathClear, &c, &mut store);
    press(&mut s, Action::PathInput(' '), &c, &mut store);
    assert!(matches!(press(&mut s, Action::PathConfirm, &c, &mut store), Effect::Nothing));
    assert_eq!(s.import_export_error, "Path cannot be empty");
    press(&mut s, Action::PathInput('x'), &c, &mut store);
    assert_eq!(s.import_export_error, "");
}

#[test]
fn export_menu_choices() {
    let mut s = Session::new();
    let mut store = store_of(vec![]);
    let c = ctx(0, None);
    press(&mut s, Action::EnterImportExport, &c, &mut store);
    match press(&mut s, Action::ImportExportSelect('6'), &c, &mut store) {
        Effect::ExportBookmarks(f) => assert_eq!(f, ExportFormat::Html),
        _ => panic!("expected ExportBookmarks"),
    }
    s.export_direct_done("bookmarks_x.html", Ok(4));
    assert_eq!(s.status_message, "✓ Exported 4 bookmarks to bookmarks_x.html");
    assert_eq!(s.mode, AppMode::Normal);
    s.export_direct_done("f", Err("disk full".to_string()));
    assert_eq!(s.status_message, "✗ Export failed: disk full");
}

#[test]
fn export_to_typed_path() {
    let mut s = Session::new();
    let mut store = store_of(vec![]);
    let c = ctx(0, None);
    press(&mut s, Action::EnterImportExport, &c, &mut store);
    s.import_export_operation = Some('7');
    s.mode = AppMode::ImportExportInput;
    for ch in "out.xlsx".chars() {
        press(&mut s, Action::PathInput(ch), &c, &mut store);
    }
    match press(&mut s, Action::PathConfirm, &c, &mut store) {
        Effect::ExportFile(f, p) => {
            assert_eq!(f, ExportFormat::Xlsx);
            assert_eq!(p, "out.xlsx");
        },
        _ => panic!("expected ExportFile"),
    }
    s.export_file_done(ExportFormat::Xlsx, Ok(2));
    assert_eq!(s.status_message, "✓ Exported 2 bookmarks to XLSX");
    s.export_file_done(ExportFormat::Json, Err("Write error: denied".to_string()));
    assert_eq!(s.import_export_error, "Write error: denied");
}

#[test]
fn unknown_operation_is_reported() {
    let mut s = Session::new();
    let mut store = store_of(vec![]);
    let c = ctx(0, None);
    press(&mut s, Action::EnterImportExport, &c, &mut store);
    s.mode = AppMode::ImportExportInput;
    press(&mut s, Action::PathInput('a'), &c, &mut store);
    press(&mut s, Action::PathConfirm, &c, &mut store);
    assert_eq!(s.import_export_error, "Invalid operation");
}

#[test]
fn chromium_import_outcomes() {
    let mut s = Session::new();
    let mut store = store_of(vec![]);
    let c = ctx(0, None);
    press(&mut s, Action::EnterImportExport, &c, &mut store);
    assert!(matches!(press(&mut s, Action::ImportExportSelect('4'), &c, &mut store), Effect::ImportChromium));
    s.chromium_import_done(Err("Chromium bookmark file not found".to_string()));
    assert_eq!(s.mode, AppMode::ImportExportInput);
    assert_eq!(s.import_export_error, "Chromium bookmark file not found");
    press(&mut s, Action::PathCancel, &c, &mut store);
    assert_eq!(s.mode, AppMode::ImportExport);
    press(&mut s, Action::ImportExportSelect('4'), &c, &mut store);
    s.chromium_import_done(Ok(12));
    assert_eq!(s.status_message, "✓ Imported 12 bookmarks from Chromium");
    assert_eq!(s.message_timer, 30);
    assert_eq!(s.mode, AppMode::Normal);
}

#[test]
fn history_selection_and_deletion() {
    let mut s = Session::new();
    let mut store = store_of(vec![]);
    let c = history_ctx(2, Some("20240101_000000"));
    press(&mut s, Action::EnterHistory, &c, &mut store);
    assert_eq!(s.mode, AppMode::History);
    press(&mut s, Action::MoveDown, &c, &mut store);
    assert_eq!(s.history_selected, 1);
    press(&mut s, Action::HistoryToggleSelect, &c, &mut store);
    assert_eq!(s.history_multi_selected, vec!["20240101_000000".to_string()]);
    assert_eq!(s.history_delete_count(2), 1);
    press(&mut s, Action::HistoryBulkDelete, &c, &mut store);
    assert_eq!(s.mode, AppMode::HistoryDeleteConfirm);
    match press(&mut s, Action::HistoryConfirmDelete, &c, &mut store) {
        Effect::DeleteHistory(ids) => assert_eq!(ids, vec!["20240101_000000".to_string()]),
        _ => panic!("expected DeleteHistory"),
    }
    assert_eq!(s.mode, AppMode::History);
    s.history_delete_done(Ok(1));
    assert_eq!(s.status_message, "✓ Deleted 1 history entries");
    assert_eq!(s.message_timer, 20);
    assert!(s.history_multi_selected.is_empty());
    assert_eq!(s.history_selected, 0);
    s.history_delete_done(Err("Cannot write history index".to_string()));
    assert_eq!(s.status_message, "✗ Delete failed: Cannot write history index");
}

#[test]
fn history_restore_and_export() {
    let mut s = Session::new();
    let mut store = store_of(vec![]);
    let c = history_ctx(1, Some("20240101_000000"));
    press(&mut s, Action::EnterHistory, &c, &mut store);
    match press(&mut s, Action::HistoryRestore, &c, &mut store) {
        Effect::RestoreHistory(id) => assert_eq!(id, "20240101_000000"),
        _ => panic!("expected RestoreHistory"),
    }
    s.restore_done(Ok((5, "Before import from a.html".to_string())));
    assert_eq!(s.status_message, "✓ Restored: Before import from a.html (5 bookmarks)");
    assert_eq!(s.mode, AppMode::Normal);
    s.restore_done(Err("Snapshot file not found: x".to_string()));
    assert_eq!(s.status_message, "✗ Restore failed: Snapshot file not found: x");
    press(&mut s, Action::EnterHistory, &c, &mut store);
    press(&mut s, Action::HistoryExport, &c, &mut store);
    assert_eq!(s.mode, AppMode::HistoryExportSelect);
    match press(&mut s, Action::HistoryExportSelect('3'), &c, &mut store) {
        Effect::ExportHistory(f) => assert_eq!(f, ExportFormat::Xlsx),
        _ => panic!("expected ExportHistory"),
    }
    assert_eq!(s.mode, AppMode::History);
    s.history_export_done("history_export_x.xlsx", Ok(1));
    assert_eq!(s.status_message, "✓ Exported 1 entries to history_export_x.xlsx");
}

#[test]
fn history_export_without_entries() {
    let mut s = Session::new();
    let mut store = store_of(vec![]);
    let c = history_ctx(0, None);
    press(&mut s, Action::EnterHistory, &c, &mut store);
    press(&mut s, Action::HistoryExport, &c, &mut store);
    assert_eq!(s.mode, AppMode::History);
    assert_eq!(s.status_message, "No history to export");
    assert_eq!(s.history_delete_count(0), 0);
    assert!(matches!(press(&mut s, Action::HistoryConfirmDelete, &c, &mut store), Effect::Nothing));
    press(&mut s, Action::HistoryCancel, &c, &mut store);
    assert_eq!(s.mode, AppMode::Normal);
}

#[test]
fn message_timer_clears_status() {
    let mut s = Session::new();
    s.status_message = "hello".to_string();
    s.message_timer = 2;
    s.tick();
    assert_eq!(s.message_timer, 1);
    assert_eq!(s.status_message, "hello");
    s.tick();
    assert_eq!(s.message_timer, 0);
    assert_eq!(s.status_message, "");
    s.tick();
    assert_eq!(s.message_timer, 0);
}

#[test]
fn prepare_clamps_highlights() {
    let mut s = Session::new();
    s.selected_index = 5;
    s.history_selected = 4;
    s.prepare(3, 0);
    assert_eq!(s.selected_index, 2);
    assert_eq!(s.history_selected, 0);
    s.prepare(0, 2);
    assert_eq!(s.selected_index, 2);
}

#[test]
fn stamped_export_names() {
    assert_eq!(
        stamped_file_name("bookmarks_", 0, ExportFormat::Json),
        Some("bookmarks_19700101_000000.json".to_string())
    );
    assert_eq!(
        stamped_file_name("history_export_", 86_400_000_000, ExportFormat::Html),
        Some("history_export_19700102_000000.html".to_string())
    );
}

#[test]
fn keys_drive_the_session() {
    let mut s = Session::new();
    let mut store = store_of(vec![]);
    let c = ctx(0, None);
    let slash = KeyEvent { code: KeyCode::Char('/'), ctrl: false };
    let a = handle_key(&s.mode, slash);
    press(&mut s, a, &c, &mut store);
    assert_eq!(s.mode, AppMode::Search);
    let q = KeyEvent { code: KeyCode::Char('q'), ctrl: false };
    let a = handle_key(&s.mode, q);
    assert_eq!(a, Action::SearchInput('q'));
    press(&mut s, a, &c, &mut store);
    assert_eq!(s.search_query, "q");
    let esc = KeyEvent { code: KeyCode::Esc, ctrl: false };
    let a = handle_key(&s.mode, esc);
    press(&mut s, a, &c, &mut store);
    assert_eq!(s.mode, AppMode::Normal);
    assert_eq!(s.search_query, "");
}

#[test]
fn stamped_file_name_for_now() {
    let name = stamped_file_name_now("bookmarks_", ExportFormat::Xlsx).unwrap();
    assert!(name.starts_with("bookmarks_"));
    assert!(name.ends_with(".xlsx"));
    assert_eq!(name.len(), "bookmarks_".len() + 15 + ".xlsx".len());
    assert_eq!(&name[18..19], "_");
}
