use edbookmark::keybinding::AppMode;
use edbookmark::ui::captions::{
    cursor_column, delete_prompt_name, history_delete_prompt, mode_hints, mode_label,
    path_input_title, position_text,
};

#[test]
fn mode_names_and_hints() {
    assert_eq!(mode_label(AppMode::ImportExportInput), "PATH INPUT");
    assert_eq!(mode_label(AppMode::HistoryExportSelect), "EXPORT HISTORY");
    assert_eq!(mode_hints(AppMode::DeleteConfirm), "[y]Delete [n]Cancel");
    assert_eq!(mode_hints(AppMode::Edit), "[Ctrl+S]Save [Esc]Cancel [Tab]Next");
}

#[test]
fn path_input_titles() {
    assert_eq!(path_input_title(Some('2')), "Import from HTML");
    assert_eq!(path_input_title(Some('7')), "Export to XLSX");
    assert_eq!(path_input_title(Some('4')), "File Path");
    assert_eq!(path_input_title(None), "File Path");
}

#[test]
fn delete_prompts() {
    assert_eq!(delete_prompt_name(&vec!["Docs".to_string()]), "\"Docs\"");
    assert_eq!(delete_prompt_name(&vec!["a".to_string(), "b".to_string()]), "2 bookmarks");
    assert_eq!(history_delete_prompt(1), "Delete 1 history entry?");
    assert_eq!(history_delete_prompt(3), "Delete 3 history entries?");
}

#[test]
fn list_position() {
    assert_eq!(position_text(5, 0), "1/5");
    assert_eq!(position_text(0, 0), "0/0");
}

#[test]
fn cursor_columns_count_characters() {
    assert_eq!(cursor_column("héllo", 3), 2);
    assert_eq!(cursor_column("héllo", 6), 5);
    assert_eq!(cursor_column("abc", 9), 3);
}
