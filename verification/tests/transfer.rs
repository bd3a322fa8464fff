use edbookmark::bookmark::{Bookmark, BookmarkStore};
use edbookmark::history::{
    before_import_note, before_restore_note, chromium_import_note, export_note, history_sheet_header,
    history_sheet_row, new_snapshot_entry, new_snapshot_entry_now, snapshot_file_name, time_cell_text, HistoryAction, HistoryEntry, HistoryIndex, MAX_HISTORY_ENTRIES,
};
use edbookmark::import_export::{
    bookmark_export_format, bookmark_sheet_header, bookmark_sheet_row, detect_file_format, extract_chrome_bookmarks, history_export_format,
    import_chrome_roots, import_entry, import_from_browser, import_xlsx_rows, is_xlsx_path,
    BrowserSource, ChromeNode, ExportFormat, FileFormat,
};
use edbookmark::netscape::{export_html, import_html_bookmarks};

fn empty_store() -> BookmarkStore {
    BookmarkStore::default()
}

fn mark(id: &str, name: &str, url: &str, folder: &str) -> Bookmark {
    Bookmark {
        id: id.to_string(),
        name: name.to_string(),
        url: url.to_string(),
        folder: folder.to_string(),
        created_at: 0,
        updated_at: 0,
    }
}

fn url_node(name: &str, url: &str) -> ChromeNode {
    ChromeNode::Url { name: Some(name.to_string()), url: Some(url.to_string()) }
}

#[test]
fn import_skips_known_and_empty_urls() {
    let mut s = empty_store();
    assert!(import_entry(&mut s, "A".to_string(), "https://a".to_string(), "F".to_string()));
    assert!(!import_entry(&mut s, "A2".to_string(), "https://a".to_string(), "G".to_string()));
    assert!(!import_entry(&mut s, "E".to_string(), "".to_string(), "G".to_string()));
    assert_eq!(s.bookmarks.len(), 1);
    assert_eq!(s.bookmarks[0].name, "A");
}

#[test]
fn chrome_tree_uses_folder_names() {
    let mut s = empty_store();
    let bar = ChromeNode::Folder {
        name: Some("Bookmarks bar".to_string()),
        children: Some(vec![
            url_node("A", "https://a"),
            ChromeNode::Folder {
                name: Some("Sub".to_string()),
                children: Some(vec![url_node("B", "https://b"), ChromeNode::Other]),
            },
            ChromeNode::Folder { name: None, children: Some(vec![url_node("C", "https://c")]) },
        ]),
    };
    let other = ChromeNode::Folder { name: Some("Other".to_string()), children: None };
    let n = import_chrome_roots(&vec![bar, other], &mut s);
    assert_eq!(n, 3);
    assert_eq!(s.bookmarks[0].folder, "Bookmarks bar");
    assert_eq!(s.bookmarks[1].folder, "Sub");
    assert_eq!(s.bookmarks[2].folder, "Bookmarks bar");
    let again = import_chrome_roots(&vec![url_node("A", "https://a")], &mut s);
    assert_eq!(again, 0);
    let loose = extract_chrome_bookmarks(&url_node("Z", "https://z"), "Imported", &mut s);
    assert_eq!(loose, 1);
    assert_eq!(s.bookmarks[3].folder, "Imported");
}

#[test]
fn spreadsheet_rows_with_header() {
    let mut s = empty_store();
    let rows = vec![
        vec!["Name".to_string(), "URL".to_string(), "Folder".to_string()],
        vec!["Go".to_string(), "https://go.dev".to_string(), "".to_string()],
        vec!["".to_string(), "https://x".to_string(), "Misc".to_string()],
        vec!["NoUrl".to_string(), "  ".to_string()],
        vec!["Dup".to_string(), "https://go.dev".to_string()],
    ];
    let n = import_xlsx_rows(&rows, &mut s);
    assert_eq!(n, 2);
    assert_eq!(s.bookmarks[0].name, "Go");
    assert_eq!(s.bookmarks[0].folder, "Imported");
    assert_eq!(s.bookmarks[1].name, "https://x");
    assert_eq!(s.bookmarks[1].folder, "Misc");
}

#[test]
fn spreadsheet_first_row_is_always_the_header() {
    let mut s = empty_store();
    let rows = vec![vec!["First".to_string(), "https://1".to_string()]];
    assert_eq!(import_xlsx_rows(&rows, &mut s), 0);
    assert!(s.bookmarks.is_empty());
    let rows = vec![
        vec!["Label".to_string(), "Link".to_string(), "Folder".to_string()],
        vec!["A".to_string(), "https://a.io".to_string(), "Dev".to_string()],
    ];
    assert_eq!(import_xlsx_rows(&rows, &mut s), 1);
    assert_eq!(s.bookmarks.len(), 1);
    assert_eq!(s.bookmarks[0].name, "A");
    assert_eq!(s.bookmarks[0].url, "https://a.io");
    assert_eq!(s.bookmarks[0].folder, "Dev");
    let none: Vec<Vec<String>> = Vec::new();
    assert_eq!(import_xlsx_rows(&none, &mut s), 0);
}

#[test]
fn html_import_reads_links_and_folders() {
    let html = "<!DOCTYPE NETSCAPE-Bookmark-file-1>\n<DL><p>\n  <DT><H3 ADD_DATE=\"1\">Dev</H3>\n  <DL><p>\n    <DT><A HREF=\"https://r\" ADD_DATE=\"1\">Rust</A>\r\n  </DL><p>\n<DT><A HREF=\"https://s\">Again</A>\n<DT><A HREF=\"https://r\">Twice</A>\n";
    let mut s = empty_store();
    assert_eq!(import_html_bookmarks(html, &mut s), 2);
    assert_eq!(s.bookmarks[0].url, "https://r");
    assert_eq!(s.bookmarks[0].name, "Rust");
    assert_eq!(s.bookmarks[0].folder, "Dev");
    assert_eq!(s.bookmarks[1].url, "https://s");
    assert_eq!(s.bookmarks[1].name, "Again");
    assert_eq!(s.bookmarks[1].folder, "Dev");
    let plain = "<DT><A HREF=\"https://p\">Plain</A>\n";
    assert_eq!(import_html_bookmarks(plain, &mut s), 1);
    assert_eq!(s.bookmarks[2].name, "Plain");
    assert_eq!(s.bookmarks[2].url, "https://p");
    assert_eq!(s.bookmarks[2].folder, "Imported");
}

#[test]
fn html_import_firefox_link() {
    let html = "<DT><A HREF=\"https://a.com\" ADD_DATE=\"1\">A</A>\n";
    let mut s = empty_store();
    assert_eq!(import_html_bookmarks(html, &mut s), 1);
    assert_eq!(s.bookmarks[0].url, "https://a.com");
    assert_eq!(s.bookmarks[0].name, "A");
    assert_eq!(s.bookmarks[0].folder, "Imported");
}

#[test]
fn html_import_folder_is_heading_text() {
    let html = "<DT><H3>Dev</H3>\n<DT><A HREF=\"https://a.com\">A</A>\n";
    let mut s = empty_store();
    assert_eq!(import_html_bookmarks(html, &mut s), 1);
    assert_eq!(s.bookmarks[0].name, "A");
    assert_eq!(s.bookmarks[0].url, "https://a.com");
    assert_eq!(s.bookmarks[0].folder, "Dev");
}

#[test]
fn html_import_skips_unfinished_links() {
    let html = "<DT><A HREF=\"https://d\n<DT><A HREF=\"https://e\"\n<DT><A NAME=\"x\">x</A>\n";
    let mut s = empty_store();
    assert_eq!(import_html_bookmarks(html, &mut s), 0);
    assert!(s.bookmarks.is_empty());
    let open = "<DT><A HREF=\"https://f\">F\n";
    assert_eq!(import_html_bookmarks(open, &mut s), 1);
    assert_eq!(s.bookmarks[0].name, "F");
}

#[test]
fn html_export_groups_by_folder() {
    let s = BookmarkStore {
        version: "1.0".to_string(),
        bookmarks: vec![
            mark("1", "A", "https://a", "X"),
            mark("2", "B", "https://b", "Y"),
            mark("3", "C", "https://c", "X"),
        ],
    };
    let html = export_html(&s);
    let expected = "<!DOCTYPE NETSCAPE-Bookmark-file-1>\n<META HTTP-EQUIV=\"Content-Type\" CONTENT=\"text/html; charset=UTF-8\">\n<TITLE>Bookmarks</TITLE>\n<H1>Bookmarks</H1>\n<DL><p>\n    <DT><H3>X</H3>\n    <DL><p>\n        <DT><A HREF=\"https://a\">A</A>\n        <DT><A HREF=\"https://c\">C</A>\n    </DL><p>\n    <DT><H3>Y</H3>\n    <DL><p>\n        <DT><A HREF=\"https://b\">B</A>\n    </DL><p>\n</DL><p>\n";
    assert_eq!(html, expected);
    let mut back = empty_store();
    assert_eq!(import_html_bookmarks(&html, &mut back), 3);
    assert_eq!(back.bookmarks[0].url, "https://a");
    assert_eq!(back.bookmarks[1].url, "https://c");
    assert_eq!(back.bookmarks[2].name, "B");
    assert_eq!(back.bookmarks[0].folder, "X");
    assert_eq!(back.bookmarks[2].folder, "Y");
}

#[test]
fn file_kinds() {
    assert_eq!(detect_file_format("<!DOCTYPE NETSCAPE-Bookmark-file-1>"), Ok(FileFormat::NetscapeHtml));
    assert_eq!(detect_file_format("x\n<DT><A HREF=\"u\">n</A>"), Ok(FileFormat::NetscapeHtml));
    assert_eq!(detect_file_format("{\"roots\": {}}"), Ok(FileFormat::ChromiumJson));
    assert_eq!(
        detect_file_format("hello"),
        Err("Unknown file format. Supported: Netscape HTML, Chromium JSON, XLSX".to_string())
    );
    assert!(is_xlsx_path("/tmp/Book.XLSX"));
    assert!(!is_xlsx_path("/tmp/book.xls"));
}

#[test]
fn export_format_names() {
    assert_eq!(bookmark_export_format("HTML"), Ok(ExportFormat::Html));
    assert_eq!(bookmark_export_format("csv"), Err("Unknown format: csv. Use: json, html, xlsx".to_string()));
    assert_eq!(history_export_format(0, "json"), Err("No history entries to export".to_string()));
    assert_eq!(history_export_format(2, "xlsx"), Ok(ExportFormat::Xlsx));
    assert_eq!(history_export_format(2, "JSON"), Err("Unknown format: JSON. Use: json, html, xlsx".to_string()));
}

#[test]
fn browser_names() {
    assert_eq!(import_from_browser("Chrome"), Ok(BrowserSource::Chromium));
    assert_eq!(import_from_browser("chromium"), Ok(BrowserSource::Chromium));
    assert_eq!(
        import_from_browser("firefox"),
        Err("Firefox import: export bookmarks to HTML first, then use --import-file".to_string())
    );
    assert_eq!(import_from_browser("Opera"), Err("Unknown browser: Opera. Use: chromium, firefox".to_string()));
}

fn entry(id: &str) -> HistoryEntry {
    HistoryEntry {
        id: id.to_string(),
        timestamp: 0,
        action: HistoryAction::Export,
        description: format!("entry {}", id),
        snapshot_file: format!("{}_export.snapshot.json", id),
        bookmark_count: 1,
    }
}

#[test]
fn history_snapshot_entry() {
    let e = new_snapshot_entry(0, HistoryAction::Import, "Before import from a".to_string(), 4).unwrap();
    assert_eq!(e.id, "19700101_000000");
    assert_eq!(e.snapshot_file, "19700101_000000_import.snapshot.json");
    assert_eq!(e.bookmark_count, 4);
    assert_eq!(snapshot_file_name("x", HistoryAction::Restore), "x_restore.snapshot.json");
}

#[test]
fn history_keeps_the_newest_entries() {
    let mut idx = HistoryIndex::default();
    for i in 0..MAX_HISTORY_ENTRIES {
        let dropped = idx.add_entry(entry(&format!("{:03}", i)));
        assert!(dropped.is_empty());
    }
    let dropped = idx.add_entry(entry("new"));
    assert_eq!(idx.entries.len(), MAX_HISTORY_ENTRIES);
    assert_eq!(idx.entries[0].id, "new");
    assert_eq!(dropped, vec!["000_export.snapshot.json".to_string()]);
}

#[test]
fn history_removal_and_lookup() {
    let mut idx = HistoryIndex::default();
    idx.add_entry(entry("a"));
    idx.add_entry(entry("b"));
    idx.add_entry(entry("c"));
    assert_eq!(idx.find_entry("b").unwrap().description, "entry b");
    let removed = idx.remove_entries(&["a".to_string(), "c".to_string()]);
    assert_eq!(removed, vec!["c_export.snapshot.json".to_string(), "a_export.snapshot.json".to_string()]);
    assert_eq!(idx.entries.len(), 1);
    assert!(idx.find_entry("a").is_none());
    assert_eq!(idx.restore_target("b").unwrap().id, "b");
    match idx.restore_target("zz") {
        Err(m) => assert_eq!(m, "History entry 'zz' not found"),
        Ok(_) => panic!("expected error"),
    }
}

#[test]
fn history_html_listing() {
    let mut idx = HistoryIndex::default();
    idx.add_entry(entry("a"));
    let html = idx.to_html().unwrap();
    assert!(html.starts_with("<!DOCTYPE html>\n<html><head>\n"));
    assert!(html.contains("<tr><td>1</td><td>1970-01-01 00:00:00</td><td>Export</td><td>entry a</td><td>1</td></tr>\n"));
    assert!(html.ends_with("</table>\n</body></html>"));
}

#[test]
fn snapshot_notes() {
    assert_eq!(before_import_note("/x.html"), "Before import from /x.html");
    assert_eq!(export_note("bookmarks_1.json"), "Export to bookmarks_1.json");
    assert_eq!(chromium_import_note(7), "Import 7 from Chromium");
    assert_eq!(before_restore_note("Export to a"), "Before restore to: Export to a");
}

#[test]
fn spreadsheet_cells_of_a_bookmark() {
    assert_eq!(bookmark_sheet_header(), vec!["Name", "URL", "Folder", "Created At", "Updated At"]);
    let mut b = mark("1", "Rust", "https://rust-lang.org", "Dev");
    b.created_at = 86_400_000_000;
    b.updated_at = 1_700_000_000_123_456;
    assert_eq!(
        bookmark_sheet_row(&b),
        vec!["Rust", "https://rust-lang.org", "Dev", "1970-01-02 00:00:00", "2023-11-14 22:13:20"]
    );
    b.updated_at = i64::MAX;
    assert_eq!(bookmark_sheet_row(&b)[4], "");
}

#[test]
fn spreadsheet_cells_of_a_history_entry() {
    assert_eq!(history_sheet_header(), vec!["#", "Date", "Type", "Description", "Bookmarks"]);
    let mut e = entry("20240101_000000");
    e.action = HistoryAction::Restore;
    assert_eq!(history_sheet_row(&e), vec!["1970-01-01 00:00:00", "Restore", "entry 20240101_000000"]);
    assert_eq!(time_cell_text(0), "1970-01-01 00:00:00");
    assert_eq!(time_cell_text(i64::MIN), "");
}

#[test]
fn snapshot_entry_taken_now() {
    let e = new_snapshot_entry_now(HistoryAction::Import, "note".to_string(), 7).unwrap();
    assert_eq!(e.id.len(), 15);
    assert_eq!(e.action, HistoryAction::Import);
    assert_eq!(e.description, "note");
    assert_eq!(e.bookmark_count, 7);
    assert_eq!(e.snapshot_file, format!("{}_import.snapshot.json", e.id));
    assert!(e.timestamp > 1_600_000_000_000_000);
}

#[test]
fn html_export_reads_back_marked_up_texts() {
    let s = BookmarkStore {
        version: "1.0".to_string(),
        bookmarks: vec![
            mark("1", "a < b > \"c\"", "https://x.io/?q=<1>", "News > Tech"),
            mark("2", "R&D </B>", "https://y.io", "News > Tech"),
        ],
    };
    let html = export_html(&s);
    let mut back = empty_store();
    assert_eq!(import_html_bookmarks(&html, &mut back), 2);
    assert_eq!(back.bookmarks[0].name, "a < b > \"c\"");
    assert_eq!(back.bookmarks[0].url, "https://x.io/?q=<1>");
    assert_eq!(back.bookmarks[0].folder, "News > Tech");
    assert_eq!(back.bookmarks[1].name, "R&D </B>");
    assert_eq!(back.bookmarks[1].folder, "News > Tech");
}

#[test]
fn imported_bookmarks_are_fresh() {
    let mut s = empty_store();
    s.bookmarks.push(mark("old", "Old", "https://old", "X"));
    assert!(import_entry(&mut s, "A".to_string(), "https://a".to_string(), "F".to_string()));
    let html = "<DT><A HREF=\"https://b\">B</A>\n<DT><A HREF=\"https://c\">C</A>\n";
    assert_eq!(import_html_bookmarks(html, &mut s), 2);
    assert_eq!(s.bookmarks[0].id, "old");
    for b in &s.bookmarks[1..] {
        assert_eq!(b.id.len(), 36);
        for (i, c) in b.id.chars().enumerate() {
            if i == 8 || i == 13 || i == 18 || i == 23 {
                assert_eq!(c, '-');
            } else {
                assert!(c.is_ascii_digit() || ('a'..='f').contains(&c));
            }
        }
        assert_eq!(b.created_at, b.updated_at);
    }
    assert_ne!(s.bookmarks[1].id, s.bookmarks[2].id);
}
