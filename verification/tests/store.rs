use edbookmark::bookmark::{Bookmark, BookmarkStore};
use edbookmark::search::{split_words, SearchEngine};

fn mark(id: &str, name: &str, url: &str, folder: &str) -> Bookmark {
    Bookmark {
        id: id.to_string(),
        name: name.to_string(),
        url: url.to_string(),
        folder: folder.to_string(),
        created_at: 10,
        updated_at: 10,
    }
}

fn sample() -> BookmarkStore {
    BookmarkStore {
        version: "1.0".to_string(),
        bookmarks: vec![
            mark("a", "Panorama photos", "https://pano.example", "Travel"),
            mark("b", "Rust docs", "https://doc.rust-lang.org", "Dev"),
            mark("c", "Work mail", "https://mail.example", "Work"),
            mark("d", "Crates", "https://crates.io", "Dev"),
        ],
    }
}

#[test]
fn default_store_is_empty_version_one() {
    let s = BookmarkStore::default();
    assert_eq!(s.version, "1.0");
    assert!(s.bookmarks.is_empty());
}

#[test]
fn new_bookmark_has_fresh_uuid() {
    let b = Bookmark::new("n".to_string(), "u".to_string(), "f".to_string());
    assert_eq!(b.id.len(), 36);
    for (i, ch) in b.id.chars().enumerate() {
        if i == 8 || i == 13 || i == 18 || i == 23 {
            assert_eq!(ch, '-');
        } else {
            assert!(ch.is_ascii_hexdigit());
        }
    }
    assert_eq!(b.created_at, b.updated_at);
    let other = Bookmark::new("n".to_string(), "u".to_string(), "f".to_string());
    assert_ne!(b.id, other.id);
}

#[test]
fn searchable_text_joins_fields() {
    let b = mark("x", "Name", "https://u", "Folder");
    assert_eq!(b.searchable_text(), "Name https://u Folder");
}

#[test]
fn remove_and_remove_many() {
    let mut s = sample();
    s.remove("b");
    assert_eq!(s.bookmarks.len(), 3);
    assert!(s.find_by_id("b").is_none());
    s.remove_many(&["a".to_string(), "zzz".to_string(), "d".to_string()]);
    assert_eq!(s.bookmarks.len(), 1);
    assert_eq!(s.bookmarks[0].id, "c");
    assert_eq!(s.version, "1.0");
}

#[test]
fn update_changes_only_the_target() {
    let mut s = sample();
    s.update("c", "Mail".to_string(), "https://m".to_string(), "Home".to_string());
    let b = s.find_by_id("c").unwrap();
    assert_eq!(b.name, "Mail");
    assert_eq!(b.url, "https://m");
    assert_eq!(b.folder, "Home");
    assert_eq!(b.created_at, 10);
    assert_eq!(s.bookmarks[0].name, "Panorama photos");
    let before = s.bookmarks.len();
    s.update("nope", "x".to_string(), "y".to_string(), "z".to_string());
    assert_eq!(s.bookmarks.len(), before);
}

#[test]
fn folders_are_sorted_and_unique() {
    let s = sample();
    assert_eq!(s.folders(), vec!["Dev".to_string(), "Travel".to_string(), "Work".to_string()]);
}

#[test]
fn url_exists_matches_exactly() {
    let s = sample();
    assert!(s.url_exists("https://crates.io"));
    assert!(!s.url_exists("https://crates.io/"));
}

#[test]
fn add_appends_at_the_end() {
    let mut s = sample();
    s.add(mark("e", "E", "https://e", "X"));
    assert_eq!(s.bookmarks.len(), 5);
    assert_eq!(s.bookmarks[4].id, "e");
}

#[test]
fn words_are_split_on_white_space() {
    assert_eq!(split_words("  pano\trama \n x"), vec!["pano".to_string(), "rama".to_string(), "x".to_string()]);
    assert!(split_words("   ").is_empty());
}

#[test]
fn multi_word_search_needs_every_word() {
    let s = sample();
    let engine = SearchEngine::new();
    let r = engine.filter(&s.bookmarks, "pano rama");
    assert_eq!(r.len(), 1);
    assert_eq!(r[0].0, 0);
    assert_eq!(r[0].2.id, "a");
    assert!(r[0].1 > 0);
    let none = engine.filter(&s.bookmarks, "pano qqqzzz");
    assert!(none.is_empty());
}

#[test]
fn blank_query_lists_everything_in_order() {
    let s = sample();
    let engine = SearchEngine::new();
    for q in ["", "   "] {
        let r = engine.filter(&s.bookmarks, q);
        assert_eq!(r.len(), 4);
        for (k, e) in r.iter().enumerate() {
            assert_eq!(e.0, k);
            assert_eq!(e.1, 0);
        }
    }
}

#[test]
fn search_results_go_by_descending_score() {
    let s = sample();
    let engine = SearchEngine::new();
    let r = engine.filter(&s.bookmarks, "rs");
    assert!(r.len() >= 2);
    for w in r.windows(2) {
        assert!(w[0].1 > w[1].1 || (w[0].1 == w[1].1 && w[0].0 < w[1].0));
    }
}

#[test]
fn folder_filter() {
    let engine = SearchEngine::new();
    let folders = vec!["Work".to_string(), "Personal".to_string(), "Dev".to_string()];
    let all = engine.filter_folders(&folders, "");
    assert_eq!(all.len(), 3);
    assert_eq!(all[1], "Personal");
    let w = engine.filter_folders(&folders, "wrk");
    assert_eq!(w, vec![&"Work".to_string()]);
}
