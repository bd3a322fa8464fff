//! Importing bookmarks (Chromium JSON trees, spreadsheet rows) with URL
//! de-duplication, choosing formats, and the Netscape HTML export.
use vstd::prelude::*;
use crate::bookmark::{has_url, is_hyphenated_uuid, Bookmark, BookmarkStore};
use crate::history::{time_cell, time_cell_text};
use crate::text::{
    chars_of, contains_seq, ends_with, is_blank, lowercase, owned, push_all, starts_with,
    str_eq, to_lowercase,
};

verus! {

/// A bookmark as imported: (name, URL, folder).
pub type Entry = (Seq<char>, Seq<char>, Seq<char>);

/// The (name, URL, folder) of each bookmark.
pub open spec fn triples(bs: Seq<Bookmark>) -> Seq<Entry> {
    bs.map_values(|b: Bookmark| (b.name@, b.url@, b.folder@))
}

/// Some entry of `s` has URL `url`.
pub open spec fn has_url_entry(s: Seq<Entry>, url: Seq<char>) -> bool {
    exists|i: int| 0 <= i < s.len() && (#[trigger] s[i]).1 == url
}

/// Importing one entry: it is added when its URL is not empty and not yet present.
pub open spec fn import_step(s: Seq<Entry>, e: Entry) -> Seq<Entry> {
    if e.1.len() > 0 && !has_url_entry(s, e.1) {
        s.push(e)
    } else {
        s
    }
}

/// Importing entries one after the other.
pub open spec fn import_all(s: Seq<Entry>, es: Seq<Entry>) -> Seq<Entry>
    decreases es.len(),
{
    if es.len() == 0 {
        s
    } else {
        import_step(import_all(s, es.drop_last()), es.last())
    }
}

/// `new` is `old` with the entries `es` imported: old bookmarks stay as they are, and
/// the new ones carry the imported names, URLs and folders, each with a fresh
/// hyphenated UUID id and created and updated at the same instant.
pub open spec fn imported(old: Seq<Bookmark>, new: Seq<Bookmark>, es: Seq<Entry>) -> bool {
    &&& old.len() <= new.len()
    &&& new.take(old.len() as int) == old
    &&& triples(new) == import_all(triples(old), es)
    &&& forall|i: int| old.len() <= i < new.len() ==> fresh_bookmark(#[trigger] new[i])
}

/// A bookmark as `Bookmark::new` makes it: a hyphenated UUID id, created and updated
/// at the same instant.
pub open spec fn fresh_bookmark(b: Bookmark) -> bool {
    is_hyphenated_uuid(b.id@) && b.created_at == b.updated_at
}

pub proof fn lemma_has_url_triples(bs: Seq<Bookmark>, url: Seq<char>)
    ensures
        has_url(bs, url) == has_url_entry(triples(bs), url),
{
    if has_url(bs, url) {
        let i = choose|i: int| 0 <= i < bs.len() && (#[trigger] bs[i]).url@ == url;
        assert(triples(bs)[i].1 == url);
    }
    if has_url_entry(triples(bs), url) {
        let i = choose|i: int| 0 <= i < triples(bs).len() && (#[trigger] triples(bs)[i]).1 == url;
        assert(bs[i].url@ == url);
    }
}

/// Importing `a` then `b` is importing `a + b`.
pub proof fn lemma_import_all_concat(s: Seq<Entry>, a: Seq<Entry>, b: Seq<Entry>)
    ensures
        import_all(s, a + b) == import_all(import_all(s, a), b),
    decreases b.len(),
{
    if b.len() == 0 {
        assert(a + b =~= a);
    } else {
        assert((a + b).drop_last() =~= a + b.drop_last());
        assert((a + b).last() == b.last());
        lemma_import_all_concat(s, a, b.drop_last());
    }
}

pub proof fn lemma_imported_refl(bs: Seq<Bookmark>)
    ensures
        imported(bs, bs, Seq::empty()),
{
    assert(bs.take(bs.len() as int) =~= bs);
}

pub proof fn lemma_imported_trans(
    a: Seq<Bookmark>,
    b: Seq<Bookmark>,
    c: Seq<Bookmark>,
    e1: Seq<Entry>,
    e2: Seq<Entry>,
)
    requires
        imported(a, b, e1),
        imported(b, c, e2),
    ensures
        imported(a, c, e1 + e2),
{
    lemma_import_all_concat(triples(a), e1, e2);
    assert(c.take(a.len() as int) =~= c.take(b.len() as int).take(a.len() as int));
    assert forall|i: int| a.len() <= i < c.len() implies fresh_bookmark(#[trigger] c[i]) by {
        if i < b.len() {
            assert(c.take(b.len() as int)[i] == c[i]);
            assert(b[i] == c[i]);
        }
    }
}

/// Imports one bookmark unless its URL is empty or already present; returns whether
/// it was added.
pub fn import_entry(store: &mut BookmarkStore, name: String, url: String, folder: String) -> (added: bool)
    ensures
        imported(old(store).bookmarks@, final(store).bookmarks@, seq![(name@, url@, folder@)]),
        final(store).version == old(store).version,
        added == (final(store).bookmarks@.len() == old(store).bookmarks@.len() + 1),
        !added ==> final(store).bookmarks@ == old(store).bookmarks@,
{
    let ghost e: Entry = (name@, url@, folder@);
    let ghost olds = store.bookmarks@;
    proof {
        lemma_has_url_triples(olds, url@);
        assert(seq![e].drop_last() =~= Seq::<Entry>::empty());
        assert(olds.take(olds.len() as int) =~= olds);
    }
    assert(seq![e].last() == e);
    assert(import_all(triples(olds), Seq::<Entry>::empty()) == triples(olds));
    assert(import_all(triples(olds), seq![e]) == import_step(triples(olds), e));
    let url_len = crate::text::byte_len(url.as_str());
    if url_len == 0 || store.url_exists(url.as_str()) {
        proof {
            lemma_empty_text_len(url@);
        }
        return false;
    }
    proof {
        lemma_empty_text_len(url@);
    }
    let b = Bookmark::new(name, url, folder);
    store.add(b);
    proof {
        assert(store.bookmarks@.take(olds.len() as int) =~= olds);
        assert(triples(store.bookmarks@) =~= triples(olds).push(e));
    }
    true
}

proof fn lemma_empty_text_len(s: Seq<char>)
    ensures
        (s.len() == 0) == (crate::text::utf8_len(s) == 0),
{
    crate::text::lemma_utf8_len_ge_len(s);
    if s.len() == 0 {
        assert(crate::text::utf8_len(s) == 0);
    }
}

// ─── formats ─────────────────────────────────────────────────────────────

/// An export format.
#[derive(Debug, Clone, Copy, PartialEq, Eq, Structural)]
pub enum ExportFormat {
    Json,
    Html,
    Xlsx,
}

/// The error text for an unknown export format.
pub open spec fn unknown_format_message(format: Seq<char>) -> Seq<char> {
    "Unknown format: "@ + format + ". Use: json, html, xlsx"@
}

/// The export format that a lower-cased name designates.
pub open spec fn format_named(name: Seq<char>) -> Option<ExportFormat> {
    if name == "json"@ {
        Some(ExportFormat::Json)
    } else if name == "html"@ {
        Some(ExportFormat::Html)
    } else if name == "xlsx"@ {
        Some(ExportFormat::Xlsx)
    } else {
        None
    }
}

impl ExportFormat {
    /// The lower-case name of the format, which `format_named` reads back.
    pub fn name(&self) -> (r: &'static str)
        ensures
            format_named(r@) == Some(*self),
    {
        proof {
            reveal_strlit("json");
            reveal_strlit("html");
            reveal_strlit("xlsx");
            assert("html"@ != "json"@ && "xlsx"@ != "json"@ && "xlsx"@ != "html"@) by {
                assert("html"@[0] != "json"@[0]);
                assert("xlsx"@[0] != "json"@[0]);
                assert("xlsx"@[0] != "html"@[0]);
            }
        }
        match *self {
            ExportFormat::Json => "json",
            ExportFormat::Html => "html",
            ExportFormat::Xlsx => "xlsx",
        }
    }
}

fn unknown_format(format: &str) -> (r: String)
    ensures
        r@ == unknown_format_message(format@),
{
    let mut s = owned("Unknown format: ");
    push_all(&mut s, format);
    push_all(&mut s, ". Use: json, html, xlsx");
    s
}

fn format_of_name(name: &str) -> (r: Option<ExportFormat>)
    ensures
        r == format_named(name@),
{
    if str_eq(name, "json") {
        Some(ExportFormat::Json)
    } else if str_eq(name, "html") {
        Some(ExportFormat::Html)
    } else if str_eq(name, "xlsx") {
        Some(ExportFormat::Xlsx)
    } else {
        None
    }
}

/// The format of a bookmark export, named in any case.
pub fn bookmark_export_format(format: &str) -> (r: Result<ExportFormat, String>)
    ensures
        match format_named(lowercase(format@)) {
            Some(f) => r == Ok::<ExportFormat, String>(f),
            None => r matches Err(m) && m@ == unknown_format_message(format@),
        },
{
    let lower = to_lowercase(format);
    match format_of_name(lower.as_str()) {
        Some(f) => Ok(f),
        None => Err(unknown_format(format)),
    }
}

/// Whether a history export can go ahead: there must be entries, and the format name
/// must be exactly `json`, `html` or `xlsx`.
pub fn history_export_format(entry_count: usize, format: &str) -> (r: Result<ExportFormat, String>)
    ensures
        entry_count == 0 ==> (r matches Err(m) && m@ == "No history entries to export"@),
        entry_count > 0 ==> match format_named(format@) {
            Some(f) => r == Ok::<ExportFormat, String>(f),
            None => r matches Err(m) && m@ == unknown_format_message(format@),
        },
{
    if entry_count == 0 {
        return Err(owned("No history entries to export"));
    }
    match format_of_name(format) {
        Some(f) => Ok(f),
        None => Err(unknown_format(format)),
    }
}

/// Where a browser import reads from.
#[derive(Debug, Clone, Copy, PartialEq, Eq, Structural)]
pub enum BrowserSource {
    Chromium,
}

/// The message for a Firefox import request.
pub open spec fn firefox_message() -> Seq<char> {
    "Firefox import: export bookmarks to HTML first, then use --import-file"@
}

/// The message for an unknown browser name.
pub open spec fn unknown_browser_message(browser: Seq<char>) -> Seq<char> {
    "Unknown browser: "@ + browser + ". Use: chromium, firefox"@
}

/// Which browser's bookmarks to import, named in any case: `chromium` and `chrome`
/// read Chromium's bookmark file; Firefox is not read directly.
pub fn import_from_browser(browser: &str) -> (r: Result<BrowserSource, String>)
    ensures
        ({
            let l = lowercase(browser@);
            if l == "chromium"@ || l == "chrome"@ {
                r == Ok::<BrowserSource, String>(BrowserSource::Chromium)
            } else if l == "firefox"@ {
                r matches Err(m) && m@ == firefox_message()
            } else {
                r matches Err(m) && m@ == unknown_browser_message(browser@)
            }
        }),
{
    let lower = to_lowercase(browser);
    if str_eq(lower.as_str(), "chromium") || str_eq(lower.as_str(), "chrome") {
        Ok(BrowserSource::Chromium)
    } else if str_eq(lower.as_str(), "firefox") {
        Err(owned("Firefox import: export bookmarks to HTML first, then use --import-file"))
    } else {
        let mut s = owned("Unknown browser: ");
        push_all(&mut s, browser);
        push_all(&mut s, ". Use: chromium, firefox");
        Err(s)
    }
}

/// The kind of a bookmark file, judged by its text.
#[derive(Debug, Clone, Copy, PartialEq, Eq, Structural)]
pub enum FileFormat {
    NetscapeHtml,
    ChromiumJson,
}

/// The message for a file of unknown kind.
pub open spec fn unknown_file_message() -> Seq<char> {
    "Unknown file format. Supported: Netscape HTML, Chromium JSON, XLSX"@
}

/// A path names a spreadsheet when it ends in `.xlsx`, in any case.
pub fn is_xlsx_path(path: &str) -> (r: bool)
    ensures
        r == ends_with(lowercase(path@), ".xlsx"@),
{
    let lower = to_lowercase(path);
    let v = chars_of(lower.as_str());
    let suffix = chars_of(".xlsx");
    if suffix.len() > v.len() {
        return false;
    }
    let start = v.len() - suffix.len();
    let found = crate::text::matches_at(&v, &suffix, start);
    proof {
        if found {
            assert(v@.subrange(start as int, start + suffix@.len()) =~= v@.skip(start as int));
        } else {
            assert(v@.subrange(start as int, start + suffix@.len()) =~= v@.skip(start as int));
        }
    }
    found
}

/// The kind of a bookmark file's text: Netscape HTML when it holds the Netscape
/// doctype or a link line, Chromium JSON when it starts with `{`.
pub fn detect_file_format(content: &str) -> (r: Result<FileFormat, String>)
    ensures
        if contains_seq(content@, "<!DOCTYPE NETSCAPE-Bookmark"@) || contains_seq(
            content@,
            "<DT><A HREF"@,
        ) {
            r == Ok::<FileFormat, String>(FileFormat::NetscapeHtml)
        } else if starts_with(content@, "{"@) {
            r == Ok::<FileFormat, String>(FileFormat::ChromiumJson)
        } else {
            r matches Err(m) && m@ == unknown_file_message()
        },
{
    let v = chars_of(content);
    let doctype = chars_of("<!DOCTYPE NETSCAPE-Bookmark");
    let link = chars_of("<DT><A HREF");
    if crate::text::find_seq(&v, &doctype, 0).is_some() || crate::text::find_seq(&v, &link, 0).is_some() {
        return Ok(FileFormat::NetscapeHtml);
    }
    let brace = chars_of("{");
    proof {
        reveal_strlit("{");
    }
    if v.len() > 0 && v[0] == '{' {
        assert(v@.take(1) =~= "{"@);
        Ok(FileFormat::ChromiumJson)
    } else {
        proof {
            if starts_with(content@, "{"@) {
                assert(v@.take(1)[0] == v@[0]);
            }
        }
        Err(owned("Unknown file format. Supported: Netscape HTML, Chromium JSON, XLSX"))
    }
}

// ─── Chromium bookmark trees ────────────────────────────────────────────

/// A node of Chromium's bookmark tree, as far as the import reads it: a URL node with
/// its `name` and `url` strings, a folder node with its `name` and `children`, or a
/// node of another type. Absent or non-string fields are `None`.
pub enum ChromeNode {
    Url { name: Option<String>, url: Option<String> },
    Folder { name: Option<String>, children: Option<Vec<ChromeNode>> },
    Other,
}

/// The text of an optional string, empty when absent.
pub open spec fn text_or_empty(t: Option<String>) -> Seq<char> {
    match t {
        Some(s) => s@,
        None => Seq::empty(),
    }
}

/// The URL entries of a tree in depth-first order; each lands in the folder of its
/// nearest named folder node (or `folder` when there is none).
pub open spec fn chrome_entries(node: ChromeNode, folder: Seq<char>) -> Seq<Entry>
    decreases node, 1int,
{
    match node {
        ChromeNode::Url { name, url } => seq![(text_or_empty(name), text_or_empty(url), folder)],
        ChromeNode::Folder { name, children } => {
            let f = match name {
                Some(n) => n@,
                None => folder,
            };
            match children {
                Some(cs) => chrome_entries_list(cs@, f),
                None => Seq::empty(),
            }
        },
        ChromeNode::Other => Seq::empty(),
    }
}

/// The URL entries of a list of trees, one tree after the other.
pub open spec fn chrome_entries_list(cs: Seq<ChromeNode>, folder: Seq<char>) -> Seq<Entry>
    decreases cs, 0int,
{
    if cs.len() == 0 {
        Seq::empty()
    } else {
        chrome_entries_list(cs.subrange(0, cs.len() - 1), folder) + chrome_entries(
            cs[cs.len() - 1],
            folder,
        )
    }
}

/// Imports the URL nodes of a Chromium bookmark tree; returns how many bookmarks were added.
pub fn extract_chrome_bookmarks(node: &ChromeNode, folder: &str, store: &mut BookmarkStore) -> (count: usize)
    ensures
        imported(old(store).bookmarks@, final(store).bookmarks@, chrome_entries(*node, folder@)),
        final(store).version == old(store).version,
        count == final(store).bookmarks@.len() - old(store).bookmarks@.len(),
    decreases node,
{
    let ghost olds = store.bookmarks@;
    proof {
        lemma_imported_refl(olds);
    }
    match node {
        ChromeNode::Url { name, url } => {
            let name_s = match name {
                Some(n) => n.clone(),
                None => String::new(),
            };
            let url_s = match url {
                Some(u) => u.clone(),
                None => String::new(),
            };
            if import_entry(store, name_s, url_s, owned(folder)) {
                1
            } else {
                0
            }
        },
        ChromeNode::Folder { name, children } => {
            let folder_name: &str = match name {
                Some(n) => n.as_str(),
                None => folder,
            };
            match children {
                Some(cs) => {
                    let start = store.bookmarks.len();
                    let n = cs.len();
                    let mut i: usize = 0;
                    assert(cs@.subrange(0, 0) =~= Seq::<ChromeNode>::empty());
                    while i < n
                        invariant
                            i <= n == cs@.len(),
                            imported(
                                olds,
                                store.bookmarks@,
                                chrome_entries_list(cs@.subrange(0, i as int), folder_name@),
                            ),
                            store.version == old(store).version,
                            start == olds.len(),
                            *node == (ChromeNode::Folder { name: *name, children: *children }),
                            *children == Some(*cs),
                        decreases n - i,
                    {
                        let ghost mid = store.bookmarks@;
                        proof {
                            assert(decreases_to!(*node => (*node)->children));
                            assert(decreases_to!((*node)->children => (*node)->children->0));
                            assert(decreases_to!(*cs => cs@));
                            assert(decreases_to!(cs@ => cs@[i as int]));
                        }
                        let _ = extract_chrome_bookmarks(&cs[i], folder_name, store);
                        proof {
                            let pre = cs@.subrange(0, i as int);
                            let now = cs@.subrange(0, i + 1);
                            assert(now.subrange(0, now.len() - 1) =~= pre);
                            assert(now[now.len() - 1] == cs@[i as int]);
                            lemma_imported_trans(
                                olds,
                                mid,
                                store.bookmarks@,
                                chrome_entries_list(pre, folder_name@),
                                chrome_entries(cs@[i as int], folder_name@),
                            );
                        }
                        i += 1;
                    }
                    assert(cs@.subrange(0, n as int) =~= cs@);
                    store.bookmarks.len() - start
                },
                None => 0,
            }
        },
        ChromeNode::Other => 0,
    }
}

/// The URL entries of Chromium's bookmark roots, each root's nodes landing in
/// "Imported" unless a named folder says otherwise.
pub open spec fn chrome_roots_entries(roots: Seq<ChromeNode>) -> Seq<Entry> {
    chrome_entries_list(roots, "Imported"@)
}

/// Imports every root of a Chromium bookmark file (in the order given); returns how
/// many bookmarks were added.
pub fn import_chrome_roots(roots: &Vec<ChromeNode>, store: &mut BookmarkStore) -> (count: usize)
    ensures
        imported(old(store).bookmarks@, final(store).bookmarks@, chrome_roots_entries(roots@)),
        final(store).version == old(store).version,
        count == final(store).bookmarks@.len() - old(store).bookmarks@.len(),
{
    let ghost olds = store.bookmarks@;
    proof {
        lemma_imported_refl(olds);
    }
    let start = store.bookmarks.len();
    let n = roots.len();
    let mut i: usize = 0;
    assert(roots@.subrange(0, 0) =~= Seq::<ChromeNode>::empty());
    while i < n
        invariant
            i <= n == roots@.len(),
            imported(olds, store.bookmarks@, chrome_entries_list(roots@.subrange(0, i as int), "Imported"@)),
            store.version == old(store).version,
            start == olds.len(),
        decreases n - i,
    {
        let ghost mid = store.bookmarks@;
        let _ = extract_chrome_bookmarks(&roots[i], "Imported", store);
        proof {
            let pre = roots@.subrange(0, i as int);
            let now = roots@.subrange(0, i + 1);
            assert(now.subrange(0, now.len() - 1) =~= pre);
            assert(now[now.len() - 1] == roots@[i as int]);
            lemma_imported_trans(
                olds,
                mid,
                store.bookmarks@,
                chrome_entries_list(pre, "Imported"@),
                chrome_entries(roots@[i as int], "Imported"@),
            );
        }
        i += 1;
    }
    assert(roots@.subrange(0, n as int) =~= roots@);
    store.bookmarks.len() - start
}

// ─── spreadsheet rows ───────────────────────────────────────────────────

/// Cell texts of spreadsheet rows.
pub open spec fn rows_view(rows: Seq<Vec<String>>) -> Seq<Seq<Seq<char>>> {
    rows.map_values(|r: Vec<String>| r@.map_values(|c: String| c@))
}

/// The text of cell `i` of a row, empty when the row is shorter.
pub open spec fn cell_text(row: Seq<Seq<char>>, i: int) -> Seq<char> {
    if 0 <= i < row.len() {
        row[i]
    } else {
        Seq::empty()
    }
}

/// The bookmark a row names: columns name, URL, folder; rows with a blank URL name
/// none; a blank name becomes the URL and a blank folder "Imported".
pub open spec fn row_entry(row: Seq<Seq<char>>) -> Option<Entry> {
    let name = cell_text(row, 0);
    let url = cell_text(row, 1);
    let folder = cell_text(row, 2);
    if is_blank(url) {
        None
    } else {
        Some(
            (
                if is_blank(name) {
                    url
                } else {
                    name
                },
                url,
                if is_blank(folder) {
                    "Imported"@
                } else {
                    folder
                },
            ),
        )
    }
}

/// The bookmarks that rows name, in order.
pub open spec fn row_entries(rows: Seq<Seq<Seq<char>>>) -> Seq<Entry>
    decreases rows.len(),
{
    if rows.len() == 0 {
        Seq::empty()
    } else {
        match row_entry(rows.last()) {
            Some(e) => row_entries(rows.drop_last()).push(e),
            None => row_entries(rows.drop_last()),
        }
    }
}

/// The bookmarks of a sheet: its rows after the first, which is the header.
pub open spec fn xlsx_entries(rows: Seq<Seq<Seq<char>>>) -> Seq<Entry> {
    if rows.len() > 0 {
        row_entries(rows.skip(1))
    } else {
        Seq::empty()
    }
}

fn cell_of(row: &Vec<String>, i: usize) -> (r: String)
    ensures
        r@ == cell_text(row@.map_values(|c: String| c@), i as int),
{
    if i < row.len() {
        row[i].clone()
    } else {
        String::new()
    }
}

/// Whether `s` is empty or only white space.
pub fn blank(s: &str) -> (r: bool)
    ensures
        r == is_blank(s@),
{
    let v = chars_of(s);
    let t = crate::text::trim_end_count(&v, v.len());
    assert(v@.take(v.len() as int) =~= v@);
    t == 0
}

proof fn lemma_not_blank_nonempty(s: Seq<char>)
    requires
        !is_blank(s),
    ensures
        s.len() > 0,
{
}

/// Imports the bookmarks of spreadsheet rows (cell texts, first sheet; see
/// `xlsx_entries`); returns how many bookmarks were added.
pub fn import_xlsx_rows(rows: &Vec<Vec<String>>, store: &mut BookmarkStore) -> (count: usize)
    ensures
        imported(old(store).bookmarks@, final(store).bookmarks@, xlsx_entries(rows_view(rows@))),
        final(store).version == old(store).version,
        count == final(store).bookmarks@.len() - old(store).bookmarks@.len(),
{
    let ghost olds = store.bookmarks@;
    let ghost rv = rows_view(rows@);
    proof {
        lemma_imported_refl(olds);
    }
    let start = store.bookmarks.len();
    let n = rows.len();
    let skip: usize = if n > 0 {
        1
    } else {
        0
    };
    let ghost body = rv.skip(skip as int);
    assert(skip == 1 ==> xlsx_entries(rv) == row_entries(body));
    assert(skip == 0 ==> xlsx_entries(rv) == row_entries(body)) by {
        if skip == 0 {
            assert(rv.skip(0) =~= rv);
            assert(row_entries(rv) =~= Seq::<Entry>::empty());
        }
    }
    let mut i: usize = skip;
    assert(body.take(0) =~= Seq::<Seq<Seq<char>>>::empty());
    while i < n
        invariant
            skip <= i <= n == rows@.len(),
            skip <= 1,
            rv == rows_view(rows@),
            body == rv.skip(skip as int),
            start == olds.len(),
            store.version == old(store).version,
            imported(olds, store.bookmarks@, row_entries(body.take(i - skip))),
        decreases n - i,
    {
        let ghost mid = store.bookmarks@;
        let ghost k = i - skip;
        assert(body.take(k + 1).drop_last() =~= body.take(k));
        assert(body.take(k + 1).last() == rv[i as int]);
        let row = &rows[i];
        let name = cell_of(row, 0);
        let url = cell_of(row, 1);
        let folder_cell = cell_of(row, 2);
        if !blank(url.as_str()) {
            let folder = if blank(folder_cell.as_str()) {
                owned("Imported")
            } else {
                folder_cell
            };
            let display = if blank(name.as_str()) {
                url.clone()
            } else {
                name
            };
            proof {
                lemma_not_blank_nonempty(url@);
            }
            let _ = import_entry(store, display, url, folder);
            proof {
                lemma_imported_trans(olds, mid, store.bookmarks@, row_entries(body.take(k)), seq![row_entry(rv[i as int])->0]);
                assert(row_entries(body.take(k + 1)) =~= row_entries(body.take(k)) + seq![row_entry(rv[i as int])->0]);
            }
        }
        i += 1;
    }
    assert(body.take(n - skip) =~= body);
    store.bookmarks.len() - start
}

// ─── laws ────────────────────────────────────────────────────────────────

/// No two entries of `s` share a URL.
pub open spec fn urls_unique(s: Seq<Entry>) -> bool {
    forall|i: int, j: int| 0 <= i < j < s.len() ==> (#[trigger] s[i]).1 != (#[trigger] s[j]).1
}

proof fn lemma_import_step_keeps_urls(s: Seq<Entry>, e: Entry, url: Seq<char>)
    requires
        has_url_entry(s, url),
    ensures
        has_url_entry(import_step(s, e), url),
{
    let i = choose|i: int| 0 <= i < s.len() && (#[trigger] s[i]).1 == url;
    assert(import_step(s, e)[i] == s[i]);
}

proof fn lemma_import_all_keeps_urls(s: Seq<Entry>, es: Seq<Entry>, url: Seq<char>)
    requires
        has_url_entry(s, url),
    ensures
        has_url_entry(import_all(s, es), url),
    decreases es.len(),
{
    if es.len() > 0 {
        lemma_import_all_keeps_urls(s, es.drop_last(), url);
        lemma_import_step_keeps_urls(import_all(s, es.drop_last()), es.last(), url);
    }
}

proof fn lemma_import_all_covers(s: Seq<Entry>, es: Seq<Entry>, j: int)
    requires
        0 <= j < es.len(),
        es[j].1.len() > 0,
    ensures
        has_url_entry(import_all(s, es), es[j].1),
    decreases es.len(),
{
    let t = import_all(s, es.drop_last());
    if j == es.len() - 1 {
        if !has_url_entry(t, es[j].1) {
            assert(import_step(t, es.last())[t.len() as int] == es[j]);
        }
    } else {
        assert(es.drop_last()[j] == es[j]);
        lemma_import_all_covers(s, es.drop_last(), j);
        lemma_import_step_keeps_urls(t, es.last(), es[j].1);
    }
}

proof fn lemma_import_all_nothing_new(t: Seq<Entry>, es: Seq<Entry>)
    requires
        forall|j: int| 0 <= j < es.len() && (#[trigger] es[j]).1.len() > 0 ==> has_url_entry(t, es[j].1),
    ensures
        import_all(t, es) == t,
    decreases es.len(),
{
    if es.len() > 0 {
        assert forall|j: int| 0 <= j < es.drop_last().len() && (#[trigger] es.drop_last()[j]).1.len()
            > 0 implies has_url_entry(t, es.drop_last()[j].1) by {
            assert(es.drop_last()[j] == es[j]);
        }
        lemma_import_all_nothing_new(t, es.drop_last());
        assert(es.last() == es[es.len() - 1]);
    }
}

/// Importing the same entries a second time adds nothing: every URL they carry is
/// already present after the first import.
pub proof fn law_import_idempotent(s: Seq<Entry>, es: Seq<Entry>)
    ensures
        import_all(import_all(s, es), es) == import_all(s, es),
{
    let t = import_all(s, es);
    assert forall|j: int| 0 <= j < es.len() && (#[trigger] es[j]).1.len() > 0 implies has_url_entry(
        t,
        es[j].1,
    ) by {
        lemma_import_all_covers(s, es, j);
    }
    lemma_import_all_nothing_new(t, es);
}

/// Importing never creates two bookmarks with the same URL.
pub proof fn law_import_keeps_urls_unique(s: Seq<Entry>, es: Seq<Entry>)
    requires
        urls_unique(s),
    ensures
        urls_unique(import_all(s, es)),
    decreases es.len(),
{
    if es.len() > 0 {
        let t = import_all(s, es.drop_last());
        law_import_keeps_urls_unique(s, es.drop_last());
        let e = es.last();
        if e.1.len() > 0 && !has_url_entry(t, e.1) {
            let u = t.push(e);
            assert forall|i: int, j: int| 0 <= i < j < u.len() implies (#[trigger] u[i]).1 != (
            #[trigger] u[j]).1 by {
                if j == t.len() {
                    if u[i].1 == e.1 {
                        assert(t[i].1 == e.1);
                    }
                } else {
                    assert(u[i] == t[i] && u[j] == t[j]);
                }
            }
        }
    }
}

/// Column titles of the bookmark spreadsheet.
pub open spec fn bookmark_sheet_titles() -> Seq<Seq<char>> {
    seq!["Name"@, "URL"@, "Folder"@, "Created At"@, "Updated At"@]
}

/// The title row of the bookmark spreadsheet.
pub fn bookmark_sheet_header() -> (r: Vec<String>)
    ensures
        r@.map_values(|c: String| c@) == bookmark_sheet_titles(),
{
    let r = vec![owned("Name"), owned("URL"), owned("Folder"), owned("Created At"), owned("Updated At")];
    assert(r@.map_values(|c: String| c@) =~= bookmark_sheet_titles());
    r
}

/// The cells of a bookmark's spreadsheet row: name, URL, folder, and its creation and
/// update times as `YYYY-mm-dd HH:MM:SS` (UTC).
pub fn bookmark_sheet_row(b: &Bookmark) -> (r: Vec<String>)
    ensures
        r@.map_values(|c: String| c@) == seq![b.name@, b.url@, b.folder@, time_cell(b.created_at), time_cell(b.updated_at)],
{
    let r = vec![
        owned(b.name.as_str()),
        owned(b.url.as_str()),
        owned(b.folder.as_str()),
        time_cell_text(b.created_at),
        time_cell_text(b.updated_at),
    ];
    assert(r@.map_values(|c: String| c@) =~= seq![b.name@, b.url@, b.folder@, time_cell(b.created_at), time_cell(b.updated_at)]);
    r
}

} // verus!
