//! Snapshot history: entries, the capped index, naming and the HTML listing.
use vstd::prelude::*;
use crate::bookmark::{contains_text, now_micros};
use crate::text::{decimal, decimal_text, owned, push_all, push_char, str_eq};

verus! {

/// Most entries the history index keeps.
pub const MAX_HISTORY_ENTRIES: usize = 50;

#[derive(Debug, Clone, Copy, PartialEq, Eq, Structural)]
pub enum HistoryAction {
    Import,
    Export,
    Restore,
}

/// The name under which an action is shown.
pub open spec fn action_label(a: HistoryAction) -> Seq<char> {
    match a {
        HistoryAction::Import => "Import"@,
        HistoryAction::Export => "Export"@,
        HistoryAction::Restore => "Restore"@,
    }
}

/// The lower-case name used in snapshot file names.
pub open spec fn action_slug(a: HistoryAction) -> Seq<char> {
    match a {
        HistoryAction::Import => "import"@,
        HistoryAction::Export => "export"@,
        HistoryAction::Restore => "restore"@,
    }
}

impl HistoryAction {
    /// The name under which the action is shown ("Import", "Export", "Restore").
    pub fn label(&self) -> (r: &'static str)
        ensures
            r@ == action_label(*self),
    {
        match self {
            HistoryAction::Import => "Import",
            HistoryAction::Export => "Export",
            HistoryAction::Restore => "Restore",
        }
    }

    /// The lower-cased label ("import", "export", "restore").
    pub fn slug(&self) -> (r: &'static str)
        ensures
            r@ == action_slug(*self),
    {
        match self {
            HistoryAction::Import => "import",
            HistoryAction::Export => "export",
            HistoryAction::Restore => "restore",
        }
    }
}

/// A history entry; `timestamp` is a UTC instant in microseconds since the Unix epoch.
pub struct HistoryEntry {
    pub id: String,
    pub timestamp: i64,
    pub action: HistoryAction,
    pub description: String,
    pub snapshot_file: String,
    pub bookmark_count: usize,
}

impl Clone for HistoryEntry {
    fn clone(&self) -> (r: Self)
        ensures
            r == *self,
    {
        HistoryEntry {
            id: self.id.clone(),
            timestamp: self.timestamp,
            action: self.action,
            description: self.description.clone(),
            snapshot_file: self.snapshot_file.clone(),
            bookmark_count: self.bookmark_count,
        }
    }
}

pub struct HistoryIndex {
    pub entries: Vec<HistoryEntry>,
}

/// Text of the UTC instant `micros` (microseconds since the epoch) laid out by the
/// `chrono` format string `pattern`; `None` for instants `chrono` cannot represent.
pub uninterp spec fn utc_format(micros: i64, pattern: Seq<char>) -> Option<Seq<char>>;

/// `chrono::DateTime::from_timestamp_micros(micros)` formatted with `pattern`
/// (`format(pattern).to_string()`); the text is named `utc_format(micros, pattern)`.
/// Only the two patterns the library uses are admitted: `to_string` panics on a
/// pattern that chrono cannot read.
#[verifier::external_body]
pub(crate) fn format_utc_micros(micros: i64, pattern: &str) -> (r: Option<String>)
    requires
        pattern@ == id_pattern() || pattern@ == date_pattern(),
    ensures
        match utc_format(micros, pattern@) {
            Some(t) => r matches Some(s) && s@ == t,
            None => r is None,
        },
{
    match chrono::DateTime::from_timestamp_micros(micros) {
        Some(t) => Some(t.format(pattern).to_string()),
        None => None,
    }
}

/// Name of the snapshot file of an entry: `<id>_<action>.snapshot.json`.
pub open spec fn snapshot_name(id: Seq<char>, action: HistoryAction) -> Seq<char> {
    id + "_"@ + action_slug(action) + ".snapshot.json"@
}

/// Layout of entry ids: the instant of the snapshot as `YYYYmmdd_HHMMSS`.
pub open spec fn id_pattern() -> Seq<char> {
    "%Y%m%d_%H%M%S"@
}

/// Name of the snapshot file for an entry.
pub fn snapshot_file_name(id: &str, action: HistoryAction) -> (r: String)
    ensures
        r@ == snapshot_name(id@, action),
{
    let mut s = owned(id);
    push_char(&mut s, '_');
    push_all(&mut s, action.slug());
    push_all(&mut s, ".snapshot.json");
    proof {
        reveal_strlit("_");
        assert(s@ =~= snapshot_name(id@, action));
    }
    s
}

/// A new entry for a snapshot taken at `now`; `None` when `now` cannot be formatted.
pub fn new_snapshot_entry(now: i64, action: HistoryAction, description: String, bookmark_count: usize) -> (r: Option<HistoryEntry>)
    ensures
        match utc_format(now, id_pattern()) {
            None => r is None,
            Some(id) => r matches Some(e) && e.id@ == id && e.timestamp == now && e.action == action
                && e.description == description && e.snapshot_file@ == snapshot_name(id, action)
                && e.bookmark_count == bookmark_count,
        },
{
    match format_utc_micros(now, "%Y%m%d_%H%M%S") {
        None => None,
        Some(id) => {
            let snapshot_file = snapshot_file_name(id.as_str(), action);
            Some(HistoryEntry { id, timestamp: now, action, description, snapshot_file, bookmark_count })
        },
    }
}

/// A new entry for a snapshot taken now; `None` when the clock reads an instant that
/// cannot be formatted. Of the instant nothing is known but that its id is its
/// `YYYYmmdd_HHMMSS` text.
pub fn new_snapshot_entry_now(action: HistoryAction, description: String, bookmark_count: usize) -> (r: Option<HistoryEntry>)
    ensures
        r matches Some(e) ==> utc_format(e.timestamp, id_pattern()) == Some(e.id@) && e.action == action
            && e.description == description && e.snapshot_file@ == snapshot_name(e.id@, action)
            && e.bookmark_count == bookmark_count,
{
    new_snapshot_entry(now_micros(), action, description, bookmark_count)
}

/// Entries whose ids are not in `ids`, in order.
pub open spec fn entries_without(es: Seq<HistoryEntry>, ids: Seq<Seq<char>>) -> Seq<HistoryEntry>
    decreases es.len(),
{
    if es.len() == 0 {
        es
    } else if ids.contains(es.last().id@) {
        entries_without(es.drop_last(), ids)
    } else {
        entries_without(es.drop_last(), ids).push(es.last())
    }
}

/// Entries whose ids are in `ids`, in order.
pub open spec fn entries_with(es: Seq<HistoryEntry>, ids: Seq<Seq<char>>) -> Seq<HistoryEntry>
    decreases es.len(),
{
    if es.len() == 0 {
        es
    } else if ids.contains(es.last().id@) {
        entries_with(es.drop_last(), ids).push(es.last())
    } else {
        entries_with(es.drop_last(), ids)
    }
}

/// Snapshot file names of a list of entries.
pub open spec fn files_of(es: Seq<HistoryEntry>) -> Seq<Seq<char>> {
    es.map_values(|e: HistoryEntry| e.snapshot_file@)
}

/// Index of the first entry whose id is `id`, from `from` on.
pub open spec fn first_entry_from(es: Seq<HistoryEntry>, id: Seq<char>, from: int) -> Option<int>
    decreases es.len() - from,
{
    if from < 0 || from >= es.len() {
        None
    } else if es[from].id@ == id {
        Some(from)
    } else {
        first_entry_from(es, id, from + 1)
    }
}

impl Default for HistoryIndex {
    fn default() -> (r: Self)
        ensures
            r.entries@.len() == 0,
    {
        HistoryIndex { entries: Vec::new() }
    }
}

impl HistoryIndex {
    /// Puts `entry` first and drops the oldest entries beyond the cap; returns the
    /// snapshot files of the dropped entries, oldest first.
    pub fn add_entry(&mut self, entry: HistoryEntry) -> (dropped: Vec<String>)
        ensures
            ({
                let all = seq![entry] + old(self).entries@;
                if all.len() <= MAX_HISTORY_ENTRIES {
                    final(self).entries@ == all && dropped@.len() == 0
                } else {
                    final(self).entries@ == all.take(MAX_HISTORY_ENTRIES as int)
                        && dropped@.map_values(|s: String| s@) == files_of(
                        all.skip(MAX_HISTORY_ENTRIES as int),
                    ).reverse()
                }
            }),
    {
        let ghost all = seq![entry] + old(self).entries@;
        self.entries.insert(0, entry);
        assert(self.entries@ =~= all);
        let mut dropped: Vec<String> = Vec::new();
        while self.entries.len() > MAX_HISTORY_ENTRIES
            invariant
                self.entries@.len() <= all.len(),
                all.len() > MAX_HISTORY_ENTRIES ==> self.entries@.len() >= MAX_HISTORY_ENTRIES,
                all.len() <= MAX_HISTORY_ENTRIES ==> self.entries@.len() == all.len(),
                self.entries@ == all.take(self.entries@.len() as int),
                dropped@.map_values(|s: String| s@) == files_of(all.skip(self.entries@.len() as int)).reverse(),
            decreases self.entries.len(),
        {
            let ghost before = self.entries@.len();
            let old_entry = self.entries.pop().unwrap();
            dropped.push(old_entry.snapshot_file);
            proof {
                assert(self.entries@ =~= all.take(before - 1));
                assert(all.skip(before - 1) =~= seq![all[before - 1]] + all.skip(before as int));
                assert(files_of(all.skip(before - 1)) =~= seq![all[before - 1].snapshot_file@] + files_of(
                    all.skip(before as int),
                ));
                let f = files_of(all.skip(before as int));
                assert((seq![all[before - 1].snapshot_file@] + f).reverse() =~= f.reverse().push(
                    all[before - 1].snapshot_file@,
                ));
                assert(dropped@.map_values(|s: String| s@) =~= files_of(all.skip(before - 1)).reverse());
            }
        }
        proof {
            if all.len() <= MAX_HISTORY_ENTRIES {
                assert(all.skip(all.len() as int) =~= Seq::<HistoryEntry>::empty());
                assert(dropped@.map_values(|s: String| s@).len() == 0);
            }
        }
        dropped
    }

    /// Removes the entries whose ids are in `ids`; returns the snapshot files of the
    /// removed entries, in index order (their number is how many were deleted).
    pub fn remove_entries(&mut self, ids: &[String]) -> (removed: Vec<String>)
        ensures
            final(self).entries@ == entries_without(old(self).entries@, ids@.map_values(|s: String| s@)),
            removed@.map_values(|s: String| s@) == files_of(
                entries_with(old(self).entries@, ids@.map_values(|s: String| s@)),
            ),
    {
        let ghost idv = ids@.map_values(|s: String| s@);
        let ghost es = self.entries@;
        let mut kept: Vec<HistoryEntry> = Vec::new();
        let mut removed: Vec<String> = Vec::new();
        let n = self.entries.len();
        let mut i: usize = 0;
        assert(es.take(0) =~= Seq::<HistoryEntry>::empty());
        while i < n
            invariant
                i <= n == self.entries.len(),
                self.entries@ == es,
                idv == ids@.map_values(|s: String| s@),
                kept@ == entries_without(es.take(i as int), idv),
                removed@.map_values(|s: String| s@) == files_of(entries_with(es.take(i as int), idv)),
            decreases n - i,
        {
            assert(es.take(i + 1).drop_last() =~= es.take(i as int));
            assert(es.take(i + 1).last() == es[i as int]);
            if contains_text(ids, self.entries[i].id.as_str()) {
                let ghost prev = removed@.map_values(|s: String| s@);
                removed.push(self.entries[i].snapshot_file.clone());
                assert(removed@.map_values(|s: String| s@) =~= prev.push(es[i as int].snapshot_file@));
                assert(entries_with(es.take(i + 1), idv) == entries_with(es.take(i as int), idv).push(es[i as int]));
                assert(removed@.map_values(|s: String| s@) =~= files_of(entries_with(es.take(i + 1), idv)));
            } else {
                kept.push(self.entries[i].clone());
            }
            i += 1;
        }
        assert(es.take(n as int) =~= es);
        self.entries = kept;
        removed
    }

    /// The first entry whose id is `id`.
    pub fn find_entry(&self, id: &str) -> (r: Option<&HistoryEntry>)
        ensures
            first_entry_from(self.entries@, id@, 0) is None ==> r is None,
            first_entry_from(self.entries@, id@, 0) matches Some(i) ==> (r matches Some(e) && *e
                == self.entries@[i]),
    {
        proof {
            lemma_first_entry_from(self.entries@, id@, 0);
        }
        let n = self.entries.len();
        let mut i: usize = 0;
        while i < n
            invariant
                i <= n == self.entries.len(),
                first_entry_from(self.entries@, id@, 0) == first_entry_from(self.entries@, id@, i as int),
            decreases n - i,
        {
            if str_eq(self.entries[i].id.as_str(), id) {
                return Some(&self.entries[i]);
            }
            i += 1;
        }
        None
    }
}


/// Layout of dates in the history listing.
pub open spec fn date_pattern() -> Seq<char> {
    "%Y-%m-%d %H:%M:%S"@
}

/// Text of a time cell: the instant laid out by `date_pattern()`, empty when it cannot
/// be formatted.
pub open spec fn time_cell(micros: i64) -> Seq<char> {
    match utc_format(micros, date_pattern()) {
        Some(t) => t,
        None => Seq::empty(),
    }
}

/// The text of a time cell (see `time_cell`).
pub fn time_cell_text(micros: i64) -> (r: String)
    ensures
        r@ == time_cell(micros),
{
    match format_utc_micros(micros, "%Y-%m-%d %H:%M:%S") {
        Some(t) => t,
        None => String::new(),
    }
}

/// Column titles of the history spreadsheet.
pub open spec fn history_sheet_titles() -> Seq<Seq<char>> {
    seq!["#"@, "Date"@, "Type"@, "Description"@, "Bookmarks"@]
}

/// The title row of the history spreadsheet.
pub fn history_sheet_header() -> (r: Vec<String>)
    ensures
        r@.map_values(|c: String| c@) == history_sheet_titles(),
{
    let r = vec![owned("#"), owned("Date"), owned("Type"), owned("Description"), owned("Bookmarks")];
    assert(r@.map_values(|c: String| c@) =~= history_sheet_titles());
    r
}

/// The text cells of an entry's spreadsheet row: its date, its type and its description
/// (the position and the bookmark count are written as numbers).
pub fn history_sheet_row(e: &HistoryEntry) -> (r: Vec<String>)
    ensures
        r@.map_values(|c: String| c@) == seq![time_cell(e.timestamp), action_label(e.action), e.description@],
{
    let r = vec![time_cell_text(e.timestamp), owned(e.action.label()), owned(e.description.as_str())];
    assert(r@.map_values(|c: String| c@) =~= seq![time_cell(e.timestamp), action_label(e.action), e.description@]);
    r
}

/// Opening of the HTML history listing, up to the table header.
pub open spec fn history_html_head() -> Seq<char> {
    "<!DOCTYPE html>\n<html><head>\n"@ + "<meta charset=\"UTF-8\">\n"@ + "<title>edbookmark History</title>\n"@ + "<style>table{border-collapse:collapse;width:100%}"@ + "th,td{border:1px solid #ddd;padding:8px;text-align:left}"@ + "th{background:#2D4F67;color:white}</style>\n"@ + "</head><body>\n<h1>edbookmark History</h1>\n"@ + "<table><tr><th>#</th><th>Date</th><th>Type</th>"@ + "<th>Description</th><th>Bookmarks</th></tr>\n"@
}

/// Closing of the HTML history listing.
pub open spec fn history_html_tail() -> Seq<char> {
    "</table>\n</body></html>"@
}

/// One table row: position, date, action, description and bookmark count.
pub open spec fn history_row(pos: nat, date: Seq<char>, e: HistoryEntry) -> Seq<char> {
    "<tr><td>"@ + decimal(pos) + "</td><td>"@ + date + "</td><td>"@ + action_label(e.action)
        + "</td><td>"@ + e.description@ + "</td><td>"@ + decimal(e.bookmark_count as nat)
        + "</td></tr>\n"@
}

/// The rows of the listing; `None` when some entry's time cannot be formatted.
pub open spec fn history_rows(es: Seq<HistoryEntry>) -> Option<Seq<char>>
    decreases es.len(),
{
    if es.len() == 0 {
        Some(Seq::empty())
    } else {
        match (history_rows(es.drop_last()), utc_format(es.last().timestamp, date_pattern())) {
            (Some(rows), Some(date)) => Some(rows + history_row(es.len(), date, es.last())),
            _ => None,
        }
    }
}

/// The HTML listing of a history (`None` when some entry's time cannot be formatted).
pub open spec fn history_html(es: Seq<HistoryEntry>) -> Option<Seq<char>> {
    match history_rows(es) {
        Some(rows) => Some(history_html_head() + rows + history_html_tail()),
        None => None,
    }
}

impl HistoryIndex {
    /// The HTML listing of the entries, newest first as stored; `None` when the time of
    /// some entry lies outside what `chrono` can represent.
    #[verifier::spinoff_prover]
    #[verifier::rlimit(40)]
    pub fn to_html(&self) -> (r: Option<String>)
        ensures
            match history_html(self.entries@) {
                Some(h) => r matches Some(s) && s@ == h,
                None => r is None,
            },
    {
        let mut s = String::new();
    push_all(&mut s, "<!DOCTYPE html>\n<html><head>\n");
    push_all(&mut s, "<meta charset=\"UTF-8\">\n");
    push_all(&mut s, "<title>edbookmark History</title>\n");
    push_all(&mut s, "<style>table{border-collapse:collapse;width:100%}");
    push_all(&mut s, "th,td{border:1px solid #ddd;padding:8px;text-align:left}");
    push_all(&mut s, "th{background:#2D4F67;color:white}</style>\n");
    push_all(&mut s, "</head><body>\n<h1>edbookmark History</h1>\n");
    push_all(&mut s, "<table><tr><th>#</th><th>Date</th><th>Type</th>");
    push_all(&mut s, "<th>Description</th><th>Bookmarks</th></tr>\n");
        let ghost head = s@;
        assert(head =~= history_html_head());
        let n = self.entries.len();
        let mut i: usize = 0;
        assert(self.entries@.take(0) =~= Seq::<HistoryEntry>::empty());
        while i < n
            invariant
                i <= n == self.entries@.len(),
                head == history_html_head(),
                history_rows(self.entries@.take(i as int)) matches Some(rows) && s@ == head + rows,
            decreases n - i,
        {
            let e = &self.entries[i];
            let ghost pre = self.entries@.take(i as int);
            assert(self.entries@.take(i + 1).drop_last() =~= pre);
            assert(self.entries@.take(i + 1).last() == self.entries@[i as int]);
            let date = match format_utc_micros(e.timestamp, "%Y-%m-%d %H:%M:%S") {
                Some(d) => d,
                None => {
                    proof {
                        lemma_history_rows_none_extends(self.entries@, i + 1);
                    }
                    return None;
                },
            };
            let ghost before = s@;
            push_all(&mut s, "<tr><td>");
            push_all(&mut s, decimal_text(i + 1).as_str());
            push_all(&mut s, "</td><td>");
            push_all(&mut s, date.as_str());
            push_all(&mut s, "</td><td>");
            push_all(&mut s, e.action.label());
            push_all(&mut s, "</td><td>");
            push_all(&mut s, e.description.as_str());
            push_all(&mut s, "</td><td>");
            push_all(&mut s, decimal_text(e.bookmark_count).as_str());
            push_all(&mut s, "</td></tr>\n");
            assert(s@ =~= before + history_row((i + 1) as nat, date@, self.entries@[i as int]));
            i += 1;
        }
        assert(self.entries@.take(n as int) =~= self.entries@);
        push_all(&mut s, "</table>\n</body></html>");
        Some(s)
    }
}

proof fn lemma_rows_prefix_some(es: Seq<HistoryEntry>, j: int)
    requires
        0 <= j <= es.len(),
        history_rows(es) is Some,
    ensures
        history_rows(es.take(j)) is Some,
    decreases es.len() - j,
{
    if j < es.len() {
        lemma_rows_prefix_some(es, j + 1);
        assert(es.take(j + 1).drop_last() =~= es.take(j));
    } else {
        assert(es.take(j) =~= es);
    }
}

/// Row `k` of the history listing (counting from 0) is the `k`-th entry: its position
/// `k + 1`, its date, its type, its description and the number of bookmarks in its
/// snapshot; the listing is the head, the rows in entry order, and the tail.
pub proof fn law_history_listing_rows(es: Seq<HistoryEntry>, k: int)
    requires
        0 <= k < es.len(),
        history_html(es) is Some,
    ensures
        utc_format(es[k].timestamp, date_pattern()) is Some,
        history_rows(es.take(k)) is Some,
        history_rows(es.take(k + 1)) == Some(
            history_rows(es.take(k))->0 + "<tr><td>"@ + decimal((k + 1) as nat) + "</td><td>"@
                + utc_format(es[k].timestamp, date_pattern())->0 + "</td><td>"@ + action_label(
                es[k].action,
            ) + "</td><td>"@ + es[k].description@ + "</td><td>"@ + decimal(
                es[k].bookmark_count as nat,
            ) + "</td></tr>\n"@,
        ),
        history_html(es) == Some(
            history_html_head() + history_rows(es.take(es.len() as int))->0 + history_html_tail(),
        ),
{
    lemma_rows_prefix_some(es, k + 1);
    lemma_rows_prefix_some(es, k);
    let t = es.take(k + 1);
    assert(t.drop_last() =~= es.take(k));
    assert(t.last() == es[k]);
    assert(t.len() == k + 1);
    assert(es.take(es.len() as int) =~= es);
}

proof fn lemma_history_rows_none_extends(es: Seq<HistoryEntry>, i: int)
    requires
        0 < i <= es.len(),
        utc_format(es[i - 1].timestamp, date_pattern()) is None,
    ensures
        history_rows(es) is None,
    decreases es.len() - i,
{
    lemma_rows_none_from(es, i);
}

proof fn lemma_rows_none_from(es: Seq<HistoryEntry>, i: int)
    requires
        0 < i <= es.len(),
        utc_format(es[i - 1].timestamp, date_pattern()) is None,
    ensures
        history_rows(es.take(i)) is None,
        history_rows(es) is None,
    decreases es.len() - i,
{
    assert(es.take(i).last() == es[i - 1]);
    if i < es.len() {
        lemma_rows_none_step(es, i);
    } else {
        assert(es.take(i) =~= es);
    }
}

proof fn lemma_rows_none_step(es: Seq<HistoryEntry>, i: int)
    requires
        0 < i <= es.len(),
        history_rows(es.take(i)) is None,
    ensures
        history_rows(es) is None,
    decreases es.len() - i,
{
    if i < es.len() {
        assert(es.take(i + 1).drop_last() =~= es.take(i));
        lemma_rows_none_step(es, i + 1);
    } else {
        assert(es.take(i) =~= es);
    }
}

pub proof fn lemma_first_entry_from(es: Seq<HistoryEntry>, id: Seq<char>, from: int)
    requires
        0 <= from,
    ensures
        match first_entry_from(es, id, from) {
            Some(i) => from <= i < es.len() && es[i].id@ == id,
            None => forall|j: int| from <= j < es.len() ==> (#[trigger] es[j]).id@ != id,
        },
    decreases es.len() - from,
{
    if from < es.len() && es[from].id@ != id {
        lemma_first_entry_from(es, id, from + 1);
    }
}

/// The capped index never holds more than `MAX_HISTORY_ENTRIES` entries after an
/// entry is added to an index that respected the cap, and the newest entry is first.
pub proof fn lemma_add_entry_keeps_cap(old_entries: Seq<HistoryEntry>, entry: HistoryEntry)
    requires
        old_entries.len() <= MAX_HISTORY_ENTRIES,
    ensures
        ({
            let all = seq![entry] + old_entries;
            let kept = if all.len() <= MAX_HISTORY_ENTRIES {
                all
            } else {
                all.take(MAX_HISTORY_ENTRIES as int)
            };
            &&& kept.len() <= MAX_HISTORY_ENTRIES
            &&& kept[0] == entry
            &&& forall|i: int| 1 <= i < kept.len() ==> kept[i] == old_entries[i - 1]
        }),
{
}

/// The message for a restore request whose entry is not in the index.
pub open spec fn entry_not_found_message(id: Seq<char>) -> Seq<char> {
    "History entry '"@ + id + "' not found"@
}

impl HistoryIndex {
    /// The entry that a restore of `id` goes back to, or the error when the index
    /// has no such entry.
    pub fn restore_target(&self, id: &str) -> (r: Result<HistoryEntry, String>)
        ensures
            match first_entry_from(self.entries@, id@, 0) {
                Some(i) => r matches Ok(e) && e == self.entries@[i],
                None => r matches Err(m) && m@ == entry_not_found_message(id@),
            },
    {
        match self.find_entry(id) {
            Some(e) => Ok(e.clone()),
            None => {
                let mut m = owned("History entry '");
                push_all(&mut m, id);
                push_all(&mut m, "' not found");
                Err(m)
            },
        }
    }
}

/// Description of the snapshot taken before a file import.
pub fn before_import_note(path: &str) -> (r: String)
    ensures
        r@ == "Before import from "@ + path@,
{
    let mut s = owned("Before import from ");
    push_all(&mut s, path);
    s
}

/// Description of the snapshot taken before an export.
pub fn export_note(target: &str) -> (r: String)
    ensures
        r@ == "Export to "@ + target@,
{
    let mut s = owned("Export to ");
    push_all(&mut s, target);
    s
}

/// Description of the snapshot taken after a Chromium import of `count` bookmarks.
pub fn chromium_import_note(count: usize) -> (r: String)
    ensures
        r@ == "Import "@ + crate::text::decimal(count as nat) + " from Chromium"@,
{
    let mut s = owned("Import ");
    push_all(&mut s, crate::text::decimal_text(count).as_str());
    push_all(&mut s, " from Chromium");
    s
}

/// Description of the snapshot taken before restoring the entry described as `description`.
pub fn before_restore_note(description: &str) -> (r: String)
    ensures
        r@ == "Before restore to: "@ + description@,
{
    let mut s = owned("Before restore to: ");
    push_all(&mut s, description);
    s
}

} // verus!
