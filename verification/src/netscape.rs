//! The Netscape bookmark file format (the HTML that browsers export): reading
//! links and folders line by line, and writing a store out grouped by folder.
use vstd::prelude::*;
use crate::bookmark::{Bookmark, BookmarkStore};
use crate::import_export::{imported, import_entry, lemma_imported_refl, lemma_imported_trans, Entry};
use crate::text::{
    chars_of, find, find_from, find_seq, occurs_at, push_all, starts_with, string_of, str_eq,
    trim, trim_end_count, trim_start_count,
};

verus! {

/// `l` without one trailing carriage return.
pub open spec fn strip_cr(l: Seq<char>) -> Seq<char> {
    if l.len() > 0 && l.last() == '\r' {
        l.drop_last()
    } else {
        l
    }
}

/// Lines finished so far and the line being read, scanning `s` left to right.
pub open spec fn line_scan(s: Seq<char>) -> (Seq<Seq<char>>, Seq<char>)
    decreases s.len(),
{
    if s.len() == 0 {
        (Seq::empty(), Seq::empty())
    } else {
        let (ls, cur) = line_scan(s.drop_last());
        if s.last() == '\n' {
            (ls.push(strip_cr(cur)), Seq::empty())
        } else {
            (ls, cur.push(s.last()))
        }
    }
}

/// The lines of `s` (`str::lines`): split at `\n`, a `\r` before the `\n` dropped, no
/// empty line after a final `\n`.
pub open spec fn lines_of(s: Seq<char>) -> Seq<Seq<char>> {
    let (ls, cur) = line_scan(s);
    if cur.len() > 0 {
        ls.push(cur)
    } else {
        ls
    }
}

/// Folder named by a line `<DT><H3 ...>`: the text after the `>` that closes the
/// `<H3 ...>` tag up to the following `</H3>`; otherwise the folder stays `folder`.
pub open spec fn h3_folder(t: Seq<char>, folder: Seq<char>) -> Seq<char> {
    if starts_with(t, "<DT><H3"@) {
        match find_from(t, ">"@, 7) {
            Some(s) => {
                let rest = t.skip(s + 1);
                match find(rest, "</H3>"@) {
                    Some(e) => rest.take(e),
                    None => folder,
                }
            },
            None => folder,
        }
    } else {
        folder
    }
}

/// For a line `<DT><A ...HREF="url" ...>name</A>`: where the URL starts (after `HREF="`),
/// where it ends (the quote that closes the `HREF` value), where the name starts
/// (after the `>` that closes the `<A ...>` tag) and where it ends (the next `</A>`,
/// else the end of the line). `None` when the line is no such link.
pub open spec fn link_parts(t: Seq<char>) -> Option<(int, int, int, int)> {
    if starts_with(t, "<DT><A"@) {
        match find(t, "HREF=\""@) {
            Some(hs) => match find_from(t, "\""@, hs + 6) {
                Some(he) => match find_from(t, ">"@, he + 1) {
                    Some(g) => Some(
                        (
                            hs + 6,
                            he,
                            g + 1,
                            match find_from(t, "</A>"@, g + 1) {
                                Some(ne) => ne,
                                None => t.len() as int,
                            },
                        ),
                    ),
                    None => None,
                },
                None => None,
            },
            None => None,
        }
    } else {
        None
    }
}

/// The bookmark that a (trimmed) line names, filed in `folder`.
pub open spec fn line_entry(t: Seq<char>, folder: Seq<char>) -> Option<Entry> {
    match link_parts(t) {
        Some((us, he, ns, ne)) => Some((t.subrange(ns, ne), t.subrange(us, he), folder)),
        None => None,
    }
}

/// Reading lines in order: the current folder (starting as "Imported") and the links found.
pub open spec fn html_fold(ls: Seq<Seq<char>>) -> (Seq<char>, Seq<Entry>)
    decreases ls.len(),
{
    if ls.len() == 0 {
        ("Imported"@, Seq::empty())
    } else {
        let (f, es) = html_fold(ls.drop_last());
        let t = trim(ls.last());
        let f2 = h3_folder(t, f);
        (
            f2,
            match line_entry(t, f2) {
                Some(e) => es.push(e),
                None => es,
            },
        )
    }
}

/// The links of a Netscape bookmark file, in order, with their folders.
pub open spec fn html_entries(content: Seq<char>) -> Seq<Entry> {
    html_fold(lines_of(content)).1
}

/// The lines of a text.
pub fn split_lines(content: &str) -> (r: Vec<Vec<char>>)
    ensures
        r@.map_values(|l: Vec<char>| l@) == lines_of(content@),
{
    let v = chars_of(content);
    let mut lines: Vec<Vec<char>> = Vec::new();
    let mut cur: Vec<char> = Vec::new();
    let mut i: usize = 0;
    assert(v@.take(0) =~= Seq::<char>::empty());
    while i < v.len()
        invariant
            i <= v.len(),
            v@ == content@,
            line_scan(v@.take(i as int)) == (lines@.map_values(|l: Vec<char>| l@), cur@),
        decreases v.len() - i,
    {
        assert(v@.take(i + 1).drop_last() =~= v@.take(i as int));
        assert(v@.take(i + 1).last() == v@[i as int]);
        if v[i] == '\n' {
            let mut line = cur;
            let ghost before = line@;
            if line.len() > 0 && line[line.len() - 1] == '\r' {
                line.pop();
                assert(line@ =~= before.drop_last());
            }
            let ghost ls = lines@.map_values(|l: Vec<char>| l@);
            lines.push(line);
            assert(lines@.map_values(|l: Vec<char>| l@) =~= ls.push(strip_cr(before)));
            cur = Vec::new();
            assert(cur@ =~= Seq::<char>::empty());
        } else {
            cur.push(v[i]);
        }
        i += 1;
    }
    assert(v@.take(v.len() as int) =~= v@);
    if cur.len() > 0 {
        let ghost ls = lines@.map_values(|l: Vec<char>| l@);
        let ghost c = cur@;
        lines.push(cur);
        assert(lines@.map_values(|l: Vec<char>| l@) =~= ls.push(c));
    }
    lines
}

/// `v` without leading and trailing white space.
pub fn trim_chars(v: &Vec<char>) -> (r: Vec<char>)
    ensures
        r@ == trim(v@),
{
    let e = trim_end_count(v, v.len());
    assert(v@.take(v.len() as int) =~= v@);
    let s = trim_start_count(v, 0, e);
    assert(v@.subrange(0, e as int) =~= v@.take(e as int));
    let mut r: Vec<char> = Vec::new();
    let mut i = s;
    while i < e
        invariant
            s <= i <= e <= v.len(),
            r@ == v@.subrange(s as int, i as int),
        decreases e - i,
    {
        r.push(v[i]);
        assert(v@.subrange(s as int, i + 1) =~= v@.subrange(s as int, i as int).push(v@[i as int]));
        i += 1;
    }
    assert(v@.take(e as int).skip(s as int) =~= v@.subrange(s as int, e as int));
    r
}

fn starts_with_chars(v: &Vec<char>, prefix: &Vec<char>) -> (r: bool)
    ensures
        r == starts_with(v@, prefix@),
{
    let m = crate::text::matches_at(v, prefix, 0);
    assert(v@.subrange(0, prefix@.len() as int) =~= v@.take(prefix@.len() as int));
    m
}

/// Folder named by a line (see `h3_folder`).
pub fn line_folder(t: &Vec<char>, folder: &Vec<char>) -> (r: Vec<char>)
    ensures
        r@ == h3_folder(t@, folder@),
{
    if !starts_with_chars(t, &chars_of("<DT><H3")) {
        return folder.clone();
    }
    let tlen = t.len();
    let gt = chars_of(">");
    proof {
        lemma_marker_lengths();
    }
    match find_seq(t, &gt, 7) {
        None => folder.clone(),
        Some(s) => {
            proof {
                lemma_find_from_bounds(t@, ">"@, 7);
            }
            let mut rest: Vec<char> = Vec::new();
            let mut i = s + 1;
            while i < t.len()
                invariant
                    s + 1 <= i <= t.len(),
                    rest@ == t@.subrange(s + 1, i as int),
                decreases t.len() - i,
            {
                rest.push(t[i]);
                assert(t@.subrange(s + 1, i + 1) =~= t@.subrange(s + 1, i as int).push(t@[i as int]));
                i += 1;
            }
            assert(rest@ =~= t@.skip(s + 1));
            match find_seq(&rest, &chars_of("</H3>"), 0) {
                None => folder.clone(),
                Some(e) => {
                    proof {
                        lemma_find_from_bounds(rest@, "</H3>"@, 0);
                    }
                    let mut r: Vec<char> = Vec::new();
                    let mut j: usize = 0;
                    while j < e
                        invariant
                            j <= e <= rest.len(),
                            r@ == rest@.take(j as int),
                        decreases e - j,
                    {
                        r.push(rest[j]);
                        assert(rest@.take(j + 1) =~= rest@.take(j as int).push(rest@[j as int]));
                        j += 1;
                    }
                    r
                },
            }
        },
    }
}

/// Lengths of the markers the parser looks for.
pub proof fn lemma_marker_lengths()
    ensures
        ">"@.len() == 1,
        "</H3>"@.len() == 5,
        "HREF=\""@.len() == 6,
        "\">"@.len() == 2,
        "</A>"@.len() == 4,
        "\""@.len() == 1,
        "<DT><A"@.len() == 6,
        "<DT><H3"@.len() == 7,
{
    reveal_strlit(">");
    reveal_strlit("</H3>");
    reveal_strlit("HREF=\"");
    reveal_strlit("\">");
    reveal_strlit("</A>");
    reveal_strlit("\"");
    reveal_strlit("<DT><A");
    reveal_strlit("<DT><H3");
}

pub proof fn lemma_find_from_bounds(s: Seq<char>, needle: Seq<char>, from: int)
    ensures
        match find_from(s, needle, from) {
            Some(i) => from <= i && i + needle.len() <= s.len() && occurs_at(s, needle, i),
            None => true,
        },
    decreases s.len() + 1 - from,
{
    if !(from < 0 || from + needle.len() > s.len()) && !occurs_at(s, needle, from) {
        lemma_find_from_bounds(s, needle, from + 1);
    }
}

/// Where the URL and name of a link line are (see `link_parts`).
pub fn line_link(t: &Vec<char>) -> (r: Option<(usize, usize, usize, usize)>)
    ensures
        match link_parts(t@) {
            Some((us, he, ns, ne)) => r matches Some((a, b, c, d)) && a == us && b == he && c == ns
                && d == ne,
            None => r is None,
        },
        r matches Some((us, he, ns, ne)) ==> us <= he <= t@.len() && ns <= ne <= t@.len(),
{
    if !starts_with_chars(t, &chars_of("<DT><A")) {
        return None;
    }
    let tlen = t.len();
    proof {
        lemma_marker_lengths();
    }
    let hs = match find_seq(t, &chars_of("HREF=\""), 0) {
        Some(hs) => hs,
        None => return None,
    };
    proof {
        lemma_find_from_bounds(t@, "HREF=\""@, 0);
    }
    let us = hs + 6;
    let he = match find_seq(t, &chars_of("\""), us) {
        Some(he) => he,
        None => return None,
    };
    proof {
        lemma_find_from_bounds(t@, "\""@, us as int);
    }
    let g = match find_seq(t, &chars_of(">"), he + 1) {
        Some(g) => g,
        None => return None,
    };
    proof {
        lemma_find_from_bounds(t@, ">"@, he + 1);
        lemma_find_from_bounds(t@, "</A>"@, g + 1);
    }
    let ne = match find_seq(t, &chars_of("</A>"), g + 1) {
        Some(ne) => ne,
        None => t.len(),
    };
    Some((us, he, g + 1, ne))
}

/// Imports the links of a Netscape bookmark file (see `html_entries`); returns how
/// many bookmarks were added.
pub fn import_html_bookmarks(content: &str, store: &mut BookmarkStore) -> (count: usize)
    ensures
        imported(old(store).bookmarks@, final(store).bookmarks@, html_entries(content@)),
        final(store).version == old(store).version,
        count == final(store).bookmarks@.len() - old(store).bookmarks@.len(),
{
    let ghost olds = store.bookmarks@;
    proof {
        lemma_imported_refl(olds);
    }
    let lines = split_lines(content);
    let ghost lv = lines@.map_values(|l: Vec<char>| l@);
    let start = store.bookmarks.len();
    let mut folder: Vec<char> = chars_of("Imported");
    let n = lines.len();
    let mut i: usize = 0;
    assert(lv.take(0) =~= Seq::<Seq<char>>::empty());
    while i < n
        invariant
            i <= n == lines@.len(),
            lv == lines@.map_values(|l: Vec<char>| l@),
            lv == lines_of(content@),
            start == olds.len(),
            store.version == old(store).version,
            folder@ == html_fold(lv.take(i as int)).0,
            imported(olds, store.bookmarks@, html_fold(lv.take(i as int)).1),
        decreases n - i,
    {
        let ghost mid = store.bookmarks@;
        let ghost pre = lv.take(i as int);
        assert(lv.take(i + 1).drop_last() =~= pre);
        assert(lv.take(i + 1).last() == lines@[i as int]@);
        let t = trim_chars(&lines[i]);
        let tlen = t.len();
        folder = line_folder(&t, &folder);
        match line_link(&t) {
            Some((us, he, ns, ne)) => {
                let url = string_of(&t, us, he);
                let name = string_of(&t, ns, ne);
                let f = string_of(&folder, 0, folder.len());
                assert(folder@.subrange(0, folder@.len() as int) =~= folder@);
                let _ = import_entry(store, name, url, f);
                proof {
                    lemma_imported_trans(
                        olds,
                        mid,
                        store.bookmarks@,
                        html_fold(pre).1,
                        seq![line_entry(t@, folder@)->0],
                    );
                    assert(html_fold(lv.take(i + 1)).1 =~= html_fold(pre).1 + seq![line_entry(t@, folder@)->0]);
                }
            },
            None => {
                proof {
                    assert(html_fold(pre).1 + Seq::<Entry>::empty() =~= html_fold(pre).1);
                }
            },
        }
        i += 1;
    }
    assert(lv.take(n as int) =~= lv);
    store.bookmarks.len() - start
}

// ─── export ──────────────────────────────────────────────────────────────

/// Opening of an exported bookmark file.
pub open spec fn netscape_head() -> Seq<char> {
    "<!DOCTYPE NETSCAPE-Bookmark-file-1>\n"@ + "<META HTTP-EQUIV=\"Content-Type\" CONTENT=\"text/html; charset=UTF-8\">\n"@ + "<TITLE>Bookmarks</TITLE>\n"@ + "<H1>Bookmarks</H1>\n"@ + "<DL><p>\n"@
}

/// The folders of `bs` in order of first use, each once.
pub open spec fn distinct_folders(bs: Seq<Bookmark>) -> Seq<Seq<char>>
    decreases bs.len(),
{
    if bs.len() == 0 {
        Seq::empty()
    } else {
        let d = distinct_folders(bs.drop_last());
        if d.contains(bs.last().folder@) {
            d
        } else {
            d.push(bs.last().folder@)
        }
    }
}

/// The link line of one bookmark.
pub open spec fn link_line(b: Bookmark) -> Seq<char> {
    "        <DT><A HREF=\""@ + b.url@ + "\">"@ + b.name@ + "</A>\n"@
}

/// The link lines of the bookmarks of `bs` that are in folder `f`, in order.
pub open spec fn links_in(bs: Seq<Bookmark>, f: Seq<char>) -> Seq<char>
    decreases bs.len(),
{
    if bs.len() == 0 {
        Seq::empty()
    } else if bs.last().folder@ == f {
        links_in(bs.drop_last(), f) + link_line(bs.last())
    } else {
        links_in(bs.drop_last(), f)
    }
}

/// A folder heading with its links.
pub open spec fn folder_block(bs: Seq<Bookmark>, f: Seq<char>) -> Seq<char> {
    "    <DT><H3>"@ + f + "</H3>\n    <DL><p>\n"@ + links_in(bs, f) + "    </DL><p>\n"@
}

/// The blocks of the folders `fs`, in order.
pub open spec fn folder_blocks(bs: Seq<Bookmark>, fs: Seq<Seq<char>>) -> Seq<char>
    decreases fs.len(),
{
    if fs.len() == 0 {
        Seq::empty()
    } else {
        folder_blocks(bs, fs.drop_last()) + folder_block(bs, fs.last())
    }
}

/// The exported file: every folder in order of first use, with its bookmarks in order.
pub open spec fn netscape_html(bs: Seq<Bookmark>) -> Seq<char> {
    netscape_head() + folder_blocks(bs, distinct_folders(bs)) + "</DL><p>\n"@
}

/// The folders of the store in order of first use.
fn folders_in_order(bs: &Vec<Bookmark>) -> (r: Vec<String>)
    ensures
        r@.map_values(|s: String| s@) == distinct_folders(bs@),
{
    let mut r: Vec<String> = Vec::new();
    let n = bs.len();
    let mut i: usize = 0;
    assert(bs@.take(0) =~= Seq::<Bookmark>::empty());
    while i < n
        invariant
            i <= n == bs@.len(),
            r@.map_values(|s: String| s@) == distinct_folders(bs@.take(i as int)),
        decreases n - i,
    {
        assert(bs@.take(i + 1).drop_last() =~= bs@.take(i as int));
        assert(bs@.take(i + 1).last() == bs@[i as int]);
        if !crate::bookmark::contains_text(r.as_slice(), bs[i].folder.as_str()) {
            let ghost before = r@.map_values(|s: String| s@);
            r.push(bs[i].folder.clone());
            assert(r@.map_values(|s: String| s@) =~= before.push(bs@[i as int].folder@));
        }
        i += 1;
    }
    assert(bs@.take(n as int) =~= bs@);
    r
}

/// The store as a Netscape bookmark file (see `netscape_html`).
pub fn export_html(store: &BookmarkStore) -> (r: String)
    ensures
        r@ == netscape_html(store.bookmarks@),
{
    let bs = &store.bookmarks;
    let mut s = String::new();
    push_all(&mut s, "<!DOCTYPE NETSCAPE-Bookmark-file-1>\n");
    push_all(&mut s, "<META HTTP-EQUIV=\"Content-Type\" CONTENT=\"text/html; charset=UTF-8\">\n");
    push_all(&mut s, "<TITLE>Bookmarks</TITLE>\n");
    push_all(&mut s, "<H1>Bookmarks</H1>\n");
    push_all(&mut s, "<DL><p>\n");
    assert(s@ =~= netscape_head());
    let folders = folders_in_order(bs);
    let ghost fv = folders@.map_values(|s: String| s@);
    let m = folders.len();
    let mut k: usize = 0;
    assert(fv.take(0) =~= Seq::<Seq<char>>::empty());
    while k < m
        invariant
            k <= m == folders@.len(),
            fv == folders@.map_values(|s: String| s@),
            s@ == netscape_head() + folder_blocks(bs@, fv.take(k as int)),
        decreases m - k,
    {
        assert(fv.take(k + 1).drop_last() =~= fv.take(k as int));
        assert(fv.take(k + 1).last() == folders@[k as int]@);
        let f = &folders[k];
        let ghost before = s@;
        push_all(&mut s, "    <DT><H3>");
        push_all(&mut s, f.as_str());
        push_all(&mut s, "</H3>\n    <DL><p>\n");
        let ghost mid = s@;
        let n = bs.len();
        let mut i: usize = 0;
        assert(bs@.take(0) =~= Seq::<Bookmark>::empty());
        assert(mid =~= mid + links_in(bs@.take(0), f@));
        while i < n
            invariant
                i <= n == bs@.len(),
                s@ == mid + links_in(bs@.take(i as int), f@),
            decreases n - i,
        {
            assert(bs@.take(i + 1).drop_last() =~= bs@.take(i as int));
            assert(bs@.take(i + 1).last() == bs@[i as int]);
            if str_eq(bs[i].folder.as_str(), f.as_str()) {
                let ghost pre = s@;
                push_all(&mut s, "        <DT><A HREF=\"");
                push_all(&mut s, bs[i].url.as_str());
                push_all(&mut s, "\">");
                push_all(&mut s, bs[i].name.as_str());
                push_all(&mut s, "</A>\n");
                assert(s@ =~= pre + link_line(bs@[i as int]));
            }
            i += 1;
        }
        assert(bs@.take(n as int) =~= bs@);
        push_all(&mut s, "    </DL><p>\n");
        assert(s@ =~= before + folder_block(bs@, f@));
        k += 1;
    }
    assert(fv.take(m as int) =~= fv);
    push_all(&mut s, "</DL><p>\n");
    s
}

} // verus!
