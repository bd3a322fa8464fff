//! What reading an exported Netscape bookmark file gives back.
use vstd::prelude::*;
use crate::bookmark::Bookmark;
use crate::import_export::Entry;
use crate::netscape::{
    distinct_folders, folder_block, folder_blocks, h3_folder, html_entries, html_fold,
    line_entry, line_scan, lines_of, link_line, links_in, netscape_head, netscape_html, strip_cr,
};
use crate::text::{find_from, is_white_space, occurs_at, starts_with, trim, trim_end_len, trim_start_len};

verus! {

/// `t` holds no line feed.
pub open spec fn one_line(t: Seq<char>) -> bool {
    forall|i: int| 0 <= i < t.len() ==> #[trigger] t[i] != '\n'
}

/// `m` occurs nowhere in `t`.
pub open spec fn lacks(t: Seq<char>, m: Seq<char>) -> bool {
    forall|k: int| !#[trigger] occurs_at(t, m, k)
}

/// A URL that an exported link gives back: one line without `"` (which closes the
/// `HREF` value).
pub open spec fn url_ok(u: Seq<char>) -> bool {
    &&& one_line(u)
    &&& forall|i: int| 0 <= i < u.len() ==> #[trigger] u[i] != '"'
}

/// A name that an exported link gives back: one line without `</A>`.
pub open spec fn name_ok(n: Seq<char>) -> bool {
    one_line(n) && lacks(n, "</A>"@)
}

/// A folder that an exported heading gives back: one line without `</H3>`.
pub open spec fn folder_ok(f: Seq<char>) -> bool {
    one_line(f) && lacks(f, "</H3>"@)
}

/// The text of the lines `ls`, each ended by a line feed.
pub open spec fn joined(ls: Seq<Seq<char>>) -> Seq<char>
    decreases ls.len(),
{
    if ls.len() == 0 {
        Seq::empty()
    } else {
        joined(ls.drop_last()) + ls.last().push('\n')
    }
}

proof fn lemma_joined_concat(a: Seq<Seq<char>>, b: Seq<Seq<char>>)
    ensures
        joined(a + b) == joined(a) + joined(b),
    decreases b.len(),
{
    if b.len() == 0 {
        assert(a + b =~= a);
        assert(joined(a) + joined(b) =~= joined(a));
    } else {
        assert((a + b).drop_last() =~= a + b.drop_last());
        assert((a + b).last() == b.last());
        lemma_joined_concat(a, b.drop_last());
        assert(joined(a) + joined(b.drop_last()) + b.last().push('\n') =~= joined(a) + (joined(
            b.drop_last(),
        ) + b.last().push('\n')));
    }
}

/// A line of the file: no line feed inside, and no carriage return at its end.
pub open spec fn line_ok(l: Seq<char>) -> bool {
    &&& forall|i: int| 0 <= i < l.len() ==> #[trigger] l[i] != '\n'
    &&& (l.len() > 0 ==> l.last() != '\r')
}

proof fn lemma_scan_no_break(s: Seq<char>, t: Seq<char>)
    requires
        line_scan(s).1.len() == 0,
        forall|i: int| 0 <= i < t.len() ==> #[trigger] t[i] != '\n',
    ensures
        line_scan(s + t) == (line_scan(s).0, t),
    decreases t.len(),
{
    if t.len() == 0 {
        assert(s + t =~= s);
    } else {
        assert((s + t).drop_last() =~= s + t.drop_last());
        assert((s + t).last() == t.last());
        assert(t[t.len() - 1] == t.last());
        lemma_scan_no_break(s, t.drop_last());
        assert(t.drop_last().push(t.last()) =~= t);
    }
}

proof fn lemma_scan_joined(ls: Seq<Seq<char>>)
    requires
        forall|k: int| 0 <= k < ls.len() ==> line_ok(#[trigger] ls[k]),
    ensures
        line_scan(joined(ls)) == (ls, Seq::<char>::empty()),
    decreases ls.len(),
{
    if ls.len() == 0 {
        assert(line_scan(Seq::<char>::empty()).0 =~= ls);
    } else {
        let init = ls.drop_last();
        let l = ls.last();
        assert forall|k: int| 0 <= k < init.len() implies line_ok(#[trigger] init[k]) by {
            assert(init[k] == ls[k]);
        }
        lemma_scan_joined(init);
        assert(line_ok(ls[ls.len() - 1]));
        lemma_scan_no_break(joined(init), l);
        let s = joined(init) + l;
        assert(joined(ls) =~= s.push('\n'));
        assert(s.push('\n').drop_last() =~= s);
        assert(strip_cr(l) == l);
        assert(init.push(l) =~= ls);
    }
}

/// The lines of a text made of lines each ended by a line feed are those lines.
proof fn lemma_lines_of_joined(ls: Seq<Seq<char>>)
    requires
        forall|k: int| 0 <= k < ls.len() ==> line_ok(#[trigger] ls[k]),
    ensures
        lines_of(joined(ls)) == ls,
{
    lemma_scan_joined(ls);
}

proof fn lemma_find_first(s: Seq<char>, n: Seq<char>, from: int, k: int)
    requires
        0 <= from <= k,
        occurs_at(s, n, k),
        forall|j: int| from <= j < k ==> !occurs_at(s, n, j),
    ensures
        find_from(s, n, from) == Some(k),
    decreases k - from,
{
    if from < k {
        lemma_find_first(s, n, from + 1, k);
    }
}

proof fn lemma_trim_start_padded(pad: Seq<char>, core: Seq<char>)
    requires
        forall|i: int| 0 <= i < pad.len() ==> #[trigger] pad[i] == ' ',
        core.len() > 0,
        !is_white_space(core[0]),
    ensures
        trim_start_len(pad + core) == pad.len(),
    decreases pad.len(),
{
    if pad.len() == 0 {
        assert(pad + core =~= core);
    } else {
        assert((pad + core)[0] == ' ');
        assert((pad + core).drop_first() =~= pad.drop_first() + core);
        assert forall|i: int| 0 <= i < pad.drop_first().len() implies #[trigger] pad.drop_first()[i]
            == ' ' by {
            assert(pad.drop_first()[i] == pad[i + 1]);
        }
        lemma_trim_start_padded(pad.drop_first(), core);
    }
}

/// Trimming a line made of spaces and then a text that neither starts nor ends with
/// white space gives that text.
proof fn lemma_trim_padded(pad: Seq<char>, core: Seq<char>)
    requires
        forall|i: int| 0 <= i < pad.len() ==> #[trigger] pad[i] == ' ',
        core.len() > 0,
        !is_white_space(core[0]),
        !is_white_space(core.last()),
    ensures
        trim(pad + core) == core,
{
    let l = pad + core;
    assert(l.last() == core.last());
    assert(trim_end_len(l) == l.len());
    assert(l.take(l.len() as int) =~= l);
    lemma_trim_start_padded(pad, core);
    assert(l.skip(pad.len() as int) =~= core);
}

/// Reading one line: the folder a heading names, and the link a link line holds.
pub open spec fn fold_step(st: (Seq<char>, Seq<Entry>), l: Seq<char>) -> (Seq<char>, Seq<Entry>) {
    let t = trim(l);
    let f2 = h3_folder(t, st.0);
    (
        f2,
        match line_entry(t, f2) {
            Some(e) => st.1.push(e),
            None => st.1,
        },
    )
}

/// Reading lines one after the other, starting from `st`.
pub open spec fn fold_lines(st: (Seq<char>, Seq<Entry>), ls: Seq<Seq<char>>) -> (Seq<char>, Seq<Entry>)
    decreases ls.len(),
{
    if ls.len() == 0 {
        st
    } else {
        fold_step(fold_lines(st, ls.drop_last()), ls.last())
    }
}

proof fn lemma_html_fold_lines(ls: Seq<Seq<char>>)
    ensures
        html_fold(ls) == fold_lines(("Imported"@, Seq::<Entry>::empty()), ls),
    decreases ls.len(),
{
    if ls.len() > 0 {
        lemma_html_fold_lines(ls.drop_last());
    }
}

proof fn lemma_fold_lines_concat(st: (Seq<char>, Seq<Entry>), a: Seq<Seq<char>>, b: Seq<Seq<char>>)
    ensures
        fold_lines(st, a + b) == fold_lines(fold_lines(st, a), b),
    decreases b.len(),
{
    if b.len() == 0 {
        assert(a + b =~= a);
    } else {
        assert((a + b).drop_last() =~= a + b.drop_last());
        assert((a + b).last() == b.last());
        lemma_fold_lines_concat(st, a, b.drop_last());
    }
}

/// Eight spaces, the indentation of a link line.
pub open spec fn pad8() -> Seq<char> {
    "        "@
}

/// Four spaces, the indentation of a folder heading.
pub open spec fn pad4() -> Seq<char> {
    "    "@
}

/// A link line without its indentation.
pub open spec fn link_text(b: Bookmark) -> Seq<char> {
    "<DT><A HREF=\""@ + b.url@ + "\">"@ + b.name@ + "</A>"@
}

/// A folder heading without its indentation.
pub open spec fn heading_text(f: Seq<char>) -> Seq<char> {
    "<DT><H3>"@ + f + "</H3>"@
}

proof fn lemma_pads()
    ensures
        forall|i: int| 0 <= i < pad8().len() ==> #[trigger] pad8()[i] == ' ',
        forall|i: int| 0 <= i < pad4().len() ==> #[trigger] pad4()[i] == ' ',
        pad8().len() == 8,
        pad4().len() == 4,
{
    reveal_strlit("        ");
    reveal_strlit("    ");
}

proof fn lemma_not_link_or_heading(core: Seq<char>)
    requires
        core.len() >= 3,
        core[1] != 'D' || core[2] != 'T',
    ensures
        !starts_with(core, "<DT><A"@),
        !starts_with(core, "<DT><H3"@),
        crate::netscape::link_parts(core) is None,
{
    reveal_strlit("<DT><A");
    reveal_strlit("<DT><H3");
    if starts_with(core, "<DT><A"@) {
        assert(core.take(6)[1] == core[1]);
        assert(core.take(6)[2] == core[2]);
    }
    if starts_with(core, "<DT><H3"@) {
        assert(core.take(7)[1] == core[1]);
        assert(core.take(7)[2] == core[2]);
    }
}

/// A line that is neither a folder heading nor a link changes nothing.
proof fn lemma_inert_line(pad: Seq<char>, core: Seq<char>, st: (Seq<char>, Seq<Entry>))
    requires
        forall|i: int| 0 <= i < pad.len() ==> #[trigger] pad[i] == ' ',
        core.len() >= 3,
        core[0] == '<',
        core.last() == '>',
        core[1] != 'D' || core[2] != 'T',
    ensures
        fold_step(st, pad + core) == st,
{
    lemma_trim_padded(pad, core);
    lemma_not_link_or_heading(core);
}

/// An indented link line adds its bookmark's name and URL, filed in the current folder.
proof fn lemma_link_line(b: Bookmark, st: (Seq<char>, Seq<Entry>))
    requires
        url_ok(b.url@),
        name_ok(b.name@),
    ensures
        fold_step(st, pad8() + link_text(b)) == (st.0, st.1.push((b.name@, b.url@, st.0))),
{
    reveal_strlit("<DT><A HREF=\"");
    reveal_strlit("\">");
    reveal_strlit("</A>");
    reveal_strlit("<DT><A");
    reveal_strlit("<DT><H3");
    reveal_strlit("HREF=\"");
    reveal_strlit("\"");
    reveal_strlit(">");
    lemma_pads();
    let u = b.url@;
    let n = b.name@;
    let p = "<DT><A HREF=\""@;
    let r = "</A>"@;
    let t = link_text(b);
    let ul = u.len() as int;
    let nl = n.len() as int;
    assert(t.len() == 19 + ul + nl);
    assert(forall|j: int| 0 <= j < 13 ==> #[trigger] t[j] == p[j]);
    assert(forall|j: int| 13 <= j < 13 + ul ==> #[trigger] t[j] == u[j - 13]);
    assert(t[13 + ul] == '"' && t[14 + ul] == '>');
    assert(forall|j: int| 15 + ul <= j < 15 + ul + nl ==> #[trigger] t[j] == n[j - 15 - ul]);
    assert(t[15 + ul + nl] == '<' && t[16 + ul + nl] == '/' && t[17 + ul + nl] == 'A' && t[18 + ul
        + nl] == '>');
    assert(t.last() == '>');
    lemma_trim_padded(pad8(), t);
    assert(!starts_with(t, "<DT><H3"@)) by {
        if starts_with(t, "<DT><H3"@) {
            assert(t.take(7)[5] == t[5]);
        }
    }
    assert(starts_with(t, "<DT><A"@)) by {
        assert(t.take(6) =~= "<DT><A"@);
    }
    let href = "HREF=\""@;
    assert(occurs_at(t, href, 7)) by {
        assert(t.subrange(7, 13) =~= href);
    }
    assert forall|j: int| 0 <= j < 7 implies !occurs_at(t, href, j) by {
        if occurs_at(t, href, j) {
            assert(t.subrange(j, j + 6)[0] == t[j]);
        }
    }
    lemma_find_first(t, href, 0, 7);
    let quote = "\""@;
    assert(occurs_at(t, quote, 13 + ul)) by {
        assert(t.subrange(13 + ul, 14 + ul) =~= quote);
    }
    assert forall|j: int| 13 <= j < 13 + ul implies !occurs_at(t, quote, j) by {
        if occurs_at(t, quote, j) {
            assert(t.subrange(j, j + 1)[0] == t[j]);
            assert(u[j - 13] != '"');
        }
    }
    lemma_find_first(t, quote, 13, 13 + ul);
    assert(occurs_at(t, ">"@, 14 + ul)) by {
        assert(t.subrange(14 + ul, 15 + ul) =~= ">"@);
    }
    lemma_find_first(t, ">"@, 14 + ul, 14 + ul);
    assert(occurs_at(t, r, 15 + ul + nl)) by {
        assert(t.subrange(15 + ul + nl, 19 + ul + nl) =~= r);
    }
    assert forall|j: int| 15 + ul <= j < 15 + ul + nl implies !occurs_at(t, r, j) by {
        if occurs_at(t, r, j) {
            if j + 4 <= 15 + ul + nl {
                assert(n.subrange(j - 15 - ul, j - 11 - ul) =~= t.subrange(j, j + 4));
                assert(occurs_at(n, r, j - 15 - ul));
            } else {
                let d = 15 + ul + nl - j;
                assert(t.subrange(j, j + 4)[d] == t[j + d]);
            }
        }
    }
    lemma_find_first(t, r, 15 + ul, 15 + ul + nl);
    assert(t.subrange(15 + ul, 15 + ul + nl) =~= n);
    assert(t.subrange(13, 13 + ul) =~= u);
}

/// An indented folder heading makes its folder the current folder.
proof fn lemma_heading_line(g: Seq<char>, st: (Seq<char>, Seq<Entry>))
    requires
        folder_ok(g),
    ensures
        fold_step(st, pad4() + heading_text(g)) == (g, st.1),
{
    reveal_strlit("<DT><H3>");
    reveal_strlit("</H3>");
    reveal_strlit("<DT><H3");
    reveal_strlit(">");
    lemma_pads();
    let t = heading_text(g);
    let gl = g.len() as int;
    let e = "</H3>"@;
    assert(t.len() == 13 + gl);
    assert(t[0] == '<' && t[1] == 'D' && t[2] == 'T' && t[3] == '>' && t[4] == '<' && t[5] == 'H'
        && t[6] == '3' && t[7] == '>');
    assert(forall|j: int| 8 <= j < 8 + gl ==> #[trigger] t[j] == g[j - 8]);
    assert(t.last() == '>');
    lemma_trim_padded(pad4(), t);
    lemma_not_link_or_heading_a(t);
    assert(starts_with(t, "<DT><H3"@)) by {
        assert(t.take(7) =~= "<DT><H3"@);
    }
    assert(occurs_at(t, ">"@, 7)) by {
        assert(t.subrange(7, 8) =~= ">"@);
    }
    lemma_find_first(t, ">"@, 7, 7);
    let rest = t.skip(8);
    assert(rest =~= g + e);
    assert(occurs_at(rest, e, gl)) by {
        assert(rest.subrange(gl, 5 + gl) =~= e);
    }
    assert forall|j: int| 0 <= j < gl implies !occurs_at(rest, e, j) by {
        if occurs_at(rest, e, j) {
            if j + 5 <= gl {
                assert(g.subrange(j, j + 5) =~= rest.subrange(j, j + 5));
                assert(occurs_at(g, e, j));
            } else {
                let d = gl - j;
                assert(rest.subrange(j, j + 5)[d] == rest[gl]);
            }
        }
    }
    lemma_find_first(rest, e, 0, gl);
    assert(rest.take(gl) =~= g);
}

proof fn lemma_not_link_or_heading_a(t: Seq<char>)
    requires
        t.len() >= 6,
        t[5] != 'A',
    ensures
        crate::netscape::link_parts(t) is None,
{
    reveal_strlit("<DT><A");
    if starts_with(t, "<DT><A"@) {
        assert(t.take(6)[5] == t[5]);
    }
}

// ─── the exported file as lines ──────────────────────────────────────────

/// The link lines of the bookmarks of `bs` in folder `f`, in order.
pub open spec fn link_lines(bs: Seq<Bookmark>, f: Seq<char>) -> Seq<Seq<char>>
    decreases bs.len(),
{
    if bs.len() == 0 {
        Seq::empty()
    } else if bs.last().folder@ == f {
        link_lines(bs.drop_last(), f).push(pad8() + link_text(bs.last()))
    } else {
        link_lines(bs.drop_last(), f)
    }
}

/// The lines of one folder's block.
pub open spec fn block_lines(bs: Seq<Bookmark>, f: Seq<char>) -> Seq<Seq<char>> {
    seq![pad4() + heading_text(f), pad4() + "<DL><p>"@] + link_lines(bs, f) + seq![
        pad4() + "</DL><p>"@,
    ]
}

/// The lines of the blocks of the folders `fs`, in order.
pub open spec fn blocks_lines(bs: Seq<Bookmark>, fs: Seq<Seq<char>>) -> Seq<Seq<char>>
    decreases fs.len(),
{
    if fs.len() == 0 {
        Seq::empty()
    } else {
        blocks_lines(bs, fs.drop_last()) + block_lines(bs, fs.last())
    }
}

/// The opening lines of an exported file.
pub open spec fn head_lines() -> Seq<Seq<char>> {
    seq![
        "<!DOCTYPE NETSCAPE-Bookmark-file-1>"@,
        "<META HTTP-EQUIV=\"Content-Type\" CONTENT=\"text/html; charset=UTF-8\">"@,
        "<TITLE>Bookmarks</TITLE>"@,
        "<H1>Bookmarks</H1>"@,
        "<DL><p>"@,
    ]
}

/// All lines of the file that `export_html` writes.
pub open spec fn export_lines(bs: Seq<Bookmark>) -> Seq<Seq<char>> {
    head_lines() + blocks_lines(bs, distinct_folders(bs)) + seq!["</DL><p>"@]
}

proof fn lemma_joined_one(x: Seq<char>)
    ensures
        joined(seq![x]) == x.push('\n'),
{
    assert(seq![x].drop_last() =~= Seq::<Seq<char>>::empty());
    assert(seq![x].last() == x);
    assert(joined(Seq::<Seq<char>>::empty()) =~= Seq::<char>::empty());
    assert(Seq::<char>::empty() + x.push('\n') =~= x.push('\n'));
}

proof fn lemma_joined_two(x: Seq<char>, y: Seq<char>)
    ensures
        joined(seq![x, y]) == x.push('\n') + y.push('\n'),
{
    assert(seq![x, y].drop_last() =~= seq![x]);
    lemma_joined_one(x);
}

proof fn lemma_link_line_text(b: Bookmark)
    ensures
        link_line(b) == pad8() + link_text(b) + seq!['\n'],
{
    reveal_strlit("        <DT><A HREF=\"");
    reveal_strlit("<DT><A HREF=\"");
    reveal_strlit("        ");
    reveal_strlit("</A>\n");
    reveal_strlit("</A>");
    assert("        <DT><A HREF=\""@ =~= "        "@ + "<DT><A HREF=\""@);
    assert("</A>\n"@ =~= "</A>"@ + seq!['\n']);
    assert(link_line(b) =~= pad8() + link_text(b) + seq!['\n']);
}

proof fn lemma_links_joined(bs: Seq<Bookmark>, f: Seq<char>)
    ensures
        links_in(bs, f) == joined(link_lines(bs, f)),
    decreases bs.len(),
{
    if bs.len() > 0 {
        lemma_links_joined(bs.drop_last(), f);
        if bs.last().folder@ == f {
            lemma_link_line_text(bs.last());
            let ls = link_lines(bs.drop_last(), f);
            let x = pad8() + link_text(bs.last());
            assert(ls.push(x).drop_last() =~= ls);
            assert(x.push('\n') =~= x + seq!['\n']);
        }
    }
}

proof fn lemma_block_joined(bs: Seq<Bookmark>, f: Seq<char>)
    ensures
        folder_block(bs, f) == joined(block_lines(bs, f)),
{
    reveal_strlit("    <DT><H3>");
    reveal_strlit("<DT><H3>");
    reveal_strlit("    ");
    reveal_strlit("</H3>\n    <DL><p>\n");
    reveal_strlit("</H3>");
    reveal_strlit("<DL><p>");
    reveal_strlit("    </DL><p>\n");
    reveal_strlit("</DL><p>");
    let a = seq![pad4() + heading_text(f), pad4() + "<DL><p>"@];
    let l = link_lines(bs, f);
    let c = seq![pad4() + "</DL><p>"@];
    lemma_joined_concat(a + l, c);
    lemma_joined_concat(a, l);
    lemma_joined_two(pad4() + heading_text(f), pad4() + "<DL><p>"@);
    lemma_joined_one(pad4() + "</DL><p>"@);
    lemma_links_joined(bs, f);
    assert("    <DT><H3>"@ =~= pad4() + "<DT><H3>"@);
    assert("</H3>\n    <DL><p>\n"@ =~= "</H3>"@ + seq!['\n'] + pad4() + "<DL><p>"@ + seq!['\n']);
    assert("    </DL><p>\n"@ =~= (pad4() + "</DL><p>"@).push('\n'));
    assert(folder_block(bs, f) =~= joined(block_lines(bs, f)));
}

proof fn lemma_blocks_joined(bs: Seq<Bookmark>, fs: Seq<Seq<char>>)
    ensures
        folder_blocks(bs, fs) == joined(blocks_lines(bs, fs)),
    decreases fs.len(),
{
    if fs.len() > 0 {
        lemma_blocks_joined(bs, fs.drop_last());
        lemma_block_joined(bs, fs.last());
        lemma_joined_concat(blocks_lines(bs, fs.drop_last()), block_lines(bs, fs.last()));
    }
}

proof fn lemma_head_joined()
    ensures
        netscape_head() == joined(head_lines()),
{
    let l0 = "<!DOCTYPE NETSCAPE-Bookmark-file-1>"@;
    let l1 = "<META HTTP-EQUIV=\"Content-Type\" CONTENT=\"text/html; charset=UTF-8\">"@;
    let l2 = "<TITLE>Bookmarks</TITLE>"@;
    let l3 = "<H1>Bookmarks</H1>"@;
    let l4 = "<DL><p>"@;
    reveal_strlit("<!DOCTYPE NETSCAPE-Bookmark-file-1>");
    reveal_strlit("<META HTTP-EQUIV=\"Content-Type\" CONTENT=\"text/html; charset=UTF-8\">");
    reveal_strlit("<TITLE>Bookmarks</TITLE>");
    reveal_strlit("<H1>Bookmarks</H1>");
    reveal_strlit("<DL><p>");
    reveal_strlit("<!DOCTYPE NETSCAPE-Bookmark-file-1>\n");
    reveal_strlit("<META HTTP-EQUIV=\"Content-Type\" CONTENT=\"text/html; charset=UTF-8\">\n");
    reveal_strlit("<TITLE>Bookmarks</TITLE>\n");
    reveal_strlit("<H1>Bookmarks</H1>\n");
    reveal_strlit("<DL><p>\n");
    let h = head_lines();
    assert(h.drop_last() =~= seq![l0, l1, l2, l3]);
    assert(seq![l0, l1, l2, l3].drop_last() =~= seq![l0, l1, l2]);
    assert(seq![l0, l1, l2].drop_last() =~= seq![l0, l1]);
    lemma_joined_two(l0, l1);
    assert(joined(seq![l0, l1, l2]) == joined(seq![l0, l1]) + l2.push('\n'));
    assert(joined(seq![l0, l1, l2, l3]) == joined(seq![l0, l1, l2]) + l3.push('\n'));
    assert(joined(h) == joined(seq![l0, l1, l2, l3]) + l4.push('\n'));
    assert(netscape_head() =~= joined(head_lines()));
}

proof fn lemma_export_joined(bs: Seq<Bookmark>)
    ensures
        netscape_html(bs) == joined(export_lines(bs)),
{
    reveal_strlit("</DL><p>\n");
    reveal_strlit("</DL><p>");
    let fs = distinct_folders(bs);
    lemma_head_joined();
    lemma_blocks_joined(bs, fs);
    lemma_joined_concat(head_lines() + blocks_lines(bs, fs), seq!["</DL><p>"@]);
    lemma_joined_concat(head_lines(), blocks_lines(bs, fs));
    lemma_joined_one("</DL><p>"@);
    assert("</DL><p>\n"@ =~= "</DL><p>"@.push('\n'));
}

// ─── reading the lines back ──────────────────────────────────────────────

/// Names, URLs and folders of `bs` are all read back as written (`name_ok`, `url_ok`,
/// `folder_ok`).
pub open spec fn all_plain(bs: Seq<Bookmark>) -> bool {
    forall|i: int|
        0 <= i < bs.len() ==> name_ok((#[trigger] bs[i]).name@) && url_ok(bs[i].url@) && folder_ok(
            bs[i].folder@,
        )
}

/// The bookmarks of `bs` in folder `f`, in order, as read back: name, URL and the
/// folder `folder`.
pub open spec fn entries_in(bs: Seq<Bookmark>, f: Seq<char>, folder: Seq<char>) -> Seq<Entry>
    decreases bs.len(),
{
    if bs.len() == 0 {
        Seq::empty()
    } else if bs.last().folder@ == f {
        entries_in(bs.drop_last(), f, folder).push((bs.last().name@, bs.last().url@, folder))
    } else {
        entries_in(bs.drop_last(), f, folder)
    }
}

/// What reading back the blocks of the folders `fs` lists: each folder's bookmarks,
/// filed under that folder.
pub open spec fn read_back_all(bs: Seq<Bookmark>, fs: Seq<Seq<char>>) -> Seq<Entry>
    decreases fs.len(),
{
    if fs.len() == 0 {
        Seq::empty()
    } else {
        read_back_all(bs, fs.drop_last()) + entries_in(bs, fs.last(), fs.last())
    }
}

proof fn lemma_all_plain_init(bs: Seq<Bookmark>)
    requires
        all_plain(bs),
        bs.len() > 0,
    ensures
        all_plain(bs.drop_last()),
        name_ok(bs.last().name@) && url_ok(bs.last().url@) && folder_ok(bs.last().folder@),
{
    assert forall|i: int| 0 <= i < bs.drop_last().len() implies name_ok((#[trigger] bs.drop_last()[i]).name@)
        && url_ok(bs.drop_last()[i].url@) && folder_ok(bs.drop_last()[i].folder@) by {
        assert(bs.drop_last()[i] == bs[i]);
    }
    assert(bs[bs.len() - 1] == bs.last());
}

proof fn lemma_fold_links(bs: Seq<Bookmark>, g: Seq<char>, st: (Seq<char>, Seq<Entry>))
    requires
        all_plain(bs),
    ensures
        fold_lines(st, link_lines(bs, g)) == (st.0, st.1 + entries_in(bs, g, st.0)),
    decreases bs.len(),
{
    if bs.len() == 0 {
        assert(st.1 + Seq::<Entry>::empty() =~= st.1);
    } else {
        lemma_all_plain_init(bs);
        lemma_fold_links(bs.drop_last(), g, st);
        if bs.last().folder@ == g {
            let ls = link_lines(bs.drop_last(), g);
            let x = pad8() + link_text(bs.last());
            assert(ls.push(x).drop_last() =~= ls);
            lemma_link_line(bs.last(), fold_lines(st, ls));
            assert(st.1 + entries_in(bs.drop_last(), g, st.0).push(
                (bs.last().name@, bs.last().url@, st.0),
            ) =~= (st.1 + entries_in(bs.drop_last(), g, st.0)).push(
                (bs.last().name@, bs.last().url@, st.0),
            ));
        }
    }
}

proof fn lemma_dl_lines()
    ensures
        ("<DL><p>"@).len() >= 3 && "<DL><p>"@[0] == '<' && "<DL><p>"@.last() == '>' && "<DL><p>"@[2]
            != 'T',
        ("</DL><p>"@).len() >= 3 && "</DL><p>"@[0] == '<' && "</DL><p>"@.last() == '>'
            && "</DL><p>"@[1] != 'D',
{
    reveal_strlit("<DL><p>");
    reveal_strlit("</DL><p>");
}

proof fn lemma_fold_block(bs: Seq<Bookmark>, g: Seq<char>, st: (Seq<char>, Seq<Entry>))
    requires
        all_plain(bs),
        folder_ok(g),
    ensures
        fold_lines(st, block_lines(bs, g)) == (g, st.1 + entries_in(bs, g, g)),
{
    lemma_pads();
    lemma_dl_lines();
    let h = pad4() + heading_text(g);
    let dl = pad4() + "<DL><p>"@;
    let a = seq![h, dl];
    let l = link_lines(bs, g);
    let c = seq![pad4() + "</DL><p>"@];
    lemma_fold_lines_concat(st, a + l, c);
    lemma_fold_lines_concat(st, a, l);
    assert(a.drop_last() =~= seq![h]);
    assert(a.last() == dl);
    assert(seq![h].drop_last() =~= Seq::<Seq<char>>::empty());
    assert(seq![h].last() == h);
    assert(fold_lines(st, Seq::<Seq<char>>::empty()) == st);
    lemma_heading_line(g, st);
    let st1 = (g, st.1);
    assert(fold_lines(st, seq![h]) == st1);
    lemma_inert_line(pad4(), "<DL><p>"@, st1);
    assert(fold_lines(st, a) == st1);
    lemma_fold_links(bs, g, st1);
    let st2 = fold_lines(st1, l);
    assert(c.drop_last() =~= Seq::<Seq<char>>::empty());
    assert(c.last() == pad4() + "</DL><p>"@);
    assert(fold_lines(st2, Seq::<Seq<char>>::empty()) == st2);
    lemma_inert_line(pad4(), "</DL><p>"@, st2);
    assert(fold_lines(st2, c) == st2);
}

proof fn lemma_distinct_folders_plain(bs: Seq<Bookmark>)
    requires
        all_plain(bs),
    ensures
        forall|k: int| 0 <= k < distinct_folders(bs).len() ==> folder_ok(#[trigger] distinct_folders(bs)[k]),
    decreases bs.len(),
{
    if bs.len() > 0 {
        lemma_all_plain_init(bs);
        lemma_distinct_folders_plain(bs.drop_last());
        let d = distinct_folders(bs.drop_last());
        let x = bs.last().folder@;
        assert forall|k: int| 0 <= k < d.push(x).len() implies folder_ok(#[trigger] d.push(x)[k]) by {
            if k < d.len() {
                assert(d.push(x)[k] == d[k]);
            }
        }
    }
}

proof fn lemma_fold_blocks(bs: Seq<Bookmark>, fs: Seq<Seq<char>>, st: (Seq<char>, Seq<Entry>))
    requires
        all_plain(bs),
        forall|k: int| 0 <= k < fs.len() ==> folder_ok(#[trigger] fs[k]),
    ensures
        fold_lines(st, blocks_lines(bs, fs)).1 == st.1 + read_back_all(bs, fs),
    decreases fs.len(),
{
    if fs.len() == 0 {
        assert(st.1 + Seq::<Entry>::empty() =~= st.1);
    } else {
        assert forall|k: int| 0 <= k < fs.drop_last().len() implies folder_ok(#[trigger] fs.drop_last()[k]) by {
            assert(fs.drop_last()[k] == fs[k]);
        }
        lemma_fold_blocks(bs, fs.drop_last(), st);
        lemma_fold_lines_concat(st, blocks_lines(bs, fs.drop_last()), block_lines(bs, fs.last()));
        assert(folder_ok(fs[fs.len() - 1]));
        lemma_fold_block(bs, fs.last(), fold_lines(st, blocks_lines(bs, fs.drop_last())));
        assert(st.1 + read_back_all(bs, fs.drop_last()) + entries_in(bs, fs.last(), fs.last())
            =~= st.1 + (read_back_all(bs, fs.drop_last()) + entries_in(
            bs,
            fs.last(),
            fs.last(),
        )));
    }
}

proof fn lemma_fold_head(st: (Seq<char>, Seq<Entry>))
    ensures
        fold_lines(st, head_lines()) == st,
{
    let l0 = "<!DOCTYPE NETSCAPE-Bookmark-file-1>"@;
    let l1 = "<META HTTP-EQUIV=\"Content-Type\" CONTENT=\"text/html; charset=UTF-8\">"@;
    let l2 = "<TITLE>Bookmarks</TITLE>"@;
    let l3 = "<H1>Bookmarks</H1>"@;
    let l4 = "<DL><p>"@;
    reveal_strlit("<!DOCTYPE NETSCAPE-Bookmark-file-1>");
    reveal_strlit("<META HTTP-EQUIV=\"Content-Type\" CONTENT=\"text/html; charset=UTF-8\">");
    reveal_strlit("<TITLE>Bookmarks</TITLE>");
    reveal_strlit("<H1>Bookmarks</H1>");
    reveal_strlit("<DL><p>");
    let e = Seq::<char>::empty();
    assert(forall|i: int| 0 <= i < e.len() ==> #[trigger] e[i] == ' ');
    assert(e + l0 =~= l0 && e + l1 =~= l1 && e + l2 =~= l2 && e + l3 =~= l3 && e + l4 =~= l4);
    lemma_inert_line(e, l0, st);
    lemma_inert_line(e, l1, st);
    lemma_inert_line(e, l2, st);
    lemma_inert_line(e, l3, st);
    lemma_inert_line(e, l4, st);
    let h = head_lines();
    assert(h.drop_last() =~= seq![l0, l1, l2, l3]);
    assert(seq![l0, l1, l2, l3].drop_last() =~= seq![l0, l1, l2]);
    assert(seq![l0, l1, l2].drop_last() =~= seq![l0, l1]);
    assert(seq![l0, l1].drop_last() =~= seq![l0]);
    assert(seq![l0].drop_last() =~= Seq::<Seq<char>>::empty());
    assert(fold_lines(st, Seq::<Seq<char>>::empty()) == st);
    assert(fold_lines(st, seq![l0]) == st);
    assert(fold_lines(st, seq![l0, l1]) == st);
    assert(fold_lines(st, seq![l0, l1, l2]) == st);
    assert(fold_lines(st, seq![l0, l1, l2, l3]) == st);
    assert(h.last() == l4);
}

/// Every line of `ls` is a proper line (see `line_ok`).
pub open spec fn lines_ok(ls: Seq<Seq<char>>) -> bool {
    forall|k: int| 0 <= k < ls.len() ==> line_ok(#[trigger] ls[k])
}

proof fn lemma_lines_ok_concat(a: Seq<Seq<char>>, b: Seq<Seq<char>>)
    requires
        lines_ok(a),
        lines_ok(b),
    ensures
        lines_ok(a + b),
{
    assert forall|k: int| 0 <= k < (a + b).len() implies line_ok(#[trigger] (a + b)[k]) by {
        if k < a.len() {
            assert((a + b)[k] == a[k]);
        } else {
            assert((a + b)[k] == b[k - a.len()]);
        }
    }
}

/// A line ending in `>` whose characters are no line feeds is a proper line.
proof fn lemma_line_ok_of(l: Seq<char>)
    requires
        l.len() > 0,
        l.last() == '>',
        forall|i: int| 0 <= i < l.len() ==> #[trigger] l[i] != '\n',
    ensures
        line_ok(l),
{
}

proof fn lemma_link_line_ok(b: Bookmark)
    requires
        url_ok(b.url@),
        name_ok(b.name@),
    ensures
        line_ok(pad8() + link_text(b)),
{
    reveal_strlit("<DT><A HREF=\"");
    reveal_strlit("\">");
    reveal_strlit("</A>");
    lemma_pads();
    let l = pad8() + link_text(b);
    let ul = b.url@.len() as int;
    let nl = b.name@.len() as int;
    assert forall|i: int| 0 <= i < l.len() implies #[trigger] l[i] != '\n' by {
        if 21 <= i < 21 + ul {
            assert(l[i] == b.url@[i - 21]);
        } else if 23 + ul <= i < 23 + ul + nl {
            assert(l[i] == b.name@[i - 23 - ul]);
        }
    }
    lemma_line_ok_of(l);
}

proof fn lemma_link_lines_ok(bs: Seq<Bookmark>, g: Seq<char>)
    requires
        all_plain(bs),
    ensures
        lines_ok(link_lines(bs, g)),
    decreases bs.len(),
{
    if bs.len() > 0 {
        lemma_all_plain_init(bs);
        lemma_link_lines_ok(bs.drop_last(), g);
        if bs.last().folder@ == g {
            lemma_link_line_ok(bs.last());
            lemma_lines_ok_concat(link_lines(bs.drop_last(), g), seq![pad8() + link_text(bs.last())]);
            assert(link_lines(bs.drop_last(), g).push(pad8() + link_text(bs.last())) =~= link_lines(
                bs.drop_last(),
                g,
            ) + seq![pad8() + link_text(bs.last())]);
        }
    }
}

proof fn lemma_block_lines_ok(bs: Seq<Bookmark>, g: Seq<char>)
    requires
        all_plain(bs),
        folder_ok(g),
    ensures
        lines_ok(block_lines(bs, g)),
{
    reveal_strlit("<DT><H3>");
    reveal_strlit("</H3>");
    reveal_strlit("<DL><p>");
    reveal_strlit("</DL><p>");
    lemma_pads();
    let h = pad4() + heading_text(g);
    let gl = g.len() as int;
    assert forall|i: int| 0 <= i < h.len() implies #[trigger] h[i] != '\n' by {
        if 12 <= i < 12 + gl {
            assert(h[i] == g[i - 12]);
        }
    }
    lemma_line_ok_of(h);
    let dl = pad4() + "<DL><p>"@;
    let end = pad4() + "</DL><p>"@;
    assert forall|i: int| 0 <= i < dl.len() implies #[trigger] dl[i] != '\n' by {}
    assert forall|i: int| 0 <= i < end.len() implies #[trigger] end[i] != '\n' by {}
    lemma_line_ok_of(dl);
    lemma_line_ok_of(end);
    let a = seq![h, dl];
    assert(lines_ok(a)) by {
        assert forall|k: int| 0 <= k < a.len() implies line_ok(#[trigger] a[k]) by {
            if k == 0 {
                assert(a[k] == h);
            } else {
                assert(a[k] == dl);
            }
        }
    }
    assert(lines_ok(seq![end])) by {
        assert forall|k: int| 0 <= k < seq![end].len() implies line_ok(#[trigger] seq![end][k]) by {
            assert(seq![end][k] == end);
        }
    }
    lemma_link_lines_ok(bs, g);
    lemma_lines_ok_concat(a, link_lines(bs, g));
    lemma_lines_ok_concat(a + link_lines(bs, g), seq![end]);
}

proof fn lemma_blocks_lines_ok(bs: Seq<Bookmark>, fs: Seq<Seq<char>>)
    requires
        all_plain(bs),
        forall|k: int| 0 <= k < fs.len() ==> folder_ok(#[trigger] fs[k]),
    ensures
        lines_ok(blocks_lines(bs, fs)),
    decreases fs.len(),
{
    if fs.len() > 0 {
        assert forall|k: int| 0 <= k < fs.drop_last().len() implies folder_ok(#[trigger] fs.drop_last()[k]) by {
            assert(fs.drop_last()[k] == fs[k]);
        }
        lemma_blocks_lines_ok(bs, fs.drop_last());
        assert(folder_ok(fs[fs.len() - 1]));
        lemma_block_lines_ok(bs, fs.last());
        lemma_lines_ok_concat(blocks_lines(bs, fs.drop_last()), block_lines(bs, fs.last()));
    }
}

proof fn lemma_head_lines_ok()
    ensures
        lines_ok(head_lines()),
        lines_ok(seq!["</DL><p>"@]),
{
    reveal_strlit("<!DOCTYPE NETSCAPE-Bookmark-file-1>");
    reveal_strlit("<META HTTP-EQUIV=\"Content-Type\" CONTENT=\"text/html; charset=UTF-8\">");
    reveal_strlit("<TITLE>Bookmarks</TITLE>");
    reveal_strlit("<H1>Bookmarks</H1>");
    reveal_strlit("<DL><p>");
    reveal_strlit("</DL><p>");
    let h = head_lines();
    assert forall|k: int| 0 <= k < h.len() implies line_ok(#[trigger] h[k]) by {
        let l = h[k];
        assert forall|i: int| 0 <= i < l.len() implies #[trigger] l[i] != '\n' by {}
    }
    let t = seq!["</DL><p>"@];
    assert forall|k: int| 0 <= k < t.len() implies line_ok(#[trigger] t[k]) by {
        let l = t[k];
        assert forall|i: int| 0 <= i < l.len() implies #[trigger] l[i] != '\n' by {}
    }
}

// ─── the law ─────────────────────────────────────────────────────────────

/// Reading back an exported bookmark file lists every bookmark's name and URL,
/// folder by folder in the order folders are first used, and in stored order within
/// a folder, each under its own folder — provided no name, URL or folder holds a line
/// feed, no URL a `"`, no name `</A>` and no folder `</H3>`.
pub proof fn law_export_reads_back(bs: Seq<Bookmark>)
    requires
        all_plain(bs),
    ensures
        html_entries(netscape_html(bs)) == read_back_all(bs, distinct_folders(bs)),
{
    let fs = distinct_folders(bs);
    lemma_distinct_folders_plain(bs);
    lemma_export_joined(bs);
    lemma_head_lines_ok();
    lemma_blocks_lines_ok(bs, fs);
    lemma_lines_ok_concat(head_lines(), blocks_lines(bs, fs));
    lemma_lines_ok_concat(head_lines() + blocks_lines(bs, fs), seq!["</DL><p>"@]);
    lemma_lines_of_joined(export_lines(bs));
    lemma_html_fold_lines(export_lines(bs));
    let st0 = ("Imported"@, Seq::<Entry>::empty());
    lemma_fold_lines_concat(st0, head_lines() + blocks_lines(bs, fs), seq!["</DL><p>"@]);
    lemma_fold_lines_concat(st0, head_lines(), blocks_lines(bs, fs));
    lemma_fold_head(st0);
    lemma_fold_blocks(bs, fs, st0);
    let st1 = fold_lines(st0, head_lines() + blocks_lines(bs, fs));
    lemma_dl_lines();
    let e = Seq::<char>::empty();
    assert(forall|i: int| 0 <= i < e.len() ==> #[trigger] e[i] == ' ');
    assert(e + "</DL><p>"@ =~= "</DL><p>"@);
    lemma_inert_line(e, "</DL><p>"@, st1);
    let t = seq!["</DL><p>"@];
    assert(t.drop_last() =~= Seq::<Seq<char>>::empty());
    assert(t.last() == "</DL><p>"@);
    assert(fold_lines(st1, Seq::<Seq<char>>::empty()) == st1);
    assert(fold_lines(st1, t) == st1);
    assert(Seq::<Entry>::empty() + read_back_all(bs, fs) =~= read_back_all(bs, fs));
}

} // verus!
