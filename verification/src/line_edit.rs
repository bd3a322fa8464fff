//! Single-line text editing with a byte-offset cursor, shared by the
//! form fields, the search bar and the path input.
use vstd::prelude::*;
use crate::text::{
    boundary_index, byte_len, byte_offset, char_width, chars_of, index_of_offset,
    is_white_space, last_index_of, lemma_boundary_index, lemma_boundary_unique,
    lemma_byte_offset_concat, lemma_byte_offset_full, lemma_byte_offset_mono,
    lemma_byte_offset_step, lemma_utf8_len_push, on_boundary, push_char, rfind_char,
    string_of, trim_end_count, trim_end_len, utf8_width,
};

verus! {

/// `s` with `c` inserted before the character at index `k`.
pub open spec fn edit_insert(s: Seq<char>, k: int, c: char) -> Seq<char> {
    s.take(k).push(c) + s.skip(k)
}

/// `s` with the characters at indices `a..b` removed.
pub open spec fn edit_cut(s: Seq<char>, a: int, b: int) -> Seq<char> {
    s.take(a) + s.skip(b)
}

/// Character index where a word deletion that ends at index `k` starts:
/// trailing white space before `k` is skipped, then everything back to just after
/// the last `sep` goes (all of it when nothing but white space precedes `k`).
pub open spec fn word_start(s: Seq<char>, k: int, sep: char) -> int {
    let t = trim_end_len(s.take(k));
    if t == 0 {
        0
    } else {
        match last_index_of(s.take(t as int), sep) {
            Some(j) => j + 1,
            None => 0,
        }
    }
}

/// Typing `c` at cursor `p`: the text and the cursor after it.
pub open spec fn text_insert(s: Seq<char>, p: int, c: char) -> (Seq<char>, int) {
    (edit_insert(s, boundary_index(s, p), c), p + utf8_width(c))
}

/// Backspace at cursor `p`: the character before the cursor goes (nothing at the start).
pub open spec fn text_backspace(s: Seq<char>, p: int) -> (Seq<char>, int) {
    let k = boundary_index(s, p);
    if k == 0 {
        (s, p)
    } else {
        (edit_cut(s, k - 1, k), byte_offset(s, k - 1) as int)
    }
}

/// Delete at cursor `p`: the character after the cursor goes (nothing at the end).
pub open spec fn text_delete(s: Seq<char>, p: int) -> (Seq<char>, int) {
    let k = boundary_index(s, p);
    if k == s.len() {
        (s, p)
    } else {
        (edit_cut(s, k, k + 1), p)
    }
}

/// The cursor one character to the left of `p` (unchanged at the start).
pub open spec fn text_left(s: Seq<char>, p: int) -> int {
    let k = boundary_index(s, p);
    if k == 0 {
        p
    } else {
        byte_offset(s, k - 1) as int
    }
}

/// The cursor one character to the right of `p` (unchanged at the end).
pub open spec fn text_right(s: Seq<char>, p: int) -> int {
    let k = boundary_index(s, p);
    if k == s.len() {
        p
    } else {
        byte_offset(s, k + 1) as int
    }
}

/// Word deletion before cursor `p` (see `word_start`).
pub open spec fn text_delete_word(s: Seq<char>, p: int, sep: char) -> (Seq<char>, int) {
    let k = boundary_index(s, p);
    let w = word_start(s, k, sep);
    if k == 0 {
        (s, p)
    } else {
        (edit_cut(s, w, k), byte_offset(s, w) as int)
    }
}

/// The cursor `p` (a byte offset) sits on a character boundary of `s`.
pub open spec fn cursor_ok(s: Seq<char>, p: int) -> bool {
    on_boundary(s, p)
}

proof fn lemma_take_take(s: Seq<char>, a: int, b: int)
    requires
        0 <= a <= b <= s.len(),
    ensures
        s.take(b).take(a) == s.take(a),
{
    assert(s.take(b).take(a) =~= s.take(a));
}

proof fn lemma_word_start_bounds(s: Seq<char>, k: int, sep: char)
    requires
        0 <= k <= s.len(),
    ensures
        0 <= word_start(s, k, sep) <= k,
{
    let t = trim_end_len(s.take(k));
    lemma_trim_end_len_le(s.take(k));
    if t > 0 {
        lemma_last_index_of_bounds(s.take(t as int), sep);
    }
}

pub proof fn lemma_trim_end_len_le(s: Seq<char>)
    ensures
        trim_end_len(s) <= s.len(),
    decreases s.len(),
{
    if s.len() > 0 && is_white_space(s.last()) {
        lemma_trim_end_len_le(s.drop_last());
    }
}

pub proof fn lemma_last_index_of_bounds(s: Seq<char>, c: char)
    ensures
        match last_index_of(s, c) {
            Some(j) => 0 <= j < s.len() && s[j] == c,
            None => true,
        },
    decreases s.len(),
{
    if s.len() > 0 && s.last() != c {
        lemma_last_index_of_bounds(s.drop_last(), c);
    }
}

/// Builds `v[..a] ++ v[b..]`.
fn cut(v: &Vec<char>, a: usize, b: usize) -> (s: String)
    requires
        a <= b <= v.len(),
    ensures
        s@ == edit_cut(v@, a as int, b as int),
{
    let mut s = string_of(v, 0, a);
    let mut i = b;
    while i < v.len()
        invariant
            a <= b <= i <= v.len(),
            s@ == v@.take(a as int) + v@.subrange(b as int, i as int),
        decreases v.len() - i,
    {
        push_char(&mut s, v[i]);
        assert(v@.take(a as int) + v@.subrange(b as int, i + 1) =~= (v@.take(a as int)
            + v@.subrange(b as int, i as int)).push(v@[i as int]));
        i += 1;
    }
    assert(v@.subrange(0, a as int) =~= v@.take(a as int));
    assert(v@.subrange(b as int, v.len() as int) =~= v@.skip(b as int));
    s
}

/// Inserts `c` at the cursor and moves the cursor past it.
pub fn insert_at_cursor(text: &mut String, cursor: &mut usize, c: char)
    requires
        cursor_ok(old(text)@, *old(cursor) as int),
    ensures
        (final(text)@, *final(cursor) as int) == text_insert(old(text)@, *old(cursor) as int, c),
        cursor_ok(final(text)@, *final(cursor) as int),
{
    let v = chars_of(text.as_str());
    let k = index_of_offset(&v, *cursor);
    let mut s = string_of(&v, 0, k);
    push_char(&mut s, c);
    let mut i = k;
    while i < v.len()
        invariant
            k <= i <= v.len(),
            s@ == v@.take(k as int).push(c) + v@.subrange(k as int, i as int),
        decreases v.len() - i,
    {
        push_char(&mut s, v[i]);
        assert(v@.take(k as int).push(c) + v@.subrange(k as int, i + 1) =~= (v@.take(k as int).push(c)
            + v@.subrange(k as int, i as int)).push(v@[i as int]));
        i += 1;
    }
    assert(v@.subrange(0, k as int) =~= v@.take(k as int));
    assert(v@.subrange(k as int, v.len() as int) =~= v@.skip(k as int));
    let ghost new = s@;
    let n = byte_len(s.as_str());
    proof {
        assert(new.take(k + 1) =~= v@.take(k as int).push(c));
        lemma_utf8_len_push(v@.take(k as int), c);
        lemma_byte_offset_mono(new, k + 1, new.len() as int);
        lemma_byte_offset_full(new);
        lemma_boundary_unique(new, k + 1);
    }
    *cursor = *cursor + char_width(c);
    *text = s;
}

/// Deletes the character before the cursor (Backspace); nothing at the start.
pub fn backspace_at_cursor(text: &mut String, cursor: &mut usize)
    requires
        cursor_ok(old(text)@, *old(cursor) as int),
    ensures
        (final(text)@, *final(cursor) as int) == text_backspace(old(text)@, *old(cursor) as int),
        cursor_ok(final(text)@, *final(cursor) as int),
{
    let v = chars_of(text.as_str());
    let k = index_of_offset(&v, *cursor);
    if k == 0 {
        return;
    }
    let s = cut(&v, k - 1, k);
    let p = offset_of_index_bounded(&v, k - 1, *cursor);
    proof {
        lemma_byte_offset_concat(v@.take(k - 1), v@.skip(k as int), k - 1);
        assert(v@.take(k - 1).take(k - 1) =~= v@.take(k - 1));
        lemma_boundary_unique(s@, k - 1);
    }
    *cursor = p;
    *text = s;
}

/// Byte offset of boundary `k`, known to be at most the offset `bound` of a later boundary.
fn offset_of_index_bounded(v: &Vec<char>, k: usize, bound: usize) -> (p: usize)
    requires
        k < v.len(),
        on_boundary(v@, bound as int),
        k < boundary_index(v@, bound as int),
    ensures
        p == byte_offset(v@, k as int),
        p < bound,
{
    let mut i: usize = 0;
    let mut acc: usize = 0;
    let ghost kb = boundary_index(v@, bound as int);
    proof {
        lemma_boundary_index(v@, bound as int);
    }
    assert(v@.take(0) =~= Seq::<char>::empty());
    while i < k
        invariant
            i <= k < kb <= v.len(),
            byte_offset(v@, kb) == bound,
            acc == byte_offset(v@, i as int),
        decreases k - i,
    {
        proof {
            lemma_byte_offset_step(v@, i as int);
            lemma_byte_offset_mono(v@, i + 1, kb);
        }
        acc = acc + char_width(v[i]);
        i = i + 1;
    }
    proof {
        lemma_byte_offset_mono(v@, k as int, kb);
    }
    acc
}

/// Byte offset of boundary `k`, known to be at most the offset `bound` of a boundary not before it.
fn offset_at_most(v: &Vec<char>, k: usize, bound: usize) -> (p: usize)
    requires
        k <= v.len(),
        on_boundary(v@, bound as int),
        k <= boundary_index(v@, bound as int),
    ensures
        p == byte_offset(v@, k as int),
        p <= bound,
{
    proof {
        lemma_boundary_index(v@, bound as int);
    }
    if k == boundary_index_exec(v, bound) {
        return bound;
    }
    offset_of_index_bounded(v, k, bound)
}

fn boundary_index_exec(v: &Vec<char>, p: usize) -> (k: usize)
    requires
        on_boundary(v@, p as int),
    ensures
        k == boundary_index(v@, p as int),
{
    index_of_offset(v, p)
}

/// Deletes the character at the cursor (Delete); nothing at the end.
pub fn delete_at_cursor(text: &mut String, cursor: &mut usize)
    requires
        cursor_ok(old(text)@, *old(cursor) as int),
    ensures
        (final(text)@, *final(cursor) as int) == text_delete(old(text)@, *old(cursor) as int),
        cursor_ok(final(text)@, *final(cursor) as int),
{
    let v = chars_of(text.as_str());
    let k = index_of_offset(&v, *cursor);
    if k == v.len() {
        return;
    }
    let s = cut(&v, k, k + 1);
    proof {
        lemma_byte_offset_concat(v@.take(k as int), v@.skip(k + 1), k as int);
        assert(v@.take(k as int).take(k as int) =~= v@.take(k as int));
        lemma_boundary_unique(s@, k as int);
    }
    *text = s;
}

/// Moves the cursor one character to the left; nothing at the start.
pub fn cursor_left_in(text: &String, cursor: &mut usize)
    requires
        cursor_ok(text@, *old(cursor) as int),
    ensures
        *final(cursor) as int == text_left(text@, *old(cursor) as int),
        cursor_ok(text@, *final(cursor) as int),
{
    let v = chars_of(text.as_str());
    let k = index_of_offset(&v, *cursor);
    if k == 0 {
        return;
    }
    let p = offset_of_index_bounded(&v, k - 1, *cursor);
    proof {
        lemma_boundary_unique(text@, k - 1);
    }
    *cursor = p;
}

/// Moves the cursor one character to the right; nothing at the end.
pub fn cursor_right_in(text: &String, cursor: &mut usize)
    requires
        cursor_ok(text@, *old(cursor) as int),
    ensures
        *final(cursor) as int == text_right(text@, *old(cursor) as int),
        cursor_ok(text@, *final(cursor) as int),
{
    let v = chars_of(text.as_str());
    let n = byte_len(text.as_str());
    let k = index_of_offset(&v, *cursor);
    if k == v.len() {
        return;
    }
    proof {
        lemma_byte_offset_step(v@, k as int);
        lemma_byte_offset_mono(v@, k + 1, v.len() as int);
        lemma_byte_offset_full(v@);
        lemma_boundary_unique(text@, k + 1);
    }
    *cursor = *cursor + char_width(v[k]);
}

/// Deletes the word before the cursor (see `word_start`), moving the cursor to where it began.
pub fn delete_word_at_cursor(text: &mut String, cursor: &mut usize, sep: char)
    requires
        cursor_ok(old(text)@, *old(cursor) as int),
    ensures
        (final(text)@, *final(cursor) as int) == text_delete_word(old(text)@, *old(cursor) as int, sep),
        cursor_ok(final(text)@, *final(cursor) as int),
{
    let v = chars_of(text.as_str());
    let k = index_of_offset(&v, *cursor);
    if k == 0 {
        return;
    }
    let t = trim_end_count(&v, k);
    proof {
        lemma_last_index_of_bounds(v@.take(t as int), sep);
    }
    let w: usize = if t == 0 {
        0
    } else {
        match rfind_char(&v, t, sep) {
            Some(j) => j + 1,
            None => 0,
        }
    };
    proof {
        lemma_take_take(v@, t as int, k as int);
        lemma_word_start_bounds(v@, k as int, sep);
        assert(w == word_start(v@, k as int, sep));
    }
    let s = cut(&v, w, k);
    let p = offset_at_most(&v, w, *cursor);
    proof {
        lemma_byte_offset_concat(v@.take(w as int), v@.skip(k as int), w as int);
        assert(v@.take(w as int).take(w as int) =~= v@.take(w as int));
        lemma_boundary_unique(s@, w as int);
    }
    *cursor = p;
    *text = s;
}

// ─── laws ────────────────────────────────────────────────────────────────

/// Backspace right after typing a character gives back the text and the cursor
/// as they were.
pub proof fn law_backspace_undoes_insert(s: Seq<char>, p: int, c: char)
    requires
        cursor_ok(s, p),
    ensures
        text_backspace(text_insert(s, p, c).0, text_insert(s, p, c).1) == (s, p),
{
    lemma_boundary_index(s, p);
    let k = boundary_index(s, p);
    let t = edit_insert(s, k, c);
    assert(t.take(k + 1) =~= s.take(k).push(c));
    lemma_utf8_len_push(s.take(k), c);
    lemma_boundary_unique(t, k + 1);
    assert(t.take(k) =~= s.take(k));
    assert(edit_cut(t, k, k + 1) =~= s);
}

/// Moving the cursor left and then right brings it back, unless it was at the start.
pub proof fn law_right_undoes_left(s: Seq<char>, p: int)
    requires
        cursor_ok(s, p),
        p > 0,
    ensures
        text_right(s, text_left(s, p)) == p,
{
    lemma_boundary_index(s, p);
    let k = boundary_index(s, p);
    assert(s.take(0) =~= Seq::<char>::empty());
    assert(k != 0);
    lemma_boundary_unique(s, k - 1);
}

/// Moving the cursor right and then left brings it back, unless it was at the end.
pub proof fn law_left_undoes_right(s: Seq<char>, p: int)
    requires
        cursor_ok(s, p),
        p < crate::text::utf8_len(s),
    ensures
        text_left(s, text_right(s, p)) == p,
{
    lemma_boundary_index(s, p);
    let k = boundary_index(s, p);
    lemma_byte_offset_full(s);
    assert(k != s.len());
    lemma_boundary_unique(s, k + 1);
}

} // verus!
