//! Character-level text model shared by the editors, the parsers and the search.
//!
//! Strings are viewed as `Seq<char>`; byte offsets (as used by Rust's `str`
//! indexing) are measured with `utf8_len`, the length of the UTF-8 encoding.
use vstd::prelude::*;
use vstd::utf8::*;

verus! {

/// Number of bytes in the UTF-8 encoding of `c`.
pub open spec fn utf8_width(c: char) -> nat {
    if (c as u32) <= 0x7F {
        1
    } else if (c as u32) <= 0x7FF {
        2
    } else if (c as u32) <= 0xFFFF {
        3
    } else {
        4
    }
}

/// Number of bytes in the UTF-8 encoding of a character sequence.
pub open spec fn utf8_len(s: Seq<char>) -> nat
    decreases s.len(),
{
    if s.len() == 0 {
        0
    } else {
        utf8_width(s[0]) + utf8_len(s.drop_first())
    }
}

/// Byte offset of the `k`-th character boundary of `s`.
pub open spec fn byte_offset(s: Seq<char>, k: int) -> nat {
    utf8_len(s.take(k))
}

/// `p` is the byte offset of some character boundary of `s`.
pub open spec fn on_boundary(s: Seq<char>, p: int) -> bool {
    exists|k: int| 0 <= k <= s.len() && #[trigger] byte_offset(s, k) == p
}

/// The character index whose byte offset is `p` (meaningful when `on_boundary(s, p)`).
pub open spec fn boundary_index(s: Seq<char>, p: int) -> int {
    choose|k: int| 0 <= k <= s.len() && #[trigger] byte_offset(s, k) == p
}

/// The Unicode `White_Space` property (`char::is_whitespace`): tab, line feed,
/// vertical tab, form feed, carriage return, space, next line, no-break space, ogham
/// space mark, the spaces U+2000 to U+200A, line and paragraph separators, narrow
/// no-break space, medium mathematical space and ideographic space.
pub open spec fn is_white_space(c: char) -> bool {
    let v = c as u32;
    ||| 0x09 <= v <= 0x0D
    ||| v == 0x20
    ||| v == 0x85
    ||| v == 0xA0
    ||| v == 0x1680
    ||| 0x2000 <= v <= 0x200A
    ||| v == 0x2028
    ||| v == 0x2029
    ||| v == 0x202F
    ||| v == 0x205F
    ||| v == 0x3000
}

/// Unicode lower-case mapping of a whole string, as computed by `str::to_lowercase`.
pub uninterp spec fn lowercase(s: Seq<char>) -> Seq<char>;

/// Number of leading characters of `s` that remain after removing trailing white space.
pub open spec fn trim_end_len(s: Seq<char>) -> nat
    decreases s.len(),
{
    if s.len() == 0 {
        0
    } else if is_white_space(s.last()) {
        trim_end_len(s.drop_last())
    } else {
        s.len()
    }
}

/// Number of leading white-space characters of `s`.
pub open spec fn trim_start_len(s: Seq<char>) -> nat
    decreases s.len(),
{
    if s.len() == 0 {
        0
    } else if is_white_space(s[0]) {
        1 + trim_start_len(s.drop_first())
    } else {
        0
    }
}

/// `s` with leading and trailing white space removed (`str::trim`).
pub open spec fn trim(s: Seq<char>) -> Seq<char> {
    let t = s.take(trim_end_len(s) as int);
    t.skip(trim_start_len(t) as int)
}

/// `s` consists of white space only (`s.trim().is_empty()`).
pub open spec fn is_blank(s: Seq<char>) -> bool {
    trim_end_len(s) == 0
}

/// Index of the last occurrence of `c` in `s`, if any (`str::rfind` on a character).
pub open spec fn last_index_of(s: Seq<char>, c: char) -> Option<int>
    decreases s.len(),
{
    if s.len() == 0 {
        None
    } else if s.last() == c {
        Some(s.len() - 1)
    } else {
        last_index_of(s.drop_last(), c)
    }
}

/// `needle` occurs in `s` starting at index `i`.
pub open spec fn occurs_at(s: Seq<char>, needle: Seq<char>, i: int) -> bool {
    0 <= i && i + needle.len() <= s.len() && s.subrange(i, i + needle.len()) == needle
}

/// Index of the first occurrence of `needle` in `s`, searching from index `from`.
pub open spec fn find_from(s: Seq<char>, needle: Seq<char>, from: int) -> Option<int>
    decreases s.len() + 1 - from,
{
    if from < 0 || from + needle.len() > s.len() {
        None
    } else if occurs_at(s, needle, from) {
        Some(from)
    } else {
        find_from(s, needle, from + 1)
    }
}

/// Index of the first occurrence of `needle` in `s` (`str::find`).
pub open spec fn find(s: Seq<char>, needle: Seq<char>) -> Option<int> {
    find_from(s, needle, 0)
}

/// `s` starts with `prefix`.
pub open spec fn starts_with(s: Seq<char>, prefix: Seq<char>) -> bool {
    prefix.len() <= s.len() && s.take(prefix.len() as int) == prefix
}

/// `s` ends with `suffix`.
pub open spec fn ends_with(s: Seq<char>, suffix: Seq<char>) -> bool {
    suffix.len() <= s.len() && s.skip(s.len() - suffix.len()) == suffix
}

/// `needle` occurs somewhere in `s` (`str::contains`).
pub open spec fn contains_seq(s: Seq<char>, needle: Seq<char>) -> bool {
    find(s, needle) is Some
}

/// The decimal digit character for `d < 10`.
pub open spec fn digit_char(d: nat) -> char {
    (('0' as u32) + d) as char
}

/// Decimal notation of `n`, without leading zeros (`usize`'s `Display`).
pub open spec fn decimal(n: nat) -> Seq<char>
    decreases n,
{
    if n < 10 {
        seq![digit_char(n)]
    } else {
        decimal(n / 10).push(digit_char(n % 10))
    }
}

// ─── lemmas on UTF-8 lengths ──────────────────────────────────────────────

pub proof fn lemma_utf8_len_append(a: Seq<char>, b: Seq<char>)
    ensures
        utf8_len(a + b) == utf8_len(a) + utf8_len(b),
    decreases a.len(),
{
    if a.len() == 0 {
        assert(a + b =~= b);
    } else {
        assert((a + b).drop_first() =~= a.drop_first() + b);
        lemma_utf8_len_append(a.drop_first(), b);
    }
}

pub proof fn lemma_utf8_len_single(c: char)
    ensures
        utf8_len(seq![c]) == utf8_width(c),
{
    assert(seq![c].drop_first() =~= Seq::<char>::empty());
    assert(utf8_len(Seq::<char>::empty()) == 0);
    assert(utf8_len(seq![c]) == utf8_width(seq![c][0]) + utf8_len(seq![c].drop_first()));
}

pub proof fn lemma_utf8_len_push(s: Seq<char>, c: char)
    ensures
        utf8_len(s.push(c)) == utf8_len(s) + utf8_width(c),
{
    lemma_utf8_len_append(s, seq![c]);
    lemma_utf8_len_single(c);
    assert(s.push(c) =~= s + seq![c]);
}

pub proof fn lemma_utf8_len_ge_len(s: Seq<char>)
    ensures
        utf8_len(s) >= s.len(),
    decreases s.len(),
{
    if s.len() > 0 {
        lemma_utf8_len_ge_len(s.drop_first());
    }
}

/// The byte length that `str::len` reports is `utf8_len` of the characters.
pub proof fn lemma_utf8_len_is_encoding_len(s: Seq<char>)
    ensures
        encode_utf8(s).len() == utf8_len(s),
    decreases s.len(),
{
    if s.len() > 0 {
        lemma_utf8_len_is_encoding_len(s.drop_first());
        let v = s[0] as u32;
        assert(is_scalar(v)) by {
            char_is_scalar(s[0]);
        }
    }
}

pub proof fn lemma_byte_offset_step(s: Seq<char>, k: int)
    requires
        0 <= k < s.len(),
    ensures
        byte_offset(s, k + 1) == byte_offset(s, k) + utf8_width(s[k]),
{
    assert(s.take(k + 1) =~= s.take(k).push(s[k]));
    lemma_utf8_len_push(s.take(k), s[k]);
}

pub proof fn lemma_byte_offset_mono(s: Seq<char>, i: int, j: int)
    requires
        0 <= i <= j <= s.len(),
    ensures
        byte_offset(s, i) + (j - i) <= byte_offset(s, j),
    decreases j - i,
{
    if i < j {
        lemma_byte_offset_mono(s, i, j - 1);
        lemma_byte_offset_step(s, j - 1);
    }
}

pub proof fn lemma_byte_offset_full(s: Seq<char>)
    ensures
        byte_offset(s, s.len() as int) == utf8_len(s),
{
    assert(s.take(s.len() as int) =~= s);
}

pub proof fn lemma_boundary_index(s: Seq<char>, p: int)
    requires
        on_boundary(s, p),
    ensures
        0 <= boundary_index(s, p) <= s.len(),
        byte_offset(s, boundary_index(s, p)) == p,
{
}

/// A boundary's character index is unique.
pub proof fn lemma_boundary_unique(s: Seq<char>, k: int)
    requires
        0 <= k <= s.len(),
    ensures
        on_boundary(s, byte_offset(s, k) as int),
        boundary_index(s, byte_offset(s, k) as int) == k,
{
    let p = byte_offset(s, k) as int;
    assert(on_boundary(s, p));
    let j = boundary_index(s, p);
    if j < k {
        lemma_byte_offset_mono(s, j, k);
    } else if j > k {
        lemma_byte_offset_mono(s, k, j);
    }
}

pub proof fn lemma_byte_offset_concat(a: Seq<char>, b: Seq<char>, k: int)
    requires
        0 <= k <= a.len(),
    ensures
        byte_offset(a + b, k) == byte_offset(a, k),
{
    assert((a + b).take(k) =~= a.take(k));
}

/// Whether `c` is white space (`char::is_whitespace`, see `is_white_space`).
pub fn char_is_whitespace(c: char) -> (r: bool)
    ensures
        r == is_white_space(c),
{
    let v = c as u32;
    (0x09 <= v && v <= 0x0D) || v == 0x20 || v == 0x85 || v == 0xA0 || v == 0x1680 || (0x2000 <= v
        && v <= 0x200A) || v == 0x2028 || v == 0x2029 || v == 0x202F || v == 0x205F || v == 0x3000
}

// ─── trusted items: std string functions ───────────────────

/// `str::to_lowercase`: the Unicode lower-case mapping of `s` (the Derived Core
/// Property `Lowercase`). The contract only names the result `lowercase(s@)`; it
/// states nothing about the mapping itself.
#[verifier::external_body]
pub(crate) fn to_lowercase(s: &str) -> (r: String)
    ensures
        r@ == lowercase(s@),
{
    s.to_lowercase()
}

/// `String::push`: appends one character.
#[verifier::external_body]
pub(crate) fn push_char(s: &mut String, c: char)
    ensures
        final(s)@ == old(s)@.push(c),
{
    s.push(c)
}

/// `<str as PartialEq>::eq`: two string slices are equal when their characters are.
#[verifier::external_body]
pub(crate) fn str_eq(a: &str, b: &str) -> (r: bool)
    ensures
        r == (a@ == b@),
{
    a == b
}

// ─── verified helpers ────────────────────────────────────────────────────

/// Collects the characters of a string slice, in order.
pub fn chars_of(s: &str) -> (v: Vec<char>)
    ensures
        v@ == s@,
{
    broadcast use vstd::string::group_string_axioms;

    let mut v: Vec<char> = Vec::new();
    for c in it: s.chars()
        invariant
            v@ == it.seq().take(it.index() as int),
            it.seq() == s@,
    {
        v.push(c);
    }
    v
}

/// Builds a string from the characters `v[from..to]`.
pub fn string_of(v: &Vec<char>, from: usize, to: usize) -> (s: String)
    requires
        from <= to <= v.len(),
    ensures
        s@ == v@.subrange(from as int, to as int),
{
    let mut s = String::new();
    let mut i = from;
    while i < to
        invariant
            from <= i <= to <= v.len(),
            s@ == v@.subrange(from as int, i as int),
        decreases to - i,
    {
        push_char(&mut s, v[i]);
        assert(v@.subrange(from as int, i + 1) =~= v@.subrange(from as int, i as int).push(v@[i as int]));
        i += 1;
    }
    s
}

/// Appends all characters of `t` to `s`.
pub fn push_all(s: &mut String, t: &str)
    ensures
        final(s)@ == old(s)@ + t@,
{
    let v = chars_of(t);
    let mut i: usize = 0;
    while i < v.len()
        invariant
            i <= v.len(),
            v@ == t@,
            s@ == old(s)@ + v@.take(i as int),
        decreases v.len() - i,
    {
        push_char(s, v[i]);
        assert(v@.take(i + 1) =~= v@.take(i as int).push(v@[i as int]));
        assert(old(s)@ + v@.take(i + 1) =~= (old(s)@ + v@.take(i as int)).push(v@[i as int]));
        i += 1;
    }
    assert(v@.take(v.len() as int) =~= v@);
}

/// Owned copy of a string slice.
pub fn owned(t: &str) -> (s: String)
    ensures
        s@ == t@,
{
    let mut s = String::new();
    push_all(&mut s, t);
    assert(Seq::<char>::empty() + t@ =~= t@);
    s
}

/// Decimal notation of `n` (`n.to_string()`).
pub fn decimal_text(n: usize) -> (s: String)
    ensures
        s@ == decimal(n as nat),
    decreases n,
{
    let d = (n % 10) as u32;
    let c = char_from_digit(d);
    if n < 10 {
        let mut s = String::new();
        push_char(&mut s, c);
        assert(s@ =~= seq![digit_char(n as nat)]);
        s
    } else {
        let mut s = decimal_text(n / 10);
        push_char(&mut s, c);
        s
    }
}

fn char_from_digit(d: u32) -> (c: char)
    requires
        d < 10,
    ensures
        c == digit_char(d as nat),
{
    if d == 0 {
        '0'
    } else if d == 1 {
        '1'
    } else if d == 2 {
        '2'
    } else if d == 3 {
        '3'
    } else if d == 4 {
        '4'
    } else if d == 5 {
        '5'
    } else if d == 6 {
        '6'
    } else if d == 7 {
        '7'
    } else if d == 8 {
        '8'
    } else {
        '9'
    }
}

/// `c.len_utf8()`: number of bytes in the UTF-8 encoding of `c`.
pub fn char_width(c: char) -> (n: usize)
    ensures
        n == utf8_width(c),
{
    let u = c as u32;
    if u <= 0x7F {
        1
    } else if u <= 0x7FF {
        2
    } else if u <= 0xFFFF {
        3
    } else {
        4
    }
}

/// Byte length of a string (`str::len`).
pub fn byte_len(s: &str) -> (n: usize)
    ensures
        n == utf8_len(s@),
{
    proof {
        lemma_utf8_len_is_encoding_len(s@);
    }
    let b = s.as_bytes();
    b.len()
}

/// Character index of the boundary at byte offset `p`.
pub fn index_of_offset(v: &Vec<char>, p: usize) -> (k: usize)
    requires
        on_boundary(v@, p as int),
    ensures
        k <= v.len(),
        byte_offset(v@, k as int) == p,
        k == boundary_index(v@, p as int),
{
    proof {
        lemma_boundary_index(v@, p as int);
    }
    let ghost target = boundary_index(v@, p as int);
    let mut i: usize = 0;
    let mut acc: usize = 0;
    assert(v@.take(0) =~= Seq::<char>::empty());
    while acc < p
        invariant
            0 <= target <= v.len(),
            byte_offset(v@, target) == p,
            i <= target,
            acc == byte_offset(v@, i as int),
        decreases target - i,
    {
        proof {
            assert(i < target);
            lemma_byte_offset_step(v@, i as int);
            lemma_byte_offset_mono(v@, i + 1, target);
        }
        acc = acc + char_width(v[i]);
        i = i + 1;
    }
    proof {
        if i < target {
            lemma_byte_offset_mono(v@, i + 1, target);
            lemma_byte_offset_step(v@, i as int);
        }
        lemma_boundary_unique(v@, i as int);
    }
    i
}

/// Number of characters left after removing trailing white space (`trim_end().len()` in characters).
pub fn trim_end_count(v: &Vec<char>, n: usize) -> (t: usize)
    requires
        n <= v.len(),
    ensures
        t == trim_end_len(v@.take(n as int)),
        t <= n,
{
    let mut t = n;
    while t > 0 && char_is_whitespace(v[t - 1])
        invariant
            t <= n <= v.len(),
            trim_end_len(v@.take(t as int)) == trim_end_len(v@.take(n as int)),
        decreases t,
    {
        assert(v@.take(t as int).drop_last() =~= v@.take(t - 1));
        t = t - 1;
    }
    proof {
        if t > 0 {
            assert(v@.take(t as int).last() == v@[t - 1]);
        }
    }
    t
}

/// Number of leading white-space characters of `v[..n]`.
pub fn trim_start_count(v: &Vec<char>, from: usize, to: usize) -> (t: usize)
    requires
        from <= to <= v.len(),
    ensures
        t == trim_start_len(v@.subrange(from as int, to as int)),
        t <= to - from,
{
    let mut i = from;
    while i < to && char_is_whitespace(v[i])
        invariant
            from <= i <= to <= v.len(),
            trim_start_len(v@.subrange(from as int, to as int)) == (i - from) + trim_start_len(
                v@.subrange(i as int, to as int),
            ),
        decreases to - i,
    {
        assert(v@.subrange(i as int, to as int).drop_first() =~= v@.subrange(i + 1, to as int));
        i = i + 1;
    }
    i - from
}

/// Index of the last occurrence of `c` in `v[..n]`.
pub fn rfind_char(v: &Vec<char>, n: usize, c: char) -> (r: Option<usize>)
    requires
        n <= v.len(),
    ensures
        match last_index_of(v@.take(n as int), c) {
            Some(j) => r matches Some(k) && k == j,
            None => r is None,
        },
{
    let mut t = n;
    while t > 0 && v[t - 1] != c
        invariant
            t <= n <= v.len(),
            last_index_of(v@.take(t as int), c) == last_index_of(v@.take(n as int), c),
        decreases t,
    {
        assert(v@.take(t as int).drop_last() =~= v@.take(t - 1));
        t = t - 1;
    }
    if t == 0 {
        assert(v@.take(0) =~= Seq::<char>::empty());
        None
    } else {
        Some(t - 1)
    }
}

/// Whether `needle` occurs in `v` at index `i`.
pub fn matches_at(v: &Vec<char>, needle: &Vec<char>, i: usize) -> (r: bool)
    ensures
        r == occurs_at(v@, needle@, i as int),
{
    if needle.len() > v.len() || i > v.len() - needle.len() {
        return false;
    }
    let mut j: usize = 0;
    while j < needle.len()
        invariant
            i + needle.len() <= v.len(),
            j <= needle.len(),
            forall|m: int| 0 <= m < j ==> v@[i + m] == needle@[m],
        decreases needle.len() - j,
    {
        if v[i + j] != needle[j] {
            assert(v@.subrange(i as int, i + needle.len())[j as int] != needle@[j as int]);
            return false;
        }
        j += 1;
    }
    assert(v@.subrange(i as int, i + needle.len()) =~= needle@);
    true
}

/// First occurrence of `needle` in `v`, searching from `from`.
pub fn find_seq(v: &Vec<char>, needle: &Vec<char>, from: usize) -> (r: Option<usize>)
    ensures
        match find_from(v@, needle@, from as int) {
            Some(j) => r matches Some(k) && k == j,
            None => r is None,
        },
{
    let mut i = from;
    while i <= v.len() && needle.len() <= v.len() - i
        invariant
            from <= i,
            find_from(v@, needle@, from as int) == find_from(v@, needle@, i as int),
        decreases v.len() + 1 - i,
    {
        if matches_at(v, needle, i) {
            return Some(i);
        }
        proof {
            if i == v.len() {
                assert(v@.subrange(i as int, i as int) =~= needle@);
            }
        }
        i += 1;
    }
    None
}

} // verus!
