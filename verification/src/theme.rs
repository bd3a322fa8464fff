//! Theme colors: parsing color texts and looking colors up by slot name.
use vstd::prelude::*;
use crate::config::{pairs_view, ThemeConfig};
use crate::text::{
    boundary_index, byte_len, chars_of, index_of_offset, lowercase, on_boundary, owned, str_eq,
    to_lowercase, utf8_len,
};

verus! {

/// A terminal color as the theme knows it.
#[derive(Debug, Clone, Copy, PartialEq, Eq, Structural)]
pub enum ThemeColor {
    Reset,
    Black,
    Red,
    Green,
    Yellow,
    Blue,
    Magenta,
    Cyan,
    White,
    Rgb(u8, u8, u8),
}

/// Value of a hexadecimal digit (either case).
pub open spec fn hex_value(c: char) -> Option<nat> {
    if '0' <= c && c <= '9' {
        Some((c as u32 - '0' as u32) as nat)
    } else if 'a' <= c && c <= 'f' {
        Some((c as u32 - 'a' as u32 + 10) as nat)
    } else if 'A' <= c && c <= 'F' {
        Some((c as u32 - 'A' as u32 + 10) as nat)
    } else {
        None
    }
}

/// `u8::from_str_radix(t, 16).unwrap_or(0)` for a text `t` of two bytes: two hex
/// digits, or `+` and one hex digit; anything else reads as 0.
pub open spec fn hex_byte(t: Seq<char>) -> u8 {
    if t.len() == 2 && hex_value(t[0]) is Some && hex_value(t[1]) is Some {
        (16 * hex_value(t[0])->0 + hex_value(t[1])->0) as u8
    } else if t.len() == 2 && t[0] == '+' && hex_value(t[1]) is Some {
        hex_value(t[1])->0 as u8
    } else {
        0
    }
}

/// `s` is a `#` followed by six bytes of text.
pub open spec fn is_hex_form(s: Seq<char>) -> bool {
    s.len() > 0 && s[0] == '#' && utf8_len(s) == 7
}

/// The byte ranges 1..3, 3..5 and 5..7 of a hex-form text all start on character
/// boundaries (texts where they do not cannot be sliced there).
pub open spec fn hex_slices_ok(s: Seq<char>) -> bool {
    is_hex_form(s) ==> on_boundary(s, 3) && on_boundary(s, 5)
}

/// The color that a lower-cased color text names.
pub open spec fn color_of(s: Seq<char>) -> ThemeColor {
    if s == "reset"@ || s == "transparent"@ || s == "none"@ {
        ThemeColor::Reset
    } else if s == "black"@ {
        ThemeColor::Black
    } else if s == "red"@ {
        ThemeColor::Red
    } else if s == "green"@ {
        ThemeColor::Green
    } else if s == "yellow"@ {
        ThemeColor::Yellow
    } else if s == "blue"@ {
        ThemeColor::Blue
    } else if s == "magenta"@ {
        ThemeColor::Magenta
    } else if s == "cyan"@ {
        ThemeColor::Cyan
    } else if s == "white"@ {
        ThemeColor::White
    } else if is_hex_form(s) {
        let i3 = boundary_index(s, 3);
        let i5 = boundary_index(s, 5);
        ThemeColor::Rgb(
            hex_byte(s.subrange(1, i3)),
            hex_byte(s.subrange(i3, i5)),
            hex_byte(s.subrange(i5, s.len() as int)),
        )
    } else {
        ThemeColor::Reset
    }
}

/// The basic color names name the terminal colors of the same name, and `reset`,
/// `transparent` and `none` the terminal's own color; none of these texts is a `#`
/// form, so `parse_color` reads each of them (in any case).
pub proof fn law_color_names()
    ensures
        color_of("black"@) == ThemeColor::Black,
        color_of("red"@) == ThemeColor::Red,
        color_of("green"@) == ThemeColor::Green,
        color_of("yellow"@) == ThemeColor::Yellow,
        color_of("blue"@) == ThemeColor::Blue,
        color_of("magenta"@) == ThemeColor::Magenta,
        color_of("cyan"@) == ThemeColor::Cyan,
        color_of("white"@) == ThemeColor::White,
        color_of("reset"@) == ThemeColor::Reset,
        color_of("transparent"@) == ThemeColor::Reset,
        color_of("none"@) == ThemeColor::Reset,
        forall|s: Seq<char>| s.len() > 0 && s[0] != '#' ==> #[trigger] hex_slices_ok(s),
{
    lemma_color_name_texts();
}

/// Different basic color names read as different colors.
pub proof fn law_basic_colors_distinct()
    ensures
        forall|a: Seq<char>, b: Seq<char>|
            #![trigger color_of(a), color_of(b)]
            a != b && is_basic_color_name(a) && is_basic_color_name(b) ==> color_of(a) != color_of(b),
{
    lemma_color_name_texts();
}

proof fn lemma_color_name_texts()
    ensures
        "reset"@.len() == 5 && "reset"@[0] == 'r',
        "transparent"@.len() == 11 && "transparent"@[0] == 't',
        "none"@.len() == 4 && "none"@[0] == 'n',
        "black"@.len() == 5 && "black"@[0] == 'b',
        "red"@.len() == 3 && "red"@[0] == 'r',
        "green"@.len() == 5 && "green"@[0] == 'g',
        "yellow"@.len() == 6 && "yellow"@[0] == 'y',
        "blue"@.len() == 4 && "blue"@[0] == 'b',
        "magenta"@.len() == 7 && "magenta"@[0] == 'm',
        "cyan"@.len() == 4 && "cyan"@[0] == 'c',
        "white"@.len() == 5 && "white"@[0] == 'w',
{
    reveal_strlit("reset");
    reveal_strlit("transparent");
    reveal_strlit("none");
    reveal_strlit("black");
    reveal_strlit("red");
    reveal_strlit("green");
    reveal_strlit("yellow");
    reveal_strlit("blue");
    reveal_strlit("magenta");
    reveal_strlit("cyan");
    reveal_strlit("white");
}

/// `s` is one of the eight basic color names.
pub open spec fn is_basic_color_name(s: Seq<char>) -> bool {
    s == "black"@ || s == "red"@ || s == "green"@ || s == "yellow"@ || s == "blue"@ || s == "magenta"@
        || s == "cyan"@ || s == "white"@
}

fn hex_digit(c: char) -> (r: Option<u8>)
    ensures
        match hex_value(c) {
            Some(v) => r == Some(v as u8),
            None => r is None,
        },
{
    if '0' <= c && c <= '9' {
        Some((c as u32 - '0' as u32) as u8)
    } else if 'a' <= c && c <= 'f' {
        Some((c as u32 - 'a' as u32 + 10) as u8)
    } else if 'A' <= c && c <= 'F' {
        Some((c as u32 - 'A' as u32 + 10) as u8)
    } else {
        None
    }
}

fn hex_byte_of(v: &Vec<char>, a: usize, b: usize) -> (r: u8)
    requires
        a <= b <= v.len(),
    ensures
        r == hex_byte(v@.subrange(a as int, b as int)),
{
    let ghost t = v@.subrange(a as int, b as int);
    if b - a != 2 {
        return 0;
    }
    assert(t[0] == v@[a as int] && t[1] == v@[a + 1]);
    match (hex_digit(v[a]), hex_digit(v[a + 1])) {
        (Some(h), Some(l)) => 16 * h + l,
        (_, Some(l)) => if v[a] == '+' {
            l
        } else {
            0
        },
        _ => 0,
    }
}

/// The color that the lower-cased text `s` names: a basic color name, `reset`,
/// `transparent` or `none`, or `#` and six hex digits; anything else is `Reset`.
pub fn parse_color_lower(s: &str) -> (r: ThemeColor)
    requires
        hex_slices_ok(s@),
    ensures
        r == color_of(s@),
{
    if str_eq(s, "reset") || str_eq(s, "transparent") || str_eq(s, "none") {
        ThemeColor::Reset
    } else if str_eq(s, "black") {
        ThemeColor::Black
    } else if str_eq(s, "red") {
        ThemeColor::Red
    } else if str_eq(s, "green") {
        ThemeColor::Green
    } else if str_eq(s, "yellow") {
        ThemeColor::Yellow
    } else if str_eq(s, "blue") {
        ThemeColor::Blue
    } else if str_eq(s, "magenta") {
        ThemeColor::Magenta
    } else if str_eq(s, "cyan") {
        ThemeColor::Cyan
    } else if str_eq(s, "white") {
        ThemeColor::White
    } else {
        let v = chars_of(s);
        let n = byte_len(s);
        if v.len() > 0 && v[0] == '#' && n == 7 {
            let i3 = index_of_offset(&v, 3);
            let i5 = index_of_offset(&v, 5);
            assert(i3 <= i5) by {
                if i5 < i3 {
                    crate::text::lemma_byte_offset_mono(v@, i5 as int, i3 as int);
                }
            }
            assert(1 <= i3) by {
                if i3 == 0 {
                    assert(v@.take(0) =~= Seq::<char>::empty());
                }
            }
            ThemeColor::Rgb(hex_byte_of(&v, 1, i3), hex_byte_of(&v, i3, i5), hex_byte_of(&v, i5, v.len()))
        } else {
            ThemeColor::Reset
        }
    }
}

/// The color that a color text names, whatever its case; `None` when the text is a
/// `#` form whose hex pairs cannot be sliced on character boundaries.
pub fn parse_color(s: &str) -> (r: Option<ThemeColor>)
    ensures
        hex_slices_ok(lowercase(s@)) ==> r == Some(color_of(lowercase(s@))),
        !hex_slices_ok(lowercase(s@)) ==> r is None,
{
    let lower = to_lowercase(s);
    if hex_slices_fit(lower.as_str()) {
        Some(parse_color_lower(lower.as_str()))
    } else {
        None
    }
}

/// Whether `hex_slices_ok` holds of `s`.
pub fn hex_slices_fit(s: &str) -> (r: bool)
    ensures
        r == hex_slices_ok(s@),
{
    let v = chars_of(s);
    let n = byte_len(s);
    if !(v.len() > 0 && v[0] == '#' && n == 7) {
        return true;
    }
    is_boundary(&v, 3) && is_boundary(&v, 5)
}

/// Whether byte offset `p` is a character boundary of `v`.
pub fn is_boundary(v: &Vec<char>, p: usize) -> (r: bool)
    requires
        utf8_len(v@) <= usize::MAX,
    ensures
        r == on_boundary(v@, p as int),
{
    let mut i: usize = 0;
    let mut acc: usize = 0;
    assert(v@.take(0) =~= Seq::<char>::empty());
    while i < v.len() && acc < p
        invariant
            i <= v.len(),
            utf8_len(v@) <= usize::MAX,
            acc == crate::text::byte_offset(v@, i as int),
            forall|j: int| 0 <= j < i ==> #[trigger] crate::text::byte_offset(v@, j) < p,
        decreases v.len() - i,
    {
        proof {
            crate::text::lemma_byte_offset_step(v@, i as int);
            crate::text::lemma_byte_offset_mono(v@, i + 1, v.len() as int);
            crate::text::lemma_byte_offset_full(v@);
        }
        acc = acc + crate::text::char_width(v[i]);
        i = i + 1;
    }
    proof {
        if acc != p {
            assert forall|j: int| 0 <= j <= v.len() implies #[trigger] crate::text::byte_offset(v@, j)
                != p by {
                if j > i {
                    crate::text::lemma_byte_offset_mono(v@, i as int, j);
                }
            }
        }
    }
    acc == p
}

/// The value stored for `key` in an association list: the last entry with that key.
pub open spec fn assoc_last<V>(pairs: Seq<(Seq<char>, V)>, key: Seq<char>) -> Option<V>
    decreases pairs.len(),
{
    if pairs.len() == 0 {
        None
    } else if pairs.last().0 == key {
        Some(pairs.last().1)
    } else {
        assoc_last(pairs.drop_last(), key)
    }
}

/// Colors of a theme, slot by slot.
pub struct Theme {
    colors: Vec<(String, ThemeColor)>,
}

/// Every color text of the configuration can be parsed (see `hex_slices_ok`).
pub open spec fn colors_parsable(config: ThemeConfig) -> bool {
    forall|i: int|
        0 <= i < config.colors@.len() ==> hex_slices_ok(lowercase(#[trigger] config.colors@[i].1@))
}

impl Theme {
    /// The color stored for a slot, if the theme has that slot.
    pub closed spec fn lookup(&self, key: Seq<char>) -> Option<ThemeColor> {
        assoc_last(self.colors@.map_values(|p: (String, ThemeColor)| (p.0@, p.1)), key)
    }

    /// The color of a slot: the configured one, or `Reset` for a slot the theme lacks.
    pub open spec fn color(&self, key: Seq<char>) -> ThemeColor {
        match self.lookup(key) {
            Some(c) => c,
            None => ThemeColor::Reset,
        }
    }

    /// Parses every configured color.
    pub fn from_config(config: &ThemeConfig) -> (r: Self)
        requires
            colors_parsable(*config),
        ensures
            forall|key: Seq<char>| #[trigger]
                r.lookup(key) == match assoc_last(pairs_view(config.colors@), key) {
                    Some(text) => Some(color_of(lowercase(text))),
                    None => None,
                },
    {
        let mut colors: Vec<(String, ThemeColor)> = Vec::new();
        let n = config.colors.len();
        let mut i: usize = 0;
        while i < n
            invariant
                i <= n == config.colors@.len(),
                colors_parsable(*config),
                colors@.len() == i,
                forall|j: int|
                    0 <= j < i ==> (#[trigger] colors@[j]).0@ == config.colors@[j].0@ && colors@[j].1
                        == color_of(lowercase(config.colors@[j].1@)),
            decreases n - i,
        {
            let key = owned(config.colors[i].0.as_str());
            let lower = to_lowercase(config.colors[i].1.as_str());
            assert(hex_slices_ok(lowercase(config.colors@[i as int].1@)));
            let c = parse_color_lower(lower.as_str());
            colors.push((key, c));
            i += 1;
        }
        let r = Theme { colors };
        proof {
            let cv = colors@.map_values(|p: (String, ThemeColor)| (p.0@, p.1));
            let pv = pairs_view(config.colors@);
            assert forall|key: Seq<char>| #[trigger]
                r.lookup(key) == match assoc_last(pv, key) {
                    Some(text) => Some(color_of(lowercase(text))),
                    None => None,
                } by {
                lemma_assoc_last_parallel(cv, pv, key);
            }
        }
        r
    }

    /// Checked construction: `None` exactly when some color text is a `#` form whose
    /// hex pairs cannot be sliced on character boundaries.
    pub fn try_from_config(config: &ThemeConfig) -> (r: Option<Self>)
        ensures
            r is Some <==> colors_parsable(*config),
            r matches Some(t) ==> forall|key: Seq<char>| #[trigger]
                t.lookup(key) == match assoc_last(pairs_view(config.colors@), key) {
                    Some(text) => Some(color_of(lowercase(text))),
                    None => None,
                },
    {
        let n = config.colors.len();
        let mut i: usize = 0;
        while i < n
            invariant
                i <= n == config.colors@.len(),
                forall|j: int|
                    0 <= j < i ==> hex_slices_ok(lowercase(#[trigger] config.colors@[j].1@)),
            decreases n - i,
        {
            let lower = to_lowercase(config.colors[i].1.as_str());
            if !hex_slices_fit(lower.as_str()) {
                return None;
            }
            i += 1;
        }
        Some(Theme::from_config(config))
    }

    pub fn get(&self, key: &str) -> (r: ThemeColor)
        ensures
            r == self.color(key@),
    {
        let n = self.colors.len();
        let mut i = n;
        let ghost cv = self.colors@.map_values(|p: (String, ThemeColor)| (p.0@, p.1));
        assert(cv.take(n as int) =~= cv);
        while i > 0
            invariant
                i <= n == self.colors@.len(),
                cv == self.colors@.map_values(|p: (String, ThemeColor)| (p.0@, p.1)),
                assoc_last(cv, key@) == assoc_last(cv.take(i as int), key@),
            decreases i,
        {
            assert(cv.take(i as int).last() == cv[i - 1]);
            assert(cv.take(i as int).drop_last() =~= cv.take(i - 1));
            if str_eq(self.colors[i - 1].0.as_str(), key) {
                return self.colors[i - 1].1;
            }
            i -= 1;
        }
        assert(cv.take(0) =~= Seq::<(Seq<char>, ThemeColor)>::empty());
        ThemeColor::Reset
    }
}

impl Theme {
    pub fn bg(&self) -> (r: ThemeColor)
        ensures
            r == self.color("bg"@),
    {
        self.get("bg")
    }

    pub fn fg(&self) -> (r: ThemeColor)
        ensures
            r == self.color("fg"@),
    {
        self.get("fg")
    }

    pub fn name(&self) -> (r: ThemeColor)
        ensures
            r == self.color("name"@),
    {
        self.get("name")
    }

    pub fn url(&self) -> (r: ThemeColor)
        ensures
            r == self.color("url"@),
    {
        self.get("url")
    }

    pub fn folder(&self) -> (r: ThemeColor)
        ensures
            r == self.color("folder"@),
    {
        self.get("folder")
    }

    pub fn header(&self) -> (r: ThemeColor)
        ensures
            r == self.color("header"@),
    {
        self.get("header")
    }

    pub fn header_bg(&self) -> (r: ThemeColor)
        ensures
            r == self.color("header_bg"@),
    {
        self.get("header_bg")
    }

    pub fn selected_fg(&self) -> (r: ThemeColor)
        ensures
            r == self.color("selected_fg"@),
    {
        self.get("selected_fg")
    }

    pub fn selected_bg(&self) -> (r: ThemeColor)
        ensures
            r == self.color("selected_bg"@),
    {
        self.get("selected_bg")
    }

    pub fn multiselect_fg(&self) -> (r: ThemeColor)
        ensures
            r == self.color("multiselect_fg"@),
    {
        self.get("multiselect_fg")
    }

    pub fn multiselect_bg(&self) -> (r: ThemeColor)
        ensures
            r == self.color("multiselect_bg"@),
    {
        self.get("multiselect_bg")
    }

    pub fn search_border(&self) -> (r: ThemeColor)
        ensures
            r == self.color("search_border"@),
    {
        self.get("search_border")
    }

    pub fn match_highlight(&self) -> (r: ThemeColor)
        ensures
            r == self.color("match_highlight"@),
    {
        self.get("match_highlight")
    }

    pub fn status_fg(&self) -> (r: ThemeColor)
        ensures
            r == self.color("status_fg"@),
    {
        self.get("status_fg")
    }

    pub fn status_bg(&self) -> (r: ThemeColor)
        ensures
            r == self.color("status_bg"@),
    {
        self.get("status_bg")
    }

    pub fn accent(&self) -> (r: ThemeColor)
        ensures
            r == self.color("accent"@),
    {
        self.get("accent")
    }

    pub fn muted(&self) -> (r: ThemeColor)
        ensures
            r == self.color("muted"@),
    {
        self.get("muted")
    }

    pub fn border_top(&self) -> (r: ThemeColor)
        ensures
            r == self.color("border_top"@),
    {
        self.get("border_top")
    }

    pub fn border_right(&self) -> (r: ThemeColor)
        ensures
            r == self.color("border_right"@),
    {
        self.get("border_right")
    }

    pub fn border_bottom(&self) -> (r: ThemeColor)
        ensures
            r == self.color("border_bottom"@),
    {
        self.get("border_bottom")
    }

    pub fn border_left(&self) -> (r: ThemeColor)
        ensures
            r == self.color("border_left"@),
    {
        self.get("border_left")
    }

    pub fn field_active_border(&self) -> (r: ThemeColor)
        ensures
            r == self.color("field_active_border"@),
    {
        self.get("field_active_border")
    }

    pub fn field_inactive_border(&self) -> (r: ThemeColor)
        ensures
            r == self.color("field_inactive_border"@),
    {
        self.get("field_inactive_border")
    }

    pub fn field_text(&self) -> (r: ThemeColor)
        ensures
            r == self.color("field_text"@),
    {
        self.get("field_text")
    }

    pub fn field_placeholder(&self) -> (r: ThemeColor)
        ensures
            r == self.color("field_placeholder"@),
    {
        self.get("field_placeholder")
    }

    pub fn delete_border(&self) -> (r: ThemeColor)
        ensures
            r == self.color("delete_border"@),
    {
        self.get("delete_border")
    }

    pub fn delete_text(&self) -> (r: ThemeColor)
        ensures
            r == self.color("delete_text"@),
    {
        self.get("delete_text")
    }

    pub fn button_save_fg(&self) -> (r: ThemeColor)
        ensures
            r == self.color("button_save_fg"@),
    {
        self.get("button_save_fg")
    }

    pub fn button_save_bg(&self) -> (r: ThemeColor)
        ensures
            r == self.color("button_save_bg"@),
    {
        self.get("button_save_bg")
    }

    pub fn button_cancel_fg(&self) -> (r: ThemeColor)
        ensures
            r == self.color("button_cancel_fg"@),
    {
        self.get("button_cancel_fg")
    }

    pub fn button_cancel_bg(&self) -> (r: ThemeColor)
        ensures
            r == self.color("button_cancel_bg"@),
    {
        self.get("button_cancel_bg")
    }

    pub fn button_delete_fg(&self) -> (r: ThemeColor)
        ensures
            r == self.color("button_delete_fg"@),
    {
        self.get("button_delete_fg")
    }

    pub fn button_delete_bg(&self) -> (r: ThemeColor)
        ensures
            r == self.color("button_delete_bg"@),
    {
        self.get("button_delete_bg")
    }

}

proof fn lemma_assoc_last_parallel(
    cv: Seq<(Seq<char>, ThemeColor)>,
    pv: Seq<(Seq<char>, Seq<char>)>,
    key: Seq<char>,
)
    requires
        cv.len() == pv.len(),
        forall|j: int|
            0 <= j < cv.len() ==> (#[trigger] cv[j]).0 == pv[j].0 && cv[j].1 == color_of(
                lowercase(pv[j].1),
            ),
    ensures
        assoc_last(cv, key) == match assoc_last(pv, key) {
            Some(text) => Some(color_of(lowercase(text))),
            None => None,
        },
    decreases cv.len(),
{
    if cv.len() > 0 {
        assert(cv.last() == cv[cv.len() - 1]);
        lemma_assoc_last_parallel(cv.drop_last(), pv.drop_last(), key);
    }
}

} // verus!
