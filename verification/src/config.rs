//! Configuration: window size, launcher, paths, theme and key bindings.
use vstd::prelude::*;
use crate::bookmark::{lemma_text_lt_irreflexive, lemma_text_lt_trans, text_lt};
use crate::text::{chars_of, owned, push_all, push_char};

verus! {

pub struct WindowConfig {
    pub width: u16,
    pub height: u16,
}

pub struct LauncherConfig {
    pub command: String,
    pub args: Vec<String>,
}

pub struct PathsConfig {
    pub bookmarks: String,
}

/// Theme settings; `colors` maps a color slot to its color text, one entry per slot.
pub struct ThemeConfig {
    pub preset: String,
    pub transparent_bg: bool,
    pub colors: Vec<(String, String)>,
}

/// The whole configuration; `keybindings` maps a key name to an action name.
pub struct Config {
    pub window: WindowConfig,
    pub launcher: LauncherConfig,
    pub paths: PathsConfig,
    pub theme: ThemeConfig,
    pub keybindings: Vec<(String, String)>,
}

/// View of a list of text pairs.
pub open spec fn pairs_view(v: Seq<(String, String)>) -> Seq<(Seq<char>, Seq<char>)> {
    v.map_values(|p: (String, String)| (p.0@, p.1@))
}

/// The built-in Ayu color scheme, slot by slot.
pub open spec fn default_colors() -> Seq<(Seq<char>, Seq<char>)> {
    seq![
        ("accent"@, "#E6B450"@),
        ("bg"@, "reset"@),
        ("border_bottom"@, "#FF8F40"@),
        ("border_left"@, "#D2A6FF"@),
        ("border_right"@, "#AAD94C"@),
        ("border_top"@, "#39BAE6"@),
        ("button_cancel_bg"@, "#3E4B59"@),
        ("button_cancel_fg"@, "#BFBDB6"@),
        ("button_delete_bg"@, "#F07178"@),
        ("button_delete_fg"@, "#0D1017"@),
        ("button_save_bg"@, "#AAD94C"@),
        ("button_save_fg"@, "#0D1017"@),
        ("delete_border"@, "#F07178"@),
        ("delete_text"@, "#F07178"@),
        ("fg"@, "#BFBDB6"@),
        ("field_active_border"@, "#39BAE6"@),
        ("field_inactive_border"@, "#565B66"@),
        ("field_placeholder"@, "#565B66"@),
        ("field_text"@, "#E6E1CF"@),
        ("folder"@, "#D2A6FF"@),
        ("header"@, "#FF8F40"@),
        ("header_bg"@, "reset"@),
        ("match_highlight"@, "#F07178"@),
        ("multiselect_bg"@, "#3E4B59"@),
        ("multiselect_fg"@, "#E6E1CF"@),
        ("muted"@, "#565B66"@),
        ("name"@, "#E6E1CF"@),
        ("search_border"@, "#39BAE6"@),
        ("search_fg"@, "#E6E1CF"@),
        ("selected_bg"@, "#2D4F67"@),
        ("selected_fg"@, "#E6E1CF"@),
        ("status_bg"@, "reset"@),
        ("status_fg"@, "#AAD94C"@),
        ("url"@, "#95E6CB"@),
    ]
}

/// No two pairs of `ps` share a key.
pub open spec fn keys_unique(ps: Seq<(Seq<char>, Seq<char>)>) -> bool {
    forall|i: int, j: int| 0 <= i < j < ps.len() ==> (#[trigger] ps[i]).0 != (#[trigger] ps[j]).0
}

/// The key of pair `k` of `ps` comes before the key of pair `k + 1`.
pub open spec fn key_before_next(ps: Seq<(Seq<char>, Seq<char>)>, k: int) -> bool {
    text_lt(ps[k].0, ps[k + 1].0)
}

proof fn lemma_keys_chain(ps: Seq<(Seq<char>, Seq<char>)>, i: int, j: int)
    requires
        0 <= i < j < ps.len(),
        forall|k: int| 0 <= k < ps.len() - 1 ==> #[trigger] key_before_next(ps, k),
    ensures
        text_lt(ps[i].0, ps[j].0),
    decreases j - i,
{
    assert(key_before_next(ps, j - 1));
    if i < j - 1 {
        lemma_keys_chain(ps, i, j - 1);
        lemma_text_lt_trans(ps[i].0, ps[j - 1].0, ps[j].0);
    }
}

/// Pairs whose keys rise from each pair to the next have unique keys.
proof fn lemma_rising_keys_unique(ps: Seq<(Seq<char>, Seq<char>)>)
    requires
        forall|k: int| 0 <= k < ps.len() - 1 ==> #[trigger] key_before_next(ps, k),
    ensures
        keys_unique(ps),
{
    assert forall|i: int, j: int| 0 <= i < j < ps.len() implies (#[trigger] ps[i]).0 != (
    #[trigger] ps[j]).0 by {
        lemma_keys_chain(ps, i, j);
        lemma_text_lt_irreflexive(ps[i].0);
    }
}

/// The built-in color slots are named once each (they are listed in rising order).
pub proof fn lemma_default_colors_unique()
    ensures
        keys_unique(default_colors()),
{
    let ps = default_colors();
    assert forall|k: int| 0 <= k < ps.len() - 1 implies #[trigger] key_before_next(ps, k) by {
        if k == 0 {
            reveal_strlit("accent");
            reveal_strlit("bg");
            reveal_with_fuel(text_lt, 2);
        } else if k == 1 {
            reveal_strlit("bg");
            reveal_strlit("border_bottom");
            reveal_with_fuel(text_lt, 3);
        } else if k == 2 {
            reveal_strlit("border_bottom");
            reveal_strlit("border_left");
            reveal_with_fuel(text_lt, 9);
        } else if k == 3 {
            reveal_strlit("border_left");
            reveal_strlit("border_right");
            reveal_with_fuel(text_lt, 9);
        } else if k == 4 {
            reveal_strlit("border_right");
            reveal_strlit("border_top");
            reveal_with_fuel(text_lt, 9);
        } else if k == 5 {
            reveal_strlit("border_top");
            reveal_strlit("button_cancel_bg");
            reveal_with_fuel(text_lt, 3);
        } else if k == 6 {
            reveal_strlit("button_cancel_bg");
            reveal_strlit("button_cancel_fg");
            reveal_with_fuel(text_lt, 16);
        } else if k == 7 {
            reveal_strlit("button_cancel_fg");
            reveal_strlit("button_delete_bg");
            reveal_with_fuel(text_lt, 9);
        } else if k == 8 {
            reveal_strlit("button_delete_bg");
            reveal_strlit("button_delete_fg");
            reveal_with_fuel(text_lt, 16);
        } else if k == 9 {
            reveal_strlit("button_delete_fg");
            reveal_strlit("button_save_bg");
            reveal_with_fuel(text_lt, 9);
        } else if k == 10 {
            reveal_strlit("button_save_bg");
            reveal_strlit("button_save_fg");
            reveal_with_fuel(text_lt, 14);
        } else if k == 11 {
            reveal_strlit("button_save_fg");
            reveal_strlit("delete_border");
            reveal_with_fuel(text_lt, 2);
        } else if k == 12 {
            reveal_strlit("delete_border");
            reveal_strlit("delete_text");
            reveal_with_fuel(text_lt, 9);
        } else if k == 13 {
            reveal_strlit("delete_text");
            reveal_strlit("fg");
            reveal_with_fuel(text_lt, 2);
        } else if k == 14 {
            reveal_strlit("fg");
            reveal_strlit("field_active_border");
            reveal_with_fuel(text_lt, 3);
        } else if k == 15 {
            reveal_strlit("field_active_border");
            reveal_strlit("field_inactive_border");
            reveal_with_fuel(text_lt, 8);
        } else if k == 16 {
            reveal_strlit("field_inactive_border");
            reveal_strlit("field_placeholder");
            reveal_with_fuel(text_lt, 8);
        } else if k == 17 {
            reveal_strlit("field_placeholder");
            reveal_strlit("field_text");
            reveal_with_fuel(text_lt, 8);
        } else if k == 18 {
            reveal_strlit("field_text");
            reveal_strlit("folder");
            reveal_with_fuel(text_lt, 3);
        } else if k == 19 {
            reveal_strlit("folder");
            reveal_strlit("header");
            reveal_with_fuel(text_lt, 2);
        } else if k == 20 {
            reveal_strlit("header");
            reveal_strlit("header_bg");
            reveal_with_fuel(text_lt, 8);
        } else if k == 21 {
            reveal_strlit("header_bg");
            reveal_strlit("match_highlight");
            reveal_with_fuel(text_lt, 2);
        } else if k == 22 {
            reveal_strlit("match_highlight");
            reveal_strlit("multiselect_bg");
            reveal_with_fuel(text_lt, 3);
        } else if k == 23 {
            reveal_strlit("multiselect_bg");
            reveal_strlit("multiselect_fg");
            reveal_with_fuel(text_lt, 14);
        } else if k == 24 {
            reveal_strlit("multiselect_fg");
            reveal_strlit("muted");
            reveal_with_fuel(text_lt, 4);
        } else if k == 25 {
            reveal_strlit("muted");
            reveal_strlit("name");
            reveal_with_fuel(text_lt, 2);
        } else if k == 26 {
            reveal_strlit("name");
            reveal_strlit("search_border");
            reveal_with_fuel(text_lt, 2);
        } else if k == 27 {
            reveal_strlit("search_border");
            reveal_strlit("search_fg");
            reveal_with_fuel(text_lt, 9);
        } else if k == 28 {
            reveal_strlit("search_fg");
            reveal_strlit("selected_bg");
            reveal_with_fuel(text_lt, 4);
        } else if k == 29 {
            reveal_strlit("selected_bg");
            reveal_strlit("selected_fg");
            reveal_with_fuel(text_lt, 11);
        } else if k == 30 {
            reveal_strlit("selected_fg");
            reveal_strlit("status_bg");
            reveal_with_fuel(text_lt, 3);
        } else if k == 31 {
            reveal_strlit("status_bg");
            reveal_strlit("status_fg");
            reveal_with_fuel(text_lt, 9);
        } else if k == 32 {
            reveal_strlit("status_fg");
            reveal_strlit("url");
            reveal_with_fuel(text_lt, 2);
        }
    }
    lemma_rising_keys_unique(ps);
}

impl ThemeConfig {
    /// Each color slot is named once (the configuration file is a table).
    pub open spec fn wf(&self) -> bool {
        keys_unique(pairs_view(self.colors@))
    }
}

impl Config {
    /// Each color slot and each key binding is named once (the configuration file's
    /// tables hold each key once).
    pub open spec fn wf(&self) -> bool {
        &&& self.theme.wf()
        &&& keys_unique(pairs_view(self.keybindings@))
    }
}

/// `s` with every `~` replaced by `home`.
pub open spec fn expand_tilde(s: Seq<char>, home: Seq<char>) -> Seq<char>
    decreases s.len(),
{
    if s.len() == 0 {
        s
    } else if s.last() == '~' {
        expand_tilde(s.drop_last(), home) + home
    } else {
        expand_tilde(s.drop_last(), home).push(s.last())
    }
}

impl Default for Config {
    fn default() -> (r: Self)
        ensures
            r.window.width == 100,
            r.window.height == 30,
            r.launcher.command@ == "omarchy-launch-webapp"@,
            r.launcher.args@.map_values(|s: String| s@) == seq!["--isolate"@],
            r.paths.bookmarks@ == "~/.local/share/edbookmark/bookmarks.json"@,
            r.theme.preset@ == "ayu-dark"@,
            r.theme.transparent_bg,
            pairs_view(r.theme.colors@) == default_colors(),
            r.keybindings@.len() == 0,
            r.wf(),
    {
        let mut colors: Vec<(String, String)> = Vec::new();
        colors.push((owned("accent"), owned("#E6B450")));
        colors.push((owned("bg"), owned("reset")));
        colors.push((owned("border_bottom"), owned("#FF8F40")));
        colors.push((owned("border_left"), owned("#D2A6FF")));
        colors.push((owned("border_right"), owned("#AAD94C")));
        colors.push((owned("border_top"), owned("#39BAE6")));
        colors.push((owned("button_cancel_bg"), owned("#3E4B59")));
        colors.push((owned("button_cancel_fg"), owned("#BFBDB6")));
        colors.push((owned("button_delete_bg"), owned("#F07178")));
        colors.push((owned("button_delete_fg"), owned("#0D1017")));
        colors.push((owned("button_save_bg"), owned("#AAD94C")));
        colors.push((owned("button_save_fg"), owned("#0D1017")));
        colors.push((owned("delete_border"), owned("#F07178")));
        colors.push((owned("delete_text"), owned("#F07178")));
        colors.push((owned("fg"), owned("#BFBDB6")));
        colors.push((owned("field_active_border"), owned("#39BAE6")));
        colors.push((owned("field_inactive_border"), owned("#565B66")));
        colors.push((owned("field_placeholder"), owned("#565B66")));
        colors.push((owned("field_text"), owned("#E6E1CF")));
        colors.push((owned("folder"), owned("#D2A6FF")));
        colors.push((owned("header"), owned("#FF8F40")));
        colors.push((owned("header_bg"), owned("reset")));
        colors.push((owned("match_highlight"), owned("#F07178")));
        colors.push((owned("multiselect_bg"), owned("#3E4B59")));
        colors.push((owned("multiselect_fg"), owned("#E6E1CF")));
        colors.push((owned("muted"), owned("#565B66")));
        colors.push((owned("name"), owned("#E6E1CF")));
        colors.push((owned("search_border"), owned("#39BAE6")));
        colors.push((owned("search_fg"), owned("#E6E1CF")));
        colors.push((owned("selected_bg"), owned("#2D4F67")));
        colors.push((owned("selected_fg"), owned("#E6E1CF")));
        colors.push((owned("status_bg"), owned("reset")));
        colors.push((owned("status_fg"), owned("#AAD94C")));
        colors.push((owned("url"), owned("#95E6CB")));
        assert(pairs_view(colors@) =~= default_colors());
        proof {
            lemma_default_colors_unique();
        }
        let keybindings: Vec<(String, String)> = Vec::new();
        assert(pairs_view(keybindings@) =~= Seq::<(Seq<char>, Seq<char>)>::empty());
        let args = vec![owned("--isolate")];
        assert(args@.map_values(|s: String| s@) =~= seq!["--isolate"@]);
        Config {
            window: WindowConfig { width: 100, height: 30 },
            launcher: LauncherConfig { command: owned("omarchy-launch-webapp"), args },
            paths: PathsConfig { bookmarks: owned("~/.local/share/edbookmark/bookmarks.json") },
            theme: ThemeConfig { preset: owned("ayu-dark"), transparent_bg: true, colors },
            keybindings,
        }
    }
}

/// `dirs::home_dir()` as text (lossily converted); depends on the environment,
/// so nothing is promised of the result.
#[verifier::external_body]
fn home_dir_text() -> (r: Option<String>) {
    match dirs::home_dir() {
        Some(p) => Some(p.to_string_lossy().into_owned()),
        None => None,
    }
}

/// `path` with every `~` replaced by `home`.
pub fn expand_home(path: &str, home: &str) -> (r: String)
    ensures
        r@ == expand_tilde(path@, home@),
{
    let v = chars_of(path);
    let mut out = String::new();
    let mut i: usize = 0;
    assert(v@.take(0) =~= Seq::<char>::empty());
    while i < v.len()
        invariant
            i <= v.len(),
            v@ == path@,
            out@ == expand_tilde(v@.take(i as int), home@),
        decreases v.len() - i,
    {
        assert(v@.take(i + 1).drop_last() =~= v@.take(i as int));
        if v[i] == '~' {
            push_all(&mut out, home);
        } else {
            push_char(&mut out, v[i]);
        }
        i += 1;
    }
    assert(v@.take(v.len() as int) =~= v@);
    out
}

impl Config {
    /// The bookmark file path with `~` expanded to the home directory; `None` when the
    /// home directory cannot be determined.
    pub fn bookmarks_path(&self) -> (r: Option<String>)
        ensures
            r matches Some(p) ==> exists|home: Seq<char>| p@ == expand_tilde(self.paths.bookmarks@, home),
    {
        match home_dir_text() {
            Some(home) => Some(expand_home(self.paths.bookmarks.as_str(), home.as_str())),
            None => None,
        }
    }
}

} // verus!
