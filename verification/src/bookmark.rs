//! Bookmarks and the bookmark store.
use vstd::prelude::*;
use crate::text::{chars_of, owned, push_all, push_char, str_eq};

verus! {

/// A bookmark. Times are UTC instants in microseconds since the Unix epoch.
pub struct Bookmark {
    pub id: String,
    pub name: String,
    pub url: String,
    pub folder: String,
    pub created_at: i64,
    pub updated_at: i64,
}

impl Clone for Bookmark {
    fn clone(&self) -> (r: Self)
        ensures
            r == *self,
    {
        Bookmark {
            id: self.id.clone(),
            name: self.name.clone(),
            url: self.url.clone(),
            folder: self.folder.clone(),
            created_at: self.created_at,
            updated_at: self.updated_at,
        }
    }
}

/// Shape of a hyphenated lower-case UUID text: 36 characters, hyphens at 8, 13, 18
/// and 23, lower-case hexadecimal digits elsewhere.
pub open spec fn is_hyphenated_uuid(s: Seq<char>) -> bool {
    &&& s.len() == 36
    &&& forall|i: int|
        0 <= i < 36 ==> if i == 8 || i == 13 || i == 18 || i == 23 {
            s[i] == '-'
        } else {
            ('0' <= #[trigger] s[i] <= '9') || ('a' <= s[i] <= 'f')
        }
}

/// `uuid::Uuid::new_v4().to_string()`: a fresh random identifier. Nothing about
/// its value is promised beyond the hyphenated lower-case format that `Display`
/// writes (36 characters).
#[verifier::external_body]
pub(crate) fn new_uuid_v4_string() -> (r: String)
    ensures
        is_hyphenated_uuid(r@),
{
    uuid::Uuid::new_v4().to_string()
}

/// `chrono::Utc::now().timestamp_micros()`: the current time; nothing is promised of it.
#[verifier::external_body]
pub(crate) fn now_micros() -> (r: i64) {
    chrono::Utc::now().timestamp_micros()
}

/// The text that search matches against: name, URL and folder separated by spaces.
pub open spec fn searchable(b: Bookmark) -> Seq<char> {
    b.name@ + seq![' '] + b.url@ + seq![' '] + b.folder@
}

impl Bookmark {
    /// A new bookmark with a fresh identifier, created and updated now.
    pub fn new(name: String, url: String, folder: String) -> (r: Self)
        ensures
            r.name == name,
            r.url == url,
            r.folder == folder,
            r.created_at == r.updated_at,
            is_hyphenated_uuid(r.id@),
    {
        let now = now_micros();
        Bookmark { id: new_uuid_v4_string(), name, url, folder, created_at: now, updated_at: now }
    }

    /// Name, URL and folder in one text, for searching.
    pub fn searchable_text(&self) -> (r: String)
        ensures
            r@ == searchable(*self),
    {
        let mut s = owned(self.name.as_str());
        push_char(&mut s, ' ');
        push_all(&mut s, self.url.as_str());
        push_char(&mut s, ' ');
        push_all(&mut s, self.folder.as_str());
        s
    }
}

pub struct BookmarkStore {
    pub version: String,
    pub bookmarks: Vec<Bookmark>,
}

/// Index of the first bookmark of `bs` at or after `from` whose id is `id`.
pub open spec fn first_with_id_from(bs: Seq<Bookmark>, id: Seq<char>, from: int) -> Option<int>
    decreases bs.len() - from,
{
    if from < 0 || from >= bs.len() {
        None
    } else if bs[from].id@ == id {
        Some(from)
    } else {
        first_with_id_from(bs, id, from + 1)
    }
}

/// Index of the first bookmark of `bs` whose id is `id`.
pub open spec fn first_with_id(bs: Seq<Bookmark>, id: Seq<char>) -> Option<int> {
    first_with_id_from(bs, id, 0)
}

pub proof fn lemma_first_with_id_from(bs: Seq<Bookmark>, id: Seq<char>, from: int)
    requires
        0 <= from,
    ensures
        match first_with_id_from(bs, id, from) {
            Some(i) => from <= i < bs.len() && bs[i].id@ == id && forall|j: int|
                from <= j < i ==> (#[trigger] bs[j]).id@ != id,
            None => forall|j: int| from <= j < bs.len() ==> (#[trigger] bs[j]).id@ != id,
        },
    decreases bs.len() - from,
{
    if from < bs.len() && bs[from].id@ != id {
        lemma_first_with_id_from(bs, id, from + 1);
    }
}

/// The bookmarks of `bs`, in order, whose ids are not in `ids`.
pub open spec fn without_ids(bs: Seq<Bookmark>, ids: Seq<Seq<char>>) -> Seq<Bookmark>
    decreases bs.len(),
{
    if bs.len() == 0 {
        bs
    } else if ids.contains(bs.last().id@) {
        without_ids(bs.drop_last(), ids)
    } else {
        without_ids(bs.drop_last(), ids).push(bs.last())
    }
}

/// `new` is `old` with the first bookmark whose id is `id` renamed, re-addressed and
/// re-filed (its id and creation time kept); unchanged when no bookmark has that id.
pub open spec fn is_update(
    old: Seq<Bookmark>,
    new: Seq<Bookmark>,
    id: Seq<char>,
    name: Seq<char>,
    url: Seq<char>,
    folder: Seq<char>,
) -> bool {
    &&& new.len() == old.len()
    &&& match first_with_id(old, id) {
        None => new == old,
        Some(i) => {
            &&& forall|j: int| 0 <= j < old.len() && j != i ==> #[trigger] new[j] == old[j]
            &&& new[i].id == old[i].id
            &&& new[i].name@ == name
            &&& new[i].url@ == url
            &&& new[i].folder@ == folder
            &&& new[i].created_at == old[i].created_at
        },
    }
}

/// `new` is `old` with a fresh bookmark named `name` for `url` in `folder` appended.
pub open spec fn is_add(old: Seq<Bookmark>, new: Seq<Bookmark>, name: Seq<char>, url: Seq<char>, folder: Seq<char>) -> bool {
    &&& new.len() == old.len() + 1
    &&& new.take(old.len() as int) == old
    &&& new.last().name@ == name
    &&& new.last().url@ == url
    &&& new.last().folder@ == folder
    &&& new.last().created_at == new.last().updated_at
    &&& is_hyphenated_uuid(new.last().id@)
}

/// Some bookmark of `bs` has URL `url`.
pub open spec fn has_url(bs: Seq<Bookmark>, url: Seq<char>) -> bool {
    exists|i: int| 0 <= i < bs.len() && (#[trigger] bs[i]).url@ == url
}

/// Code-point lexicographic order on texts (the order of `String`'s `Ord`).
pub open spec fn text_lt(a: Seq<char>, b: Seq<char>) -> bool
    decreases a.len(),
{
    if b.len() == 0 {
        false
    } else if a.len() == 0 {
        true
    } else if a[0] != b[0] {
        (a[0] as u32) < (b[0] as u32)
    } else {
        text_lt(a.drop_first(), b.drop_first())
    }
}

/// `s` is strictly increasing in `text_lt`.
pub open spec fn strictly_sorted(s: Seq<Seq<char>>) -> bool {
    forall|i: int, j: int| 0 <= i < j < s.len() ==> text_lt(#[trigger] s[i], #[trigger] s[j])
}

/// The folders that the bookmarks of `bs` use.
pub open spec fn folder_set(bs: Seq<Bookmark>) -> Set<Seq<char>> {
    Set::new(|f: Seq<char>| exists|i: int| 0 <= i < bs.len() && (#[trigger] bs[i]).folder@ == f)
}

pub proof fn lemma_text_lt_irreflexive(a: Seq<char>)
    ensures
        !text_lt(a, a),
    decreases a.len(),
{
    if a.len() > 0 {
        lemma_text_lt_irreflexive(a.drop_first());
    }
}

pub proof fn lemma_text_lt_trans(a: Seq<char>, b: Seq<char>, c: Seq<char>)
    requires
        text_lt(a, b),
        text_lt(b, c),
    ensures
        text_lt(a, c),
    decreases a.len(),
{
    if a.len() > 0 && b.len() > 0 && c.len() > 0 && a[0] == b[0] && b[0] == c[0] {
        lemma_text_lt_trans(a.drop_first(), b.drop_first(), c.drop_first());
    }
}

pub proof fn lemma_text_lt_total(a: Seq<char>, b: Seq<char>)
    ensures
        a == b || text_lt(a, b) || text_lt(b, a),
    decreases a.len(),
{
    if a.len() > 0 && b.len() > 0 && a[0] == b[0] {
        lemma_text_lt_total(a.drop_first(), b.drop_first());
        if a.drop_first() == b.drop_first() {
            assert(a =~= seq![a[0]] + a.drop_first());
            assert(b =~= seq![b[0]] + b.drop_first());
        }
    } else if a.len() > 0 && b.len() > 0 {
        assert(a[0] as u32 != b[0] as u32) by {
            vstd::utf8::char_u32_cast(a[0], a[0] as u32);
            vstd::utf8::char_u32_cast(b[0], b[0] as u32);
        }
    } else if a.len() == 0 && b.len() == 0 {
        assert(a =~= b);
    }
}

/// Compares two texts in code-point lexicographic order.
pub fn text_less(a: &str, b: &str) -> (r: bool)
    ensures
        r == text_lt(a@, b@),
{
    let va = chars_of(a);
    let vb = chars_of(b);
    let mut i: usize = 0;
    assert(va@.skip(0) =~= va@);
    assert(vb@.skip(0) =~= vb@);
    while i < va.len() && i < vb.len() && va[i] == vb[i]
        invariant
            i <= va.len(),
            i <= vb.len(),
            va@ == a@,
            vb@ == b@,
            text_lt(a@, b@) == text_lt(va@.skip(i as int), vb@.skip(i as int)),
        decreases va.len() - i,
    {
        assert(va@.skip(i as int).drop_first() =~= va@.skip(i + 1));
        assert(vb@.skip(i as int).drop_first() =~= vb@.skip(i + 1));
        i += 1;
    }
    if i == vb.len() {
        assert(vb@.skip(i as int).len() == 0);
        false
    } else if i == va.len() {
        assert(va@.skip(i as int).len() == 0);
        true
    } else {
        assert(va@.skip(i as int)[0] == va@[i as int]);
        assert(vb@.skip(i as int)[0] == vb@[i as int]);
        (va[i] as u32) < (vb[i] as u32)
    }
}

impl Default for BookmarkStore {
    fn default() -> (r: Self)
        ensures
            r.version@ == "1.0"@,
            r.bookmarks@.len() == 0,
    {
        BookmarkStore { version: owned("1.0"), bookmarks: Vec::new() }
    }
}

impl BookmarkStore {
    pub fn add(&mut self, bookmark: Bookmark)
        ensures
            final(self).bookmarks@ == old(self).bookmarks@.push(bookmark),
            final(self).version == old(self).version,
    {
        self.bookmarks.push(bookmark);
    }

    /// Removes every bookmark whose id is `id`, keeping the order of the others.
    pub fn remove(&mut self, id: &str)
        ensures
            final(self).bookmarks@ == without_ids(old(self).bookmarks@, seq![id@]),
            final(self).version == old(self).version,
    {
        let ids = vec![owned(id)];
        assert(ids@.map_values(|s: String| s@) =~= seq![id@]);
        self.remove_many(ids.as_slice());
    }

    /// Removes every bookmark whose id is one of `ids`, keeping the order of the others.
    pub fn remove_many(&mut self, ids: &[String])
        ensures
            final(self).bookmarks@ == without_ids(
                old(self).bookmarks@,
                ids@.map_values(|s: String| s@),
            ),
            final(self).version == old(self).version,
    {
        let ghost idv = ids@.map_values(|s: String| s@);
        let mut kept: Vec<Bookmark> = Vec::new();
        let n = self.bookmarks.len();
        let mut i: usize = 0;
        while i < n
            invariant
                i <= n == self.bookmarks.len(),
                self.bookmarks@ == old(self).bookmarks@,
                self.version == old(self).version,
                idv == ids@.map_values(|s: String| s@),
                kept@ == without_ids(self.bookmarks@.take(i as int), idv),
            decreases n - i,
        {
            let listed = contains_text(ids, self.bookmarks[i].id.as_str());
            assert(self.bookmarks@.take(i + 1).drop_last() =~= self.bookmarks@.take(i as int));
            if !listed {
                kept.push(self.bookmarks[i].clone());
            }
            i += 1;
        }
        assert(self.bookmarks@.take(n as int) =~= self.bookmarks@);
        self.bookmarks = kept;
    }

    /// Renames, re-addresses and re-files the first bookmark whose id is `id`,
    /// stamping it as updated now; nothing happens when no bookmark has that id.
    pub fn update(&mut self, id: &str, name: String, url: String, folder: String)
        ensures
            final(self).version == old(self).version,
            is_update(old(self).bookmarks@, final(self).bookmarks@, id@, name@, url@, folder@),
    {
        proof {
            lemma_first_with_id_from(self.bookmarks@, id@, 0);
        }
        match self.position_of(id) {
            None => {},
            Some(i) => {
                let len = self.bookmarks.len();
                proof {
                    lemma_first_with_id_from(self.bookmarks@, id@, 0);
                    match first_with_id_from(self.bookmarks@, id@, 0) {
                        Some(k) => {
                            assert(0 <= k < len);
                        },
                        None => {},
                    }
                }
                assert(first_with_id(old(self).bookmarks@, id@) == Some(i as int));
                let old_b = self.bookmarks.remove(i);
                let b = Bookmark {
                    id: old_b.id,
                    name,
                    url,
                    folder,
                    created_at: old_b.created_at,
                    updated_at: now_micros(),
                };
                let ghost gb = b;
                self.bookmarks.insert(i, b);
                assert(self.bookmarks@ =~= old(self).bookmarks@.update(i as int, gb));
                assert(forall|j: int|
                    0 <= j < old(self).bookmarks@.len() && j != i ==> #[trigger] self.bookmarks@[j]
                        == old(self).bookmarks@[j]);
                assert(is_update(old(self).bookmarks@, self.bookmarks@, id@, gb.name@, gb.url@, gb.folder@));
            },
        }
    }

    fn position_of(&self, id: &str) -> (r: Option<usize>)
        ensures
            match first_with_id(self.bookmarks@, id@) {
                None => r is None,
                Some(i) => r == Some(i as usize),
            },
    {
        let n = self.bookmarks.len();
        let mut i: usize = 0;
        while i < n
            invariant
                i <= n == self.bookmarks.len(),
                first_with_id(self.bookmarks@, id@) == first_with_id_from(self.bookmarks@, id@, i as int),
            decreases n - i,
        {
            if str_eq(self.bookmarks[i].id.as_str(), id) {
                return Some(i);
            }
            i += 1;
        }
        None
    }

    /// The first bookmark whose id is `id`.
    pub fn find_by_id(&self, id: &str) -> (r: Option<&Bookmark>)
        ensures
            first_with_id(self.bookmarks@, id@) is None ==> r is None,
            first_with_id(self.bookmarks@, id@) matches Some(i) ==> (r matches Some(b) && *b
                == self.bookmarks@[i]),
    {
        proof {
            lemma_first_with_id_from(self.bookmarks@, id@, 0);
        }
        let n = self.bookmarks.len();
        let mut i: usize = 0;
        while i < n
            invariant
                i <= n == self.bookmarks.len(),
                first_with_id(self.bookmarks@, id@) == first_with_id_from(self.bookmarks@, id@, i as int),
            decreases n - i,
        {
            if str_eq(self.bookmarks[i].id.as_str(), id) {
                return Some(&self.bookmarks[i]);
            }
            i += 1;
        }
        None
    }

    /// The folders in use, each once, in sorted order.
    pub fn folders(&self) -> (r: Vec<String>)
        ensures
            strictly_sorted(r@.map_values(|s: String| s@)),
            r@.map_values(|s: String| s@).to_set() == folder_set(self.bookmarks@),
    {
        let mut out: Vec<String> = Vec::new();
        let n = self.bookmarks.len();
        let mut i: usize = 0;
        while i < n
            invariant
                i <= n == self.bookmarks.len(),
                strictly_sorted(out@.map_values(|s: String| s@)),
                out@.map_values(|s: String| s@).to_set() == folder_set(self.bookmarks@.take(i as int)),
            decreases n - i,
        {
            let ghost before = out@.map_values(|s: String| s@);
            insert_sorted_unique(&mut out, &self.bookmarks[i].folder);
            proof {
                let bs = self.bookmarks@.take(i + 1);
                let prev = self.bookmarks@.take(i as int);
                assert(folder_set(bs) =~= folder_set(prev).insert(self.bookmarks@[i as int].folder@)) by {
                    assert forall|f: Seq<char>| folder_set(bs).contains(f) implies folder_set(
                        prev,
                    ).insert(self.bookmarks@[i as int].folder@).contains(f) by {
                        let j = choose|j: int| 0 <= j < bs.len() && (#[trigger] bs[j]).folder@ == f;
                        if j < i {
                            assert(prev[j] == bs[j]);
                        }
                    }
                    assert forall|f: Seq<char>| folder_set(prev).insert(
                        self.bookmarks@[i as int].folder@,
                    ).contains(f) implies folder_set(bs).contains(f) by {
                        if f == self.bookmarks@[i as int].folder@ {
                            assert(bs[i as int].folder@ == f);
                        } else {
                            let j = choose|j: int| 0 <= j < prev.len() && (#[trigger] prev[j]).folder@ == f;
                            assert(bs[j] == prev[j]);
                        }
                    }
                }
            }
            i += 1;
        }
        assert(self.bookmarks@.take(n as int) =~= self.bookmarks@);
        out
    }

    /// Whether some bookmark has this URL (imports skip such URLs).
    pub fn url_exists(&self, url: &str) -> (r: bool)
        ensures
            r == has_url(self.bookmarks@, url@),
    {
        let n = self.bookmarks.len();
        let mut i: usize = 0;
        while i < n
            invariant
                i <= n == self.bookmarks.len(),
                forall|j: int| 0 <= j < i ==> (#[trigger] self.bookmarks@[j]).url@ != url@,
            decreases n - i,
        {
            if str_eq(self.bookmarks[i].url.as_str(), url) {
                return true;
            }
            i += 1;
        }
        false
    }
}

/// Whether `t` is one of the texts in `list`.
pub fn contains_text(list: &[String], t: &str) -> (r: bool)
    ensures
        r == list@.map_values(|s: String| s@).contains(t@),
{
    let n = list.len();
    let mut i: usize = 0;
    while i < n
        invariant
            i <= n == list@.len(),
            forall|j: int| 0 <= j < i ==> (#[trigger] list@[j])@ != t@,
        decreases n - i,
    {
        if str_eq(list[i].as_str(), t) {
            assert(list@.map_values(|s: String| s@)[i as int] == t@);
            return true;
        }
        i += 1;
    }
    proof {
        let m = list@.map_values(|s: String| s@);
        if m.contains(t@) {
            let j = choose|j: int| 0 <= j < m.len() && #[trigger] m[j] == t@;
            assert(list@[j]@ == t@);
        }
    }
    false
}

/// Inserts `t` into a strictly sorted list of texts unless it is already there.
fn insert_sorted_unique(out: &mut Vec<String>, t: &String)
    requires
        strictly_sorted(old(out)@.map_values(|s: String| s@)),
    ensures
        strictly_sorted(final(out)@.map_values(|s: String| s@)),
        final(out)@.map_values(|s: String| s@).to_set() == old(out)@.map_values(|s: String| s@).to_set().insert(t@),
{
    let ghost o = old(out)@.map_values(|s: String| s@);
    let n = out.len();
    let mut i: usize = 0;
    while i < n && text_less(out[i].as_str(), t.as_str())
        invariant
            i <= n == out.len(),
            out@ == old(out)@,
            o == out@.map_values(|s: String| s@),
            strictly_sorted(o),
            forall|j: int| 0 <= j < i ==> text_lt(#[trigger] o[j], t@),
        decreases n - i,
    {
        i += 1;
    }
    if i < n && str_eq(out[i].as_str(), t.as_str()) {
        proof {
            assert(o.to_set().insert(t@) =~= o.to_set()) by {
                assert(o[i as int] == t@);
            }
        }
        return;
    }
    proof {
        if i < n {
            lemma_text_lt_total(o[i as int], t@);
        }
    }
    out.insert(i, t.clone());
    proof {
        let nw = out@.map_values(|s: String| s@);
        assert(nw =~= o.insert(i as int, t@));
        assert forall|a: int, b: int| 0 <= a < b < nw.len() implies text_lt(
            #[trigger] nw[a],
            #[trigger] nw[b],
        ) by {
            if b < i {
                assert(nw[a] == o[a] && nw[b] == o[b]);
            } else if b == i {
                assert(nw[a] == o[a]);
            } else if a < i {
                assert(nw[a] == o[a] && nw[b] == o[b - 1]);
                assert(text_lt(o[a], t@));
                assert(text_lt(t@, o[i as int]));
                if b - 1 > i {
                    lemma_text_lt_trans(t@, o[i as int], o[b - 1]);
                }
                lemma_text_lt_trans(o[a], t@, o[b - 1]);
            } else if a == i {
                assert(nw[b] == o[b - 1]);
                if b - 1 > i {
                    lemma_text_lt_trans(t@, o[i as int], o[b - 1]);
                }
            } else {
                assert(nw[a] == o[a - 1] && nw[b] == o[b - 1]);
            }
        }
        assert(nw.to_set() =~= o.to_set().insert(t@)) by {
            assert forall|x: Seq<char>| nw.to_set().contains(x) implies o.to_set().insert(t@).contains(x) by {
                let j = choose|j: int| 0 <= j < nw.len() && nw[j] == x;
                if j < i {
                    assert(o[j] == x);
                } else if j > i {
                    assert(o[j - 1] == x);
                }
            }
            assert forall|x: Seq<char>| o.to_set().insert(t@).contains(x) implies nw.to_set().contains(x) by {
                if x == t@ {
                    assert(nw[i as int] == x);
                } else {
                    let j = choose|j: int| 0 <= j < o.len() && o[j] == x;
                    if j < i {
                        assert(nw[j] == x);
                    } else {
                        assert(nw[j + 1] == x);
                    }
                }
            }
        }
    }
}

// ─── laws ────────────────────────────────────────────────────────────────

/// Deleting by ids leaves no bookmark with one of those ids, keeps every other
/// bookmark, and brings in nothing new.
pub proof fn law_deleted_ids_are_gone(bs: Seq<Bookmark>, ids: Seq<Seq<char>>)
    ensures
        forall|j: int|
            0 <= j < without_ids(bs, ids).len() ==> !ids.contains(
                (#[trigger] without_ids(bs, ids)[j]).id@,
            ) && bs.contains(without_ids(bs, ids)[j]),
        forall|i: int|
            0 <= i < bs.len() && !ids.contains((#[trigger] bs[i]).id@) ==> without_ids(
                bs,
                ids,
            ).contains(bs[i]),
    decreases bs.len(),
{
    if bs.len() > 0 {
        let init = bs.drop_last();
        law_deleted_ids_are_gone(init, ids);
        let r = without_ids(bs, ids);
        let ri = without_ids(init, ids);
        assert forall|j: int| 0 <= j < r.len() implies !ids.contains((#[trigger] r[j]).id@)
            && bs.contains(r[j]) by {
            if j < ri.len() {
                assert(r[j] == ri[j]);
                assert(init.contains(ri[j]));
                let k = choose|k: int| 0 <= k < init.len() && init[k] == ri[j];
                assert(bs[k] == init[k]);
            } else {
                assert(r[j] == bs.last());
                assert(bs[bs.len() - 1] == bs.last());
            }
        }
        assert forall|i: int| 0 <= i < bs.len() && !ids.contains((#[trigger] bs[i]).id@) implies r.contains(
            bs[i],
        ) by {
            if i < init.len() {
                assert(init[i] == bs[i]);
                assert(ri.contains(init[i]));
                let k = choose|k: int| 0 <= k < ri.len() && ri[k] == init[i];
                assert(r[k] == ri[k]);
            } else {
                assert(bs[i] == bs.last());
                assert(r[r.len() - 1] == bs.last());
            }
        }
    }
}

} // verus!
