//! Multi-word fuzzy search over bookmarks and folder names.
use vstd::prelude::*;
use crate::bookmark::{searchable, Bookmark};
use crate::text::{char_is_whitespace, chars_of, is_white_space, push_char};
use fuzzy_matcher::skim::SkimMatcherV2;
use fuzzy_matcher::FuzzyMatcher;

verus! {

#[verifier::external_type_specification]
#[verifier::external_body]
pub struct ExSkimMatcherV2(SkimMatcherV2);

/// The score that the default-configured Skim V2 matcher gives `pattern` against
/// `choice` (`None`: no match).
pub uninterp spec fn skim_score(choice: Seq<char>, pattern: Seq<char>) -> Option<i64>;

/// `SkimMatcherV2::default()`: a matcher with the default scoring, smart case and caching.
#[verifier::external_body]
fn default_matcher() -> (r: SkimMatcherV2) {
    SkimMatcherV2::default()
}

/// The white-space separated words of `s` (`str::split_whitespace`).
pub open spec fn words_of(s: Seq<char>) -> Seq<Seq<char>>
    decreases s.len(),
{
    if s.len() == 0 {
        seq![]
    } else if is_white_space(s.last()) {
        words_of(s.drop_last())
    } else if s.len() == 1 || is_white_space(s.drop_last().last()) {
        words_of(s.drop_last()).push(seq![s.last()])
    } else {
        let w = words_of(s.drop_last());
        w.update(w.len() - 1, w.last().push(s.last()))
    }
}

/// Total score of all `words` against `text`: the wrapping sum of their scores, or
/// `None` when some word does not match. No words score 0.
pub open spec fn words_score(text: Seq<char>, words: Seq<Seq<char>>) -> Option<i64>
    decreases words.len(),
{
    if words.len() == 0 {
        Some(0)
    } else {
        match (words_score(text, words.drop_last()), skim_score(text, words.last())) {
            (Some(a), Some(b)) => Some(a.wrapping_add(b)),
            _ => None,
        }
    }
}

/// The score of a bookmark for a query.
pub open spec fn bookmark_score(b: Bookmark, query: Seq<char>) -> Option<i64> {
    words_score(searchable(b), words_of(query))
}

/// The score of a folder name for a query (empty query: every folder, score 0).
pub open spec fn folder_score(f: Seq<char>, query: Seq<char>) -> Option<i64> {
    if query.len() == 0 {
        Some(0)
    } else {
        skim_score(f, query)
    }
}

/// The scores of a list of folder names for a query.
pub open spec fn folder_scores(folders: Seq<String>, query: Seq<char>) -> Seq<Option<i64>> {
    folders.map_values(|f: String| folder_score(f@, query))
}

/// `r` ranks the candidates of `scores`: each entry is a candidate index with its
/// score, every candidate that has a score appears, and entries go by descending
/// score, ties in candidate order.
pub open spec fn is_ranking(scores: Seq<Option<i64>>, r: Seq<(usize, i64)>) -> bool {
    &&& forall|k: int|
        0 <= k < r.len() ==> (#[trigger] r[k]).0 < scores.len() && scores[r[k].0 as int] == Some(
            r[k].1,
        )
    &&& forall|i: int|
        0 <= i < scores.len() && (#[trigger] scores[i]) is Some ==> exists|k: int|
            0 <= k < r.len() && (#[trigger] r[k]).0 == i
    &&& forall|a: int, b: int|
        0 <= a < b < r.len() ==> (#[trigger] r[a]).1 > (#[trigger] r[b]).1 || (r[a].1 == r[b].1
            && r[a].0 < r[b].0)
}

pub struct SearchEngine {
    matcher: SkimMatcherV2,
}

/// Splits `s` into its white-space separated words.
pub fn split_words(s: &str) -> (r: Vec<String>)
    ensures
        r@.map_values(|w: String| w@) == words_of(s@),
{
    let v = chars_of(s);
    let mut words: Vec<String> = Vec::new();
    let mut cur = String::new();
    let mut in_word = false;
    let mut i: usize = 0;
    assert(v@.take(0) =~= Seq::<char>::empty());
    while i < v.len()
        invariant
            i <= v.len(),
            v@ == s@,
            in_word == (i > 0 && !is_white_space(v@[i - 1])),
            in_word ==> words_of(v@.take(i as int)) == words@.map_values(|w: String| w@).push(cur@),
            !in_word ==> words_of(v@.take(i as int)) == words@.map_values(|w: String| w@),
        decreases v.len() - i,
    {
        let c = v[i];
        let ghost pre = v@.take(i as int);
        let ghost now = v@.take(i + 1);
        assert(now.drop_last() =~= pre);
        assert(now.last() == c);
        if char_is_whitespace(c) {
            if in_word {
                let w = cur;
                words.push(w);
                cur = String::new();
                assert(words@.map_values(|w: String| w@) =~= words_of(pre));
            }
            in_word = false;
        } else {
            if in_word {
                push_char(&mut cur, c);
                assert(pre.last() == v@[i - 1]);
                assert(words_of(now) =~= words@.map_values(|w: String| w@).push(cur@));
            } else {
                cur = String::new();
                push_char(&mut cur, c);
                proof {
                    if i > 0 {
                        assert(pre.last() == v@[i - 1]);
                    }
                }
                assert(words_of(now) =~= words@.map_values(|w: String| w@).push(cur@));
            }
            in_word = true;
        }
        i += 1;
    }
    assert(v@.take(v.len() as int) =~= v@);
    if in_word {
        words.push(cur);
        assert(words@.map_values(|w: String| w@) =~= words_of(s@));
    }
    words
}

/// Inserts `(idx, score)` into a ranking of the candidates before `idx`.
fn insert_ranked(r: &mut Vec<(usize, i64)>, idx: usize, score: i64, Ghost(scores): Ghost<Seq<Option<i64>>>)
    requires
        idx < scores.len(),
        scores[idx as int] == Some(score),
        is_ranking(scores.take(idx as int), old(r)@),
    ensures
        is_ranking(scores.take(idx + 1), final(r)@),
{
    let n = r.len();
    let mut p: usize = 0;
    while p < n && r[p].1 >= score
        invariant
            p <= n == r.len(),
            forall|k: int| 0 <= k < p ==> (#[trigger] r@[k]).1 >= score,
        decreases n - p,
    {
        p += 1;
    }
    let ghost o = r@;
    r.insert(p, (idx, score));
    proof {
        let s1 = scores.take(idx + 1);
        let s0 = scores.take(idx as int);
        let nw = r@;
        assert(nw =~= o.insert(p as int, (idx, score)));
        assert forall|k: int| 0 <= k < nw.len() implies (#[trigger] nw[k]).0 < s1.len() && s1[nw[k].0 as int]
            == Some(nw[k].1) by {
            if k < p {
                assert(nw[k] == o[k]);
                assert(s0[o[k].0 as int] == s1[o[k].0 as int]);
            } else if k > p {
                assert(nw[k] == o[k - 1]);
                assert(s0[o[k - 1].0 as int] == s1[o[k - 1].0 as int]);
            }
        }
        assert forall|i: int| 0 <= i < s1.len() && (#[trigger] s1[i]) is Some implies exists|k: int|
            0 <= k < nw.len() && (#[trigger] nw[k]).0 == i by {
            if i == idx {
                assert(nw[p as int].0 == i);
            } else {
                assert(s0[i] == s1[i]);
                let k = choose|k: int| 0 <= k < o.len() && (#[trigger] o[k]).0 == i;
                if k < p {
                    assert(nw[k] == o[k]);
                } else {
                    assert(nw[k + 1] == o[k]);
                }
            }
        }
        assert forall|a: int, b: int| 0 <= a < b < nw.len() implies (#[trigger] nw[a]).1 > (
        #[trigger] nw[b]).1 || (nw[a].1 == nw[b].1 && nw[a].0 < nw[b].0) by {
            if b < p {
                assert(nw[a] == o[a] && nw[b] == o[b]);
            } else if b == p {
                assert(nw[a] == o[a]);
                assert(o[a].0 < idx);
            } else if a < p {
                assert(nw[a] == o[a] && nw[b] == o[b - 1]);
                assert(o[b - 1].1 < score);
            } else if a == p {
                assert(nw[b] == o[b - 1]);
                assert(o[b - 1].1 < score);
            } else {
                assert(nw[a] == o[a - 1] && nw[b] == o[b - 1]);
            }
        }
    }
}

/// Ranks the candidates that have a score (see `is_ranking`).
pub fn rank(scores: &Vec<Option<i64>>) -> (r: Vec<(usize, i64)>)
    ensures
        is_ranking(scores@, r@),
{
    let mut r: Vec<(usize, i64)> = Vec::new();
    let n = scores.len();
    let mut i: usize = 0;
    while i < n
        invariant
            i <= n == scores.len(),
            is_ranking(scores@.take(i as int), r@),
        decreases n - i,
    {
        match scores[i] {
            Some(s) => {
                insert_ranked(&mut r, i, s, Ghost(scores@));
            },
            None => {
                proof {
                    let s1 = scores@.take(i + 1);
                    let s0 = scores@.take(i as int);
                    assert forall|k: int| 0 <= k < r@.len() implies (#[trigger] r@[k]).0 < s1.len()
                        && s1[r@[k].0 as int] == Some(r@[k].1) by {
                        assert(s0[r@[k].0 as int] == s1[r@[k].0 as int]);
                    }
                    assert forall|j: int| 0 <= j < s1.len() && (#[trigger] s1[j]) is Some implies exists|
                        k: int,
                    | 0 <= k < r@.len() && (#[trigger] r@[k]).0 == j by {
                        assert(s0[j] == s1[j]);
                    }
                }
            },
        }
        i += 1;
    }
    assert(scores@.take(n as int) =~= scores@);
    r
}

impl SearchEngine {
    pub fn new() -> (r: Self) {
        SearchEngine { matcher: default_matcher() }
    }

    /// `FuzzyMatcher::fuzzy_match` of the engine's matcher. The matcher field is private
    /// and only `new` sets it, to `SkimMatcherV2::default()`, so the result is the
    /// default Skim V2 score of `choice` and `pattern`, named `skim_score`.
    #[verifier::external_body]
    fn score(&self, choice: &str, pattern: &str) -> (r: Option<i64>)
        ensures
            r == skim_score(choice@, pattern@),
    {
        self.matcher.fuzzy_match(choice, pattern)
    }

    fn total_score(&self, text: &str, words: &Vec<String>) -> (r: Option<i64>)
        ensures
            r == words_score(text@, words@.map_values(|w: String| w@)),
    {
        let ghost wv = words@.map_values(|w: String| w@);
        let mut total: i64 = 0;
        let n = words.len();
        let mut i: usize = 0;
        assert(wv.take(0) =~= Seq::<Seq<char>>::empty());
        while i < n
            invariant
                i <= n == words.len(),
                wv == words@.map_values(|w: String| w@),
                words_score(text@, wv.take(i as int)) == Some(total),
            decreases n - i,
        {
            assert(wv.take(i + 1).drop_last() =~= wv.take(i as int));
            match self.score(text, words[i].as_str()) {
                Some(s) => {
                    total = total.wrapping_add(s);
                },
                None => {
                    proof {
                        assert(wv.take(i + 1).last() == wv[i as int]);
                        assert(words_score(text@, wv.take(i + 1)) is None);
                        lemma_words_score_none_extends(text@, wv, i + 1);
                    }
                    return None;
                },
            }
            i += 1;
        }
        assert(wv.take(n as int) =~= wv);
        Some(total)
    }

    /// The bookmarks that match every word of the query ("pano rama" is the words
    /// "pano" and "rama"), best score first, with their positions and scores.
    pub fn filter<'a>(&self, bookmarks: &'a [Bookmark], query: &str) -> (r: Vec<(usize, i64, &'a Bookmark)>)
        ensures
            is_ranking(
                bookmarks@.map_values(|b: Bookmark| bookmark_score(b, query@)),
                r@.map_values(|e: (usize, i64, &'a Bookmark)| (e.0, e.1)),
            ),
            forall|k: int| 0 <= k < r@.len() ==> *(#[trigger] r@[k]).2 == bookmarks@[r@[k].0 as int],
    {
        let words = split_words(query);
        let mut scores: Vec<Option<i64>> = Vec::new();
        let n = bookmarks.len();
        let mut i: usize = 0;
        while i < n
            invariant
                i <= n == bookmarks@.len(),
                words@.map_values(|w: String| w@) == words_of(query@),
                scores@ == bookmarks@.take(i as int).map_values(|b: Bookmark| bookmark_score(b, query@)),
            decreases n - i,
        {
            let text = bookmarks[i].searchable_text();
            let sc = self.total_score(text.as_str(), &words);
            scores.push(sc);
            assert(bookmarks@.take(i + 1).map_values(|b: Bookmark| bookmark_score(b, query@))
                =~= bookmarks@.take(i as int).map_values(|b: Bookmark| bookmark_score(b, query@)).push(sc));
            i += 1;
        }
        assert(bookmarks@.take(n as int) =~= bookmarks@);
        let ranked = rank(&scores);
        let mut out: Vec<(usize, i64, &'a Bookmark)> = Vec::new();
        let m = ranked.len();
        let mut k: usize = 0;
        while k < m
            invariant
                k <= m == ranked.len(),
                scores@.len() == n == bookmarks@.len(),
                is_ranking(scores@, ranked@),
                out@.map_values(|e: (usize, i64, &'a Bookmark)| (e.0, e.1)) == ranked@.take(k as int),
                forall|j: int| 0 <= j < out@.len() ==> *(#[trigger] out@[j]).2 == bookmarks@[out@[j].0 as int],
            decreases m - k,
        {
            let (idx, sc) = ranked[k];
            assert(ranked@[k as int].0 < scores@.len());
            out.push((idx, sc, &bookmarks[idx]));
            assert(ranked@.take(k + 1) =~= ranked@.take(k as int).push(ranked@[k as int]));
            assert(out@.map_values(|e: (usize, i64, &'a Bookmark)| (e.0, e.1)) =~= ranked@.take(k + 1));
            k += 1;
        }
        assert(ranked@.take(m as int) =~= ranked@);
        out
    }

    /// The folder names that fuzzily match the query, best first (all for an empty query).
    pub fn filter_folders<'a>(&self, folders: &'a [String], query: &str) -> (r: Vec<&'a String>)
        ensures
            exists|ranking: Seq<(usize, i64)>|
                #![trigger is_ranking(folder_scores(folders@, query@), ranking)]
                is_ranking(folder_scores(folders@, query@), ranking)
                    && ranking.len() == r@.len() && forall|k: int|
                    0 <= k < r@.len() ==> *(#[trigger] r@[k]) == folders@[ranking[k].0 as int],
    {
        let qv = chars_of(query);
        let empty = qv.len() == 0;
        let mut scores: Vec<Option<i64>> = Vec::new();
        let n = folders.len();
        let mut i: usize = 0;
        while i < n
            invariant
                i <= n == folders@.len(),
                empty == (query@.len() == 0),
                scores@ == folder_scores(folders@.take(i as int), query@),
            decreases n - i,
        {
            let sc = if empty {
                Some(0)
            } else {
                self.score(folders[i].as_str(), query)
            };
            scores.push(sc);
            assert(folder_scores(folders@.take(i + 1), query@)
                =~= folder_scores(folders@.take(i as int), query@).push(sc));
            i += 1;
        }
        assert(folders@.take(n as int) =~= folders@);
        let ranked = rank(&scores);
        let mut out: Vec<&'a String> = Vec::new();
        let m = ranked.len();
        let mut k: usize = 0;
        while k < m
            invariant
                k <= m == ranked.len(),
                scores@.len() == n == folders@.len(),
                is_ranking(scores@, ranked@),
                out@.len() == k,
                forall|j: int| 0 <= j < k ==> *(#[trigger] out@[j]) == folders@[ranked@[j].0 as int],
            decreases m - k,
        {
            let (idx, _sc) = ranked[k];
            assert(ranked@[k as int].0 < scores@.len());
            out.push(&folders[idx]);
            k += 1;
        }
        assert(is_ranking(folder_scores(folders@, query@), ranked@));
        out
    }
}

proof fn lemma_words_score_none_extends(text: Seq<char>, words: Seq<Seq<char>>, i: int)
    requires
        0 < i <= words.len(),
        words_score(text, words.take(i)) is None,
    ensures
        words_score(text, words) is None,
    decreases words.len() - i,
{
    if i < words.len() {
        assert(words.take(i + 1).drop_last() =~= words.take(i));
        lemma_words_score_none_extends(text, words, i + 1);
    } else {
        assert(words.take(i) =~= words);
    }
}

// ─── laws ────────────────────────────────────────────────────────────────

proof fn lemma_words_score_some(text: Seq<char>, words: Seq<Seq<char>>)
    ensures
        words_score(text, words) is Some <==> forall|w: int|
            0 <= w < words.len() ==> (#[trigger] skim_score(text, words[w])) is Some,
    decreases words.len(),
{
    if words.len() > 0 {
        let rest = words.drop_last();
        lemma_words_score_some(text, rest);
        assert forall|w: int| 0 <= w < rest.len() implies #[trigger] rest[w] == words[w] by {}
        if words_score(text, words) is Some {
            assert forall|w: int| 0 <= w < words.len() implies (#[trigger] skim_score(
                text,
                words[w],
            )) is Some by {
                if w < rest.len() {
                    assert(rest[w] == words[w]);
                }
            }
        }
        if forall|w: int| 0 <= w < words.len() ==> (#[trigger] skim_score(text, words[w])) is Some {
            assert(skim_score(text, words[words.len() - 1]) is Some);
            assert forall|w: int| 0 <= w < rest.len() implies (#[trigger] skim_score(
                text,
                rest[w],
            )) is Some by {
                assert(rest[w] == words[w]);
                assert(skim_score(text, words[w]) is Some);
            }
        }
    }
}

/// A search lists a bookmark exactly when every word of the query matches it
/// (its name, URL and folder, as one text).
pub proof fn law_listed_iff_every_word_matches(
    bs: Seq<Bookmark>,
    query: Seq<char>,
    r: Seq<(usize, i64)>,
    i: int,
)
    requires
        is_ranking(bs.map_values(|b: Bookmark| bookmark_score(b, query)), r),
        0 <= i < bs.len(),
    ensures
        (exists|k: int| 0 <= k < r.len() && (#[trigger] r[k]).0 == i) <==> forall|w: int|
            0 <= w < words_of(query).len() ==> (#[trigger] skim_score(
                searchable(bs[i]),
                words_of(query)[w],
            )) is Some,
{
    let scores = bs.map_values(|b: Bookmark| bookmark_score(b, query));
    lemma_words_score_some(searchable(bs[i]), words_of(query));
    assert(scores[i] == bookmark_score(bs[i], query));
    if exists|k: int| 0 <= k < r.len() && (#[trigger] r[k]).0 == i {
        let k = choose|k: int| 0 <= k < r.len() && (#[trigger] r[k]).0 == i;
        assert(scores[r[k].0 as int] == Some(r[k].1));
    }
}

proof fn lemma_ranking_of_ties(scores: Seq<Option<i64>>, r: Seq<(usize, i64)>, k: int)
    requires
        is_ranking(scores, r),
        forall|i: int| 0 <= i < scores.len() ==> #[trigger] scores[i] == Some(0i64),
        0 <= k < r.len(),
    ensures
        r[k].0 == k,
        r[k].1 == 0,
    decreases k,
{
    if k > 0 {
        lemma_ranking_of_ties(scores, r, k - 1);
    }
    assert(scores[r[k].0 as int] == Some(r[k].1));
    // every earlier entry has a smaller index
    assert forall|j: int| 0 <= j < k implies (#[trigger] r[j]).0 < r[k].0 by {
        assert(scores[r[j].0 as int] == Some(r[j].1));
    }
    if k > 0 {
        assert(r[k - 1].0 < r[k].0);
    }
    assert(r[k].0 >= k);
    // index k is listed somewhere, and not before position k
    assert(scores[k] is Some) by {
        if k > 0 {
            assert(r[k - 1].0 == k - 1);
        }
        assert(r[k].0 < scores.len());
    }
    let j = choose|j: int| 0 <= j < r.len() && (#[trigger] r[j]).0 == k;
    if j < k {
        lemma_ranking_of_ties(scores, r, j);
    } else if j > k {
        assert(r[j].0 > r[k].0) by {
            assert(scores[r[j].0 as int] == Some(r[j].1));
        }
    }
}

/// A query without words (empty or only white space) lists every bookmark, in the
/// stored order, each with score 0.
pub proof fn law_wordless_query_lists_all(bs: Seq<Bookmark>, query: Seq<char>, r: Seq<(usize, i64)>)
    requires
        words_of(query).len() == 0,
        is_ranking(bs.map_values(|b: Bookmark| bookmark_score(b, query)), r),
    ensures
        r.len() == bs.len(),
        forall|k: int| 0 <= k < r.len() ==> (#[trigger] r[k]).0 == k && r[k].1 == 0,
{
    let scores = bs.map_values(|b: Bookmark| bookmark_score(b, query));
    assert forall|i: int| 0 <= i < scores.len() implies #[trigger] scores[i] == Some(0i64) by {
        assert(scores[i] == bookmark_score(bs[i], query));
    }
    assert forall|k: int| 0 <= k < r.len() implies (#[trigger] r[k]).0 == k && r[k].1 == 0 by {
        lemma_ranking_of_ties(scores, r, k);
    }
    if r.len() < bs.len() {
        let n = bs.len() as int;
        assert(scores[n - 1] is Some);
        let j = choose|j: int| 0 <= j < r.len() && (#[trigger] r[j]).0 == n - 1;
        lemma_ranking_of_ties(scores, r, j);
    } else if r.len() > bs.len() {
        let n = bs.len() as int;
        lemma_ranking_of_ties(scores, r, n);
        assert(r[n].0 < scores.len());
    }
}

} // verus!
