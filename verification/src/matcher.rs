//! Fuzzy matching of entries against a whitespace-tokenized query.
//!
//! Each entry has a haystack (the text it is matched against). A query is
//! split on whitespace; an entry matches when every token fuzzy-matches its
//! haystack, and its score is the (saturating) sum of the per-token scores.
//! The fuzzy scoring itself is `fuzzy-matcher`'s `SkimMatcherV2` with case
//! ignored.

use vstd::prelude::*;

use fuzzy_matcher::skim::SkimMatcherV2;
use fuzzy_matcher::FuzzyMatcher;

use crate::model::{Entry, opt_view};
use crate::order::{sort_keyed, Keyed, keyed_lt};
use crate::text::{
    chars_of, has_prefix, is_blank, is_prefix, lemma_blank_iff_no_tokens, lower, lower_seq,
    split_whitespace, to_lower, views, ws_tokens, blank,
};

verus! {

/// The score `SkimMatcherV2::default().ignore_case()` gives `pattern`
/// against `choice`, or `None` when `pattern` does not match.
pub uninterp spec fn skim_match(choice: Seq<char>, pattern: Seq<char>) -> Option<i64>;

/// `pattern` is a subsequence of `choice` when characters are compared
/// ignoring ASCII case: its characters occur in `choice` in order, not
/// necessarily next to each other.
pub open spec fn ci_subsequence(pattern: Seq<char>, choice: Seq<char>) -> bool
    decreases choice.len(),
{
    if pattern.len() == 0 {
        true
    } else if choice.len() == 0 {
        false
    } else if lower(choice[0]) == lower(pattern[0]) {
        ci_subsequence(pattern.drop_first(), choice.drop_first())
    } else {
        ci_subsequence(pattern, choice.drop_first())
    }
}

/// Calls `fuzzy_matcher::skim::SkimMatcherV2::fuzzy_match` on a
/// case-insensitive matcher. Claimed of it: the result is a function of
/// the two strings alone (named `skim_match`); there is a result exactly
/// when the pattern is a subsequence of the choice ignoring ASCII case
/// (the matcher's first pass, `cheap_matches` with `eq_ignore_ascii_case`,
/// after which it always scores); an empty pattern scores 0. The scores
/// themselves are not claimed.
#[verifier::external_body]
fn fuzzy_match(choice: &str, pattern: &str) -> (r: Option<i64>)
    ensures
        r == skim_match(choice@, pattern@),
        r is Some <==> ci_subsequence(pattern@, choice@),
        pattern@.len() == 0 ==> r == Some(0i64),
{
    SkimMatcherV2::default().ignore_case().fuzzy_match(choice, pattern)
}

/// The reverse-DNS top-level segments stripped from identifiers.
pub open spec fn strip_tld(id: Seq<char>) -> Seq<char> {
    if is_prefix("com."@, id) {
        id.skip("com."@.len() as int)
    } else if is_prefix("org."@, id) {
        id.skip("org."@.len() as int)
    } else if is_prefix("net."@, id) {
        id.skip("net."@.len() as int)
    } else if is_prefix("io."@, id) {
        id.skip("io."@.len() as int)
    } else {
        id
    }
}

/// Strips one leading reverse-DNS top-level segment (`com.`, `org.`,
/// `net.`, `io.`) from a bundle or desktop identifier, so that the segment
/// every bundle identifier shares does not make short queries match
/// everything. Only the first segment goes: the vendor stays searchable.
pub fn strip_reverse_dns_tld(id: &str) -> (r: &str)
    ensures
        r@ == strip_tld(id@),
{
    let cs = chars_of(id);
    let n = cs.len();
    let com = chars_of("com.");
    let org = chars_of("org.");
    let net = chars_of("net.");
    let io = chars_of("io.");
    if has_prefix(cs.as_slice(), com.as_slice()) {
        id.substring_char(com.len(), n)
    } else if has_prefix(cs.as_slice(), org.as_slice()) {
        id.substring_char(org.len(), n)
    } else if has_prefix(cs.as_slice(), net.as_slice()) {
        id.substring_char(net.len(), n)
    } else if has_prefix(cs.as_slice(), io.as_slice()) {
        id.substring_char(io.len(), n)
    } else {
        assert(id@.subrange(0, n as int) =~= id@);
        id.substring_char(0, n)
    }
}

/// The text an entry is matched against: name and stripped identifier for
/// an application; title and owning application for a window; the label
/// alone for every other kind (never the persistence identifier).
pub open spec fn haystack_spec(e: Entry) -> Seq<char> {
    match e {
        Entry::Application(a) => a.name@ + " "@ + strip_tld(a.desktop_id@),
        Entry::Window(w) => match opt_view(w.app_name) {
            Some(n) => w.title@ + " "@ + n,
            None => w.title@,
        },
        _ => e.name_spec(),
    }
}

/// Builds the searchable text of an entry.
pub fn haystack(entry: &Entry) -> (r: String)
    ensures
        r@ == haystack_spec(*entry),
{
    match entry {
        Entry::Application(app) => {
            let mut s = app.name.clone();
            s.append(" ");
            s.append(strip_reverse_dns_tld(app.desktop_id.as_str()));
            s
        },
        Entry::Window(w) => match &w.app_name {
            Some(app) => {
                let mut s = w.title.clone();
                s.append(" ");
                s.append(app.as_str());
                s
            },
            None => w.title.clone(),
        },
        _ => String::from_str(entry.name()),
    }
}

/// `a + b`, saturated to the `i64` range.
pub open spec fn sat_add(a: int, b: int) -> int {
    if a + b > i64::MAX {
        i64::MAX as int
    } else if a + b < i64::MIN {
        i64::MIN as int
    } else {
        a + b
    }
}

fn saturating_add(a: i64, b: i64) -> (r: i64)
    ensures
        r == sat_add(a as int, b as int),
{
    match a.checked_add(b) {
        Some(v) => v,
        None => if b > 0 {
            i64::MAX
        } else {
            i64::MIN
        },
    }
}

/// The score of `hay` against `tokens`: the saturating sum of the
/// per-token scores, summed left to right, or `None` as soon as one token
/// does not match.
pub open spec fn score_of(hay: Seq<char>, tokens: Seq<Seq<char>>) -> Option<int>
    decreases tokens.len(),
{
    if tokens.len() == 0 {
        Some(0)
    } else {
        match score_of(hay, tokens.drop_last()) {
            Some(t) => if ci_subsequence(tokens.last(), hay) {
                Some(sat_add(t, skim_match(hay, tokens.last())->0 as int))
            } else {
                None
            },
            None => None,
        }
    }
}

/// The score of an entry against the tokens.
pub open spec fn entry_score(e: Entry, tokens: Seq<Seq<char>>) -> Option<int> {
    score_of(haystack_spec(e), tokens)
}

proof fn lemma_score_prefix(hay: Seq<char>, tokens: Seq<Seq<char>>, i: int)
    requires
        0 <= i <= tokens.len(),
        score_of(hay, tokens.take(i)) is None,
    ensures
        score_of(hay, tokens) is None,
    decreases tokens.len() - i,
{
    if i < tokens.len() {
        let t = tokens.take(i + 1);
        assert(t.drop_last() == tokens.take(i));
        lemma_score_prefix(hay, tokens, i + 1);
    } else {
        assert(tokens.take(i) == tokens);
    }
}

/// An entry matches a set of tokens exactly when every token matches its
/// haystack on its own.
pub proof fn lemma_score_some_iff_all_match(hay: Seq<char>, tokens: Seq<Seq<char>>)
    ensures
        score_of(hay, tokens) is Some <==> forall|k: int|
            0 <= k < tokens.len() ==> #[trigger] ci_subsequence(tokens[k], hay),
    decreases tokens.len(),
{
    if tokens.len() > 0 {
        let d = tokens.drop_last();
        lemma_score_some_iff_all_match(hay, d);
        if forall|k: int| 0 <= k < tokens.len() ==> #[trigger] ci_subsequence(tokens[k], hay) {
            assert forall|k: int| 0 <= k < d.len() implies #[trigger] ci_subsequence(d[k], hay) by {
                assert(d[k] == tokens[k]);
            }
        }
        if score_of(hay, tokens) is Some {
            assert forall|k: int| 0 <= k < tokens.len() implies #[trigger] ci_subsequence(tokens[k], hay) by {
                if k < d.len() {
                    assert(d[k] == tokens[k]);
                }
            }
        }
    }
}

/// Scores `entry` against every token (intersection semantics): `None` if
/// any token fails to match the entry's haystack, otherwise the saturating
/// sum of the per-token scores. Higher is better.
pub fn score(entry: &Entry, tokens: &[String]) -> (r: Option<i64>)
    ensures
        match r {
            Some(s) => entry_score(*entry, views(tokens@)) == Some(s as int),
            None => entry_score(*entry, views(tokens@)) is None,
        },
{
    let hay = haystack(entry);
    let ghost toks = views(tokens@);
    let mut total: i64 = 0;
    let mut i: usize = 0;
    assert(toks.take(0) =~= Seq::<Seq<char>>::empty());
    while i < tokens.len()
        invariant
            i <= tokens@.len(),
            toks == views(tokens@),
            hay@ == haystack_spec(*entry),
            score_of(hay@, toks.take(i as int)) == Some(total as int),
        decreases tokens.len() - i,
    {
        let ghost t = toks.take(i + 1);
        assert(t.drop_last() =~= toks.take(i as int));
        assert(t.last() == tokens@[i as int]@);
        match fuzzy_match(hay.as_str(), tokens[i].as_str()) {
            Some(s) => {
                total = saturating_add(total, s);
            },
            None => {
                proof {
                    lemma_score_prefix(hay@, toks, i + 1);
                }
                return None;
            },
        }
        i = i + 1;
    }
    assert(toks.take(i as int) =~= toks);
    Some(total)
}

/// `ord` lists the matching entries, best score first, ties in input
/// order.
pub open spec fn is_search_order(entries: Seq<Entry>, tokens: Seq<Seq<char>>, ord: Seq<int>) -> bool {
    &&& forall|k: int|
        0 <= k < ord.len() ==> 0 <= #[trigger] ord[k] < entries.len() && entry_score(
            entries[ord[k]],
            tokens,
        ) is Some
    &&& forall|i: int|
        0 <= i < entries.len() && (#[trigger] entry_score(entries[i], tokens)) is Some
            ==> ord.contains(i)
    &&& forall|a: int, b: int|
        0 <= a < b < ord.len() ==> ranks_before(
            entry_score(entries[ord[a]], tokens)->0,
            ord[a],
            entry_score(entries[ord[b]], tokens)->0,
            ord[b],
        )
}

/// Higher score first; equal scores keep input order.
pub open spec fn ranks_before(score_a: int, a: int, score_b: int, b: int) -> bool {
    score_a > score_b || (score_a == score_b && a < b)
}

proof fn lemma_keys_order(x: Keyed, y: Keyed, sx: int, sy: int)
    requires
        x.major == -sx,
        y.major == -sy,
        x.minor == 0,
        y.minor == 0,
        keyed_lt(x, y),
    ensures
        ranks_before(sx, x.pos as int, sy, y.pos as int),
{
}

/// Indices of the entries matching `query`, best match first.
///
/// Every whitespace-separated token of the query must fuzzy-match the
/// entry's haystack; matches are ordered by descending score, equal scores
/// in input order. A blank query matches every entry, in input order.
pub fn search_indices(entries: &[Entry], query: &str) -> (r: Vec<usize>)
    ensures
        is_search_order(entries@, ws_tokens(query@), r@.map_values(|i: usize| i as int)),
{
    let tokens = split_whitespace(query);
    let ghost toks = ws_tokens(query@);
    let mut keyed: Vec<Keyed> = Vec::new();
    let mut i: usize = 0;
    while i < entries.len()
        invariant
            i <= entries@.len(),
            views(tokens@) == toks,
            forall|k: int|
                0 <= k < keyed@.len() ==> {
                    let x = #[trigger] keyed@[k];
                    &&& x.pos < i
                    &&& x.minor == 0
                    &&& entry_score(entries@[x.pos as int], toks) == Some(-x.major)
                },
            forall|a: int, b: int| 0 <= a < b < keyed@.len() ==> keyed@[a].pos < keyed@[b].pos,
            forall|j: int|
                0 <= j < i && (#[trigger] entry_score(entries@[j], toks)) is Some ==> exists|k: int|
                    0 <= k < keyed@.len() && keyed@[k].pos == j,
        decreases entries.len() - i,
    {
        let ghost old_keyed = keyed@;
        match score(&entries[i], tokens.as_slice()) {
            Some(s) => {
                keyed.push(Keyed { major: 0 - (s as i128), minor: 0, pos: i });
                assert(keyed@[keyed@.len() - 1].pos == i);
            },
            None => {},
        }
        proof {
            assert forall|j: int|
                0 <= j < i + 1 && (#[trigger] entry_score(entries@[j], toks)) is Some implies exists|
                    k: int,
                | 0 <= k < keyed@.len() && keyed@[k].pos == j by {
                if j < i {
                    let k = choose|k: int| 0 <= k < old_keyed.len() && old_keyed[k].pos == j;
                    assert(keyed@[k] == old_keyed[k]);
                } else {
                    assert(keyed@[keyed@.len() - 1].pos == j);
                }
            }
        }
        i = i + 1;
    }
    let sorted = sort_keyed(keyed);
    let mut out: Vec<usize> = Vec::new();
    let mut k: usize = 0;
    while k < sorted.len()
        invariant
            k <= sorted@.len(),
            out@.len() == k,
            forall|m: int| 0 <= m < k ==> out@[m] == #[trigger] sorted@[m].pos,
        decreases sorted.len() - k,
    {
        out.push(sorted[k].pos);
        k = k + 1;
    }
    proof {
        let ord = out@.map_values(|i: usize| i as int);
        assert forall|m: int| 0 <= m < ord.len() implies 0 <= #[trigger] ord[m] < entries@.len()
            && entry_score(entries@[ord[m]], toks) is Some by {
            assert(sorted@.contains(sorted@[m]));
            let j = choose|j: int| 0 <= j < keyed@.len() && keyed@[j] == sorted@[m];
            assert(keyed@[j].pos == ord[m]);
        }
        assert forall|j: int|
            0 <= j < entries@.len() && (#[trigger] entry_score(entries@[j], toks)) is Some
                implies ord.contains(j) by {
            let kk = choose|kk: int| 0 <= kk < keyed@.len() && keyed@[kk].pos == j;
            assert(keyed@.contains(keyed@[kk]));
            assert(sorted@.contains(keyed@[kk]));
            let m = choose|m: int| 0 <= m < sorted@.len() && sorted@[m] == keyed@[kk];
            assert(ord[m] == j);
        }
        assert forall|a: int, b: int| 0 <= a < b < ord.len() implies ranks_before(
            entry_score(entries@[ord[a]], toks)->0,
            ord[a],
            entry_score(entries@[ord[b]], toks)->0,
            ord[b],
        ) by {
            let xa = sorted@[a];
            let xb = sorted@[b];
            assert(sorted@.contains(xa));
            assert(sorted@.contains(xb));
            let ja = choose|j: int| 0 <= j < keyed@.len() && keyed@[j] == xa;
            let jb = choose|j: int| 0 <= j < keyed@.len() && keyed@[j] == xb;
            lemma_keys_order(
                xa,
                xb,
                entry_score(entries@[ord[a]], toks)->0,
                entry_score(entries@[ord[b]], toks)->0,
            );
        }
    }
    out
}

/// Fuzzy-filters `entries` by `query`, best match first (equal scores in
/// input order). A blank query returns every entry in input order.
pub fn search<'a>(entries: &'a [Entry], query: &str) -> (r: Vec<&'a Entry>)
    ensures
        exists|ord: Seq<int>|
            #![trigger is_search_order(entries@, ws_tokens(query@), ord)]
            is_search_order(entries@, ws_tokens(query@), ord) && r@.len() == ord.len() && forall|
                k: int,
            | 0 <= k < ord.len() ==> *r@[k] == entries@[ord[k]],
{
    if blank(query) {
        proof {
            lemma_blank_iff_no_tokens(query@);
        }
        let mut all: Vec<&'a Entry> = Vec::new();
        let mut i: usize = 0;
        while i < entries.len()
            invariant
                i <= entries@.len(),
                all@.len() == i,
                forall|k: int| 0 <= k < i ==> *all@[k] == entries@[k],
            decreases entries.len() - i,
        {
            all.push(&entries[i]);
            i = i + 1;
        }
        proof {
            let toks = ws_tokens(query@);
            let ord = Seq::new(entries@.len(), |k: int| k);
            assert forall|k: int| 0 <= k < entries@.len() implies (#[trigger] entry_score(
                entries@[k],
                toks,
            )) == Some(0int) by {}
            assert forall|j: int|
                0 <= j < entries@.len() && (#[trigger] entry_score(entries@[j], toks)) is Some
                    implies ord.contains(j) by {
                assert(ord[j] == j);
            }
            assert(is_search_order(entries@, toks, ord));
        }
        return all;
    }
    let idx = search_indices(entries, query);
    let mut out: Vec<&'a Entry> = Vec::new();
    let mut k: usize = 0;
    while k < idx.len()
        invariant
            k <= idx@.len(),
            out@.len() == k,
            is_search_order(entries@, ws_tokens(query@), idx@.map_values(|i: usize| i as int)),
            forall|m: int| 0 <= m < k ==> *out@[m] == entries@[idx@[m] as int],
        decreases idx.len() - k,
    {
        assert(idx@.map_values(|i: usize| i as int)[k as int] == idx@[k as int] as int);
        out.push(&entries[idx[k]]);
        k = k + 1;
    }
    proof {
        let ord = idx@.map_values(|i: usize| i as int);
        assert forall|m: int| 0 <= m < ord.len() implies *out@[m] == entries@[ord[m]] by {
            assert(ord[m] == idx@[m] as int);
        }
    }
    out
}

/// Whether every token is a case-insensitive prefix of some word of the
/// entry's haystack.
pub open spec fn word_prefix_match(hay: Seq<char>, tokens: Seq<Seq<char>>) -> bool {
    forall|t: int| 0 <= t < tokens.len() ==> prefixes_a_word(#[trigger] tokens[t], ws_tokens(hay))
}

/// `token` is a case-insensitive prefix of one of `words`.
pub open spec fn prefixes_a_word(token: Seq<char>, words: Seq<Seq<char>>) -> bool {
    exists|w: int| 0 <= w < words.len() && is_prefix(lower_seq(token), lower_seq(#[trigger] words[w]))
}

fn lower_chars(cs: &[char]) -> (r: Vec<char>)
    ensures
        r@ == lower_seq(cs@),
{
    let mut r: Vec<char> = Vec::new();
    let mut i: usize = 0;
    while i < cs.len()
        invariant
            i <= cs@.len(),
            r@ == lower_seq(cs@.take(i as int)),
        decreases cs.len() - i,
    {
        r.push(to_lower(cs[i]));
        assert(lower_seq(cs@.take(i + 1)) =~= lower_seq(cs@.take(i as int)).push(lower(cs@[i as int])));
        i = i + 1;
    }
    assert(cs@.take(cs@.len() as int) =~= cs@);
    r
}

/// Whether the query is a word-prefix match for the entry: every token is
/// a case-insensitive (ASCII) prefix of some whitespace-separated word of
/// the entry's haystack. Vacuously true for no tokens.
pub fn is_prefix_match(entry: &Entry, tokens: &[String]) -> (r: bool)
    ensures
        r == word_prefix_match(haystack_spec(*entry), views(tokens@)),
{
    let hay = haystack(entry);
    let words = split_whitespace(hay.as_str());
    let ghost ws = ws_tokens(hay@);
    let mut lowered: Vec<Vec<char>> = Vec::new();
    let mut w: usize = 0;
    while w < words.len()
        invariant
            w <= words@.len(),
            views(words@) == ws,
            lowered@.len() == w,
            forall|k: int| 0 <= k < w ==> (#[trigger] lowered@[k])@ == lower_seq(ws[k]),
        decreases words.len() - w,
    {
        let cs = chars_of(words[w].as_str());
        assert(ws[w as int] == words@[w as int]@);
        lowered.push(lower_chars(cs.as_slice()));
        w = w + 1;
    }
    let mut t: usize = 0;
    while t < tokens.len()
        invariant
            t <= tokens@.len(),
            lowered@.len() == ws.len(),
            hay@ == haystack_spec(*entry),
            ws == ws_tokens(hay@),
            forall|k: int| 0 <= k < ws.len() ==> (#[trigger] lowered@[k])@ == lower_seq(ws[k]),
            forall|k: int| 0 <= k < t ==> prefixes_a_word(#[trigger] views(tokens@)[k], ws),
        decreases tokens.len() - t,
    {
        let tc = chars_of(tokens[t].as_str());
        let lt = lower_chars(tc.as_slice());
        assert(views(tokens@)[t as int] == tokens@[t as int]@);
        let mut found = false;
        let mut j: usize = 0;
        while j < lowered.len()
            invariant
                j <= lowered@.len(),
                t < tokens@.len(),
                lowered@.len() == ws.len(),
                forall|k: int| 0 <= k < ws.len() ==> (#[trigger] lowered@[k])@ == lower_seq(ws[k]),
                lt@ == lower_seq(views(tokens@)[t as int]),
                found ==> exists|m: int|
                    0 <= m < ws.len() && is_prefix(lt@, lower_seq(#[trigger] ws[m])),
                !found ==> forall|m: int|
                    0 <= m < j ==> !is_prefix(lt@, lower_seq(#[trigger] ws[m])),
            decreases lowered.len() - j,
        {
            if !found && has_prefix(lowered[j].as_slice(), lt.as_slice()) {
                found = true;
                assert(is_prefix(lt@, lower_seq(ws[j as int])));
            }
            j = j + 1;
        }
        if !found {
            assert(!word_prefix_match(haystack_spec(*entry), views(tokens@))) by {
                assert(0 <= t < views(tokens@).len());
                assert(!prefixes_a_word(views(tokens@)[t as int], ws));
            }
            return false;
        }
        t = t + 1;
    }
    assert(views(tokens@).len() == tokens@.len());
    true
}

/// Tokens in different orders, or with repetitions, select the same
/// entries: whether an entry matches depends only on which tokens occur.
pub proof fn lemma_match_ignores_token_order(
    e: Entry,
    q1: Seq<Seq<char>>,
    q2: Seq<Seq<char>>,
)
    requires
        forall|t: Seq<char>| q1.contains(t) <==> q2.contains(t),
    ensures
        entry_score(e, q1) is Some <==> entry_score(e, q2) is Some,
{
    let hay = haystack_spec(e);
    lemma_score_some_iff_all_match(hay, q1);
    lemma_score_some_iff_all_match(hay, q2);
    if entry_score(e, q1) is Some {
        assert forall|k: int| 0 <= k < q2.len() implies #[trigger] ci_subsequence(q2[k], hay) by {
            assert(q2.contains(q2[k]));
            let j = choose|j: int| 0 <= j < q1.len() && q1[j] == q2[k];
        }
    }
    if entry_score(e, q2) is Some {
        assert forall|k: int| 0 <= k < q1.len() implies #[trigger] ci_subsequence(q1[k], hay) by {
            assert(q1.contains(q1[k]));
            let j = choose|j: int| 0 <= j < q2.len() && q2[j] == q1[k];
        }
    }
}

/// A blank query returns every entry, in input order.
pub proof fn lemma_blank_search_keeps_order(entries: Seq<Entry>, query: Seq<char>, ord: Seq<int>)
    requires
        is_blank(query),
        is_search_order(entries, ws_tokens(query), ord),
    ensures
        ord == Seq::new(entries.len(), |i: int| i),
{
    let toks = ws_tokens(query);
    lemma_blank_iff_no_tokens(query);
    assert forall|i: int| 0 <= i < entries.len() implies #[trigger] ord.contains(i) by {
        assert(entry_score(entries[i], toks) == Some(0int));
    }
    assert forall|a: int, b: int| 0 <= a < b < ord.len() implies ord[a] < ord[b] by {
        assert(entry_score(entries[ord[a]], toks) == Some(0int));
        assert(entry_score(entries[ord[b]], toks) == Some(0int));
        assert(ranks_before(
            entry_score(entries[ord[a]], toks)->0,
            ord[a],
            entry_score(entries[ord[b]], toks)->0,
            ord[b],
        ));
    }
    crate::order::lemma_increasing_cover(ord, entries.len());
}

/// The search order is fully determined by the entries and the query.
pub proof fn lemma_search_order_unique(
    entries: Seq<Entry>,
    tokens: Seq<Seq<char>>,
    o1: Seq<int>,
    o2: Seq<int>,
)
    requires
        is_search_order(entries, tokens, o1),
        is_search_order(entries, tokens, o2),
    ensures
        o1 == o2,
{
    let lt = |i: int, j: int|
        ranks_before(entry_score(entries[i], tokens)->0, i, entry_score(entries[j], tokens)->0, j);
    assert forall|x: int| o1.contains(x) <==> o2.contains(x) by {
        if o1.contains(x) {
            let k = choose|k: int| 0 <= k < o1.len() && o1[k] == x;
            assert(entry_score(entries[o1[k]], tokens) is Some);
        }
        if o2.contains(x) {
            let k = choose|k: int| 0 <= k < o2.len() && o2[k] == x;
            assert(entry_score(entries[o2[k]], tokens) is Some);
        }
    }
    assert forall|a: int, b: int| 0 <= a < b < o1.len() implies lt(o1[a], o1[b]) by {}
    assert forall|a: int, b: int| 0 <= a < b < o2.len() implies lt(o2[a], o2[b]) by {}
    assert forall|x: int, y: int| #[trigger] lt(x, y) implies !lt(y, x) by {}
    crate::order::lemma_sorted_unique(o1, o2, lt);
}

/// Whether a pattern is a case-insensitive subsequence depends only on its
/// characters with ASCII case folded.
proof fn lemma_ci_subsequence_folds_case(p1: Seq<char>, p2: Seq<char>, c: Seq<char>)
    requires
        lower_seq(p1) == lower_seq(p2),
    ensures
        ci_subsequence(p1, c) == ci_subsequence(p2, c),
    decreases c.len(),
{
    assert(p1.len() == lower_seq(p1).len());
    assert(p2.len() == lower_seq(p2).len());
    if p1.len() > 0 && c.len() > 0 {
        assert(lower(p1[0]) == lower_seq(p1)[0]);
        assert(lower(p2[0]) == lower_seq(p2)[0]);
        assert(lower_seq(p1.drop_first()) =~= lower_seq(p1).drop_first());
        assert(lower_seq(p2.drop_first()) =~= lower_seq(p2).drop_first());
        lemma_ci_subsequence_folds_case(p1.drop_first(), p2.drop_first(), c.drop_first());
        lemma_ci_subsequence_folds_case(p1, p2, c.drop_first());
    }
}

/// Letter case does not decide what matches: queries whose tokens agree
/// once ASCII case is folded select the same entries.
pub proof fn lemma_match_ignores_case(e: Entry, q1: Seq<Seq<char>>, q2: Seq<Seq<char>>)
    requires
        q1.len() == q2.len(),
        forall|t: int| 0 <= t < q1.len() ==> lower_seq(#[trigger] q1[t]) == lower_seq(q2[t]),
    ensures
        entry_score(e, q1) is Some <==> entry_score(e, q2) is Some,
{
    let hay = haystack_spec(e);
    lemma_score_some_iff_all_match(hay, q1);
    lemma_score_some_iff_all_match(hay, q2);
    if entry_score(e, q1) is Some {
        assert forall|k: int| 0 <= k < q2.len() implies #[trigger] ci_subsequence(q2[k], hay) by {
            assert(ci_subsequence(q1[k], hay));
            lemma_ci_subsequence_folds_case(q1[k], q2[k], hay);
        }
    }
    if entry_score(e, q2) is Some {
        assert forall|k: int| 0 <= k < q1.len() implies #[trigger] ci_subsequence(q1[k], hay) by {
            assert(ci_subsequence(q2[k], hay));
            lemma_ci_subsequence_folds_case(q1[k], q2[k], hay);
        }
    }
}

/// Every entry other than an application or a window is matched against
/// its display name, and against nothing else: a workspace, a window
/// command and a power command against their labels, a workspace move
/// against its label (never its persistence identifier).
pub proof fn lemma_labelled_entries_match_their_label(e: Entry)
    ensures
        !(e is Application) && !(e is Window) ==> haystack_spec(e) == e.name_spec(),
        e matches Entry::Workspace(w) ==> haystack_spec(e) == w.name@,
        e matches Entry::Command(c) ==> haystack_spec(e) == c.kind.display_spec(),
        e matches Entry::PowerCommand(c) ==> haystack_spec(e) == c.kind.display_spec(),
        e matches Entry::WorkspaceCommand(c) ==> haystack_spec(e) == c.name@,
{
}

} // verus!
