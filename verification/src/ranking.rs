//! Display order of the launcher's entries: what the user has launched
//! before comes first, in recency order; everything else follows, best
//! fuzzy match first.

use vstd::prelude::*;

use crate::matcher::{
    entry_score, haystack_spec, is_prefix_match, is_search_order, ranks_before, score,
    search_indices, word_prefix_match,
};
use crate::model::{Entry, EntryRef, RefView};
use crate::order::{keyed_lt, sort_keyed, Keyed};
use crate::entry_list::{history_before, is_history_order};
use crate::order::{lemma_distinct_cover_len, lemma_sorted_unique};
use crate::text::{is_blank, lemma_blank_iff_no_tokens, split_whitespace, views, ws_tokens};

verus! {

/// The first position of `k` in `s`: for a most-recent-first history, the
/// recency rank of `k` (its most recent use).
pub open spec fn first_pos(s: Seq<RefView>, k: RefView) -> Option<nat>
    decreases s.len(),
{
    if s.len() == 0 {
        None
    } else if s[0] == k {
        Some(0)
    } else {
        match first_pos(s.drop_first(), k) {
            Some(p) => Some(p + 1),
            None => None,
        }
    }
}

/// `first_pos` is the first position holding `k`, or `None` when none does.
pub proof fn lemma_first_pos(s: Seq<RefView>, k: RefView)
    ensures
        match first_pos(s, k) {
            Some(p) => p < s.len() && s[p as int] == k && forall|j: int|
                0 <= j < p ==> s[j] != k,
            None => forall|j: int| 0 <= j < s.len() ==> s[j] != k,
        },
    decreases s.len(),
{
    if s.len() > 0 && s[0] != k {
        let d = s.drop_first();
        lemma_first_pos(d, k);
        match first_pos(d, k) {
            Some(p) => {
                assert(s[p as int + 1] == d[p as int]);
                assert forall|j: int| 0 <= j < p + 1 implies s[j] != k by {
                    if j > 0 {
                        assert(s[j] == d[j - 1]);
                    }
                }
            },
            None => {
                assert forall|j: int| 0 <= j < s.len() implies s[j] != k by {
                    if j > 0 {
                        assert(s[j] == d[j - 1]);
                    }
                }
            },
        }
    }
}

/// The number of distinct handles among the first `s.len()` rows, counted
/// at each handle's first row.
pub open spec fn distinct_count(s: Seq<RefView>) -> nat
    decreases s.len(),
{
    if s.len() == 0 {
        0
    } else {
        distinct_count(s.drop_last()) + if s.drop_last().contains(s.last()) {
            0nat
        } else {
            1nat
        }
    }
}

/// `distinct_count` is the number of distinct handles.
pub proof fn lemma_distinct_count(s: Seq<RefView>)
    ensures
        distinct_count(s) == s.to_set().len(),
        s.to_set().finite(),
    decreases s.len(),
{
    if s.len() == 0 {
        assert(s.to_set() =~= Set::<RefView>::empty());
    } else {
        let d = s.drop_last();
        lemma_distinct_count(d);
        assert(s.to_set() =~= d.to_set().insert(s.last())) by {
            assert forall|x: RefView| s.to_set().contains(x) <==> d.to_set().insert(s.last()).contains(x) by {
                if s.contains(x) {
                    let i = choose|i: int| 0 <= i < s.len() && s[i] == x;
                    if i < d.len() {
                        assert(d[i] == x);
                    }
                }
                if d.contains(x) {
                    let i = choose|i: int| 0 <= i < d.len() && d[i] == x;
                    assert(s[i] == x);
                }
                if x == s.last() {
                    assert(s[s.len() - 1] == x);
                }
            }
        }
        if d.contains(s.last()) {
            assert(d.to_set().contains(s.last()));
        } else {
            assert(!d.to_set().contains(s.last()));
        }
    }
}

/// Recency ranks of the entries in the history, keyed by persistence
/// handle: rank 0 is the most recent.
pub struct RankMap {
    index: Vec<EntryRef>,
}

impl View for RankMap {
    type V = Seq<RefView>;

    /// The recency index the map was built from, most recent first.
    closed spec fn view(&self) -> Seq<RefView> {
        self.index@.map_values(|r: EntryRef| r@)
    }
}

impl RankMap {
    /// The rank of `r`: its first (most recent) position in the history,
    /// or `None` when `r` is not in the history.
    pub fn get(&self, r: &EntryRef) -> (res: Option<usize>)
        ensures
            match res {
                Some(p) => first_pos(self@, r@) == Some(p as nat),
                None => first_pos(self@, r@) is None,
            },
    {
        let ghost s = self@;
        proof {
            lemma_first_pos(s, r@);
        }
        let mut i: usize = 0;
        while i < self.index.len()
            invariant
                i <= self.index@.len(),
                s == self@,
                s.len() == self.index@.len(),
                forall|j: int| 0 <= j < i ==> s[j] != r@,
            decreases self.index.len() - i,
        {
            assert(s[i as int] == self.index@[i as int]@);
            if self.index[i].same(r) {
                proof {
                    lemma_first_pos(s, r@);
                    match first_pos(s, r@) {
                        Some(p) => {
                            if (p as int) < i {
                            } else if (p as int) > i {
                            }
                        },
                        None => {},
                    }
                }
                return Some(i);
            }
            i = i + 1;
        }
        None
    }

    /// The number of distinct handles in the history (the number of keys
    /// the map has).
    pub fn len(&self) -> (n: usize)
        ensures
            n == self@.to_set().len(),
    {
        let ghost s = self@;
        let mut count: usize = 0;
        let mut i: usize = 0;
        while i < self.index.len()
            invariant
                i <= self.index@.len(),
                s == self@,
                s.len() == self.index@.len(),
                count <= i,
                count == distinct_count(s.take(i as int)),
            decreases self.index.len() - i,
        {
            let mut seen = false;
            let mut j: usize = 0;
            while j < i
                invariant
                    j <= i < self.index@.len(),
                    s == self@,
                    s.len() == self.index@.len(),
                    seen <==> exists|m: int| 0 <= m < j && s[m] == s[i as int],
                decreases i - j,
            {
                assert(s[j as int] == self.index@[j as int]@);
                assert(s[i as int] == self.index@[i as int]@);
                if self.index[j].same(&self.index[i]) {
                    seen = true;
                }
                j = j + 1;
            }
            let ghost t = s.take(i + 1);
            assert(t.drop_last() =~= s.take(i as int));
            assert(t.last() == s[i as int]);
            assert(seen <==> s.take(i as int).contains(s[i as int])) by {
                if seen {
                    let m = choose|m: int| 0 <= m < i && s[m] == s[i as int];
                    assert(s.take(i as int)[m] == s[m]);
                }
                if s.take(i as int).contains(s[i as int]) {
                    let m = choose|m: int| 0 <= m < i && s.take(i as int)[m] == s[i as int];
                    assert(s[m] == s.take(i as int)[m]);
                }
            }
            if !seen {
                count = count + 1;
            }
            i = i + 1;
        }
        assert(s.take(s.len() as int) =~= s);
        proof {
            lemma_distinct_count(s);
        }
        count
    }
}

/// Builds the recency-rank map of a most-recent-first history: the first
/// element gets rank 0, the second rank 1, and so on; a handle listed twice
/// keeps the rank of its first (most recent) position.
pub fn mru_rank_map(index: &[EntryRef]) -> (r: RankMap)
    ensures
        r@ == index@.map_values(|e: EntryRef| e@),
{
    let mut v: Vec<EntryRef> = Vec::new();
    let mut i: usize = 0;
    while i < index.len()
        invariant
            i <= index@.len(),
            v@.len() == i,
            forall|j: int| 0 <= j < i ==> (#[trigger] v@[j])@ == index@[j]@,
        decreases index.len() - i,
    {
        v.push(index[i].duplicate());
        i = i + 1;
    }
    assert(v@.map_values(|e: EntryRef| e@) =~= index@.map_values(|e: EntryRef| e@));
    RankMap { index: v }
}

/// Word-prefix matches sort ahead of mere fuzzy matches within the
/// history tier.
pub open spec fn bucket(e: Entry, tokens: Seq<Seq<char>>) -> int {
    if word_prefix_match(haystack_spec(e), tokens) {
        0
    } else {
        1
    }
}

/// Display order of two matching entries `i` and `j`: entries in the
/// history come first, word-prefix matches before the rest, then by
/// recency, then by position; entries not in the history follow, by
/// descending score, then by position.
pub open spec fn rank_before(
    entries: Seq<Entry>,
    tokens: Seq<Seq<char>>,
    mru: Seq<RefView>,
    i: int,
    j: int,
) -> bool {
    let ri = first_pos(mru, entries[i].ref_spec());
    let rj = first_pos(mru, entries[j].ref_spec());
    match (ri, rj) {
        (Some(a), Some(b)) => {
            let bi = bucket(entries[i], tokens);
            let bj = bucket(entries[j], tokens);
            bi < bj || (bi == bj && (a < b || (a == b && i < j)))
        },
        (Some(_), None) => true,
        (None, Some(_)) => false,
        (None, None) => ranks_before(
            entry_score(entries[i], tokens)->0,
            i,
            entry_score(entries[j], tokens)->0,
            j,
        ),
    }
}

/// `ord` lists exactly the matching entries, in display order.
pub open spec fn is_rank_order(
    entries: Seq<Entry>,
    tokens: Seq<Seq<char>>,
    mru: Seq<RefView>,
    ord: Seq<int>,
) -> bool {
    &&& forall|k: int|
        0 <= k < ord.len() ==> 0 <= #[trigger] ord[k] < entries.len() && entry_score(
            entries[ord[k]],
            tokens,
        ) is Some
    &&& forall|i: int|
        0 <= i < entries.len() && (#[trigger] entry_score(entries[i], tokens)) is Some
            ==> ord.contains(i)
    &&& forall|a: int, b: int|
        0 <= a < b < ord.len() ==> rank_before(entries, tokens, mru, ord[a], ord[b])
}

/// The sort key of a matching entry.
spec fn rank_key_ok(
    x: Keyed,
    entries: Seq<Entry>,
    tokens: Seq<Seq<char>>,
    mru: Seq<RefView>,
) -> bool {
    let e = entries[x.pos as int];
    &&& x.pos < entries.len()
    &&& entry_score(e, tokens) is Some
    &&& match first_pos(mru, e.ref_spec()) {
        Some(p) => x.major == bucket(e, tokens) && x.minor == p,
        None => x.major == 2 + (i64::MAX - entry_score(e, tokens)->0) && x.minor == 0,
    }
}

proof fn lemma_rank_key_order(
    x: Keyed,
    y: Keyed,
    entries: Seq<Entry>,
    tokens: Seq<Seq<char>>,
    mru: Seq<RefView>,
)
    requires
        rank_key_ok(x, entries, tokens, mru),
        rank_key_ok(y, entries, tokens, mru),
        keyed_lt(x, y),
        entry_score(entries[x.pos as int], tokens)->0 <= i64::MAX,
        entry_score(entries[y.pos as int], tokens)->0 <= i64::MAX,
    ensures
        rank_before(entries, tokens, mru, x.pos as int, y.pos as int),
{
}

proof fn lemma_score_range(e: Entry, tokens: Seq<Seq<char>>)
    requires
        entry_score(e, tokens) is Some,
    ensures
        i64::MIN <= entry_score(e, tokens)->0 <= i64::MAX,
{
    if tokens.len() > 0 {
    }
}

/// Ranks `entries` against `query` and the recency map, returning the
/// indices of the matching entries in display order.
///
/// Matching is the same intersection fuzzy match as `search`. Entries in
/// the history come first: word-prefix matches before mere fuzzy matches,
/// then by recency. Entries never launched follow, by descending score.
/// Ties keep input order. A blank query matches everything, so it lists
/// the history in recency order and then the rest in input order.
pub fn rank(entries: &[Entry], query: &str, mru: &RankMap) -> (r: Vec<usize>)
    ensures
        is_rank_order(entries@, ws_tokens(query@), mru@, r@.map_values(|i: usize| i as int)),
{
    let tokens = split_whitespace(query);
    let ghost toks = ws_tokens(query@);
    let mut keyed: Vec<Keyed> = Vec::new();
    let mut i: usize = 0;
    while i < entries.len()
        invariant
            i <= entries@.len(),
            views(tokens@) == toks,
            forall|k: int|
                0 <= k < keyed@.len() ==> (#[trigger] keyed@[k]).pos < i && rank_key_ok(
                    keyed@[k],
                    entries@,
                    toks,
                    mru@,
                ),
            forall|a: int, b: int| 0 <= a < b < keyed@.len() ==> keyed@[a].pos < keyed@[b].pos,
            forall|j: int|
                0 <= j < i && (#[trigger] entry_score(entries@[j], toks)) is Some ==> exists|k: int|
                    0 <= k < keyed@.len() && keyed@[k].pos == j,
        decreases entries.len() - i,
    {
        let ghost old_keyed = keyed@;
        match score(&entries[i], tokens.as_slice()) {
            Some(s) => {
                let reference = entries[i].reference();
                match mru.get(&reference) {
                    Some(p) => {
                        let b: i128 = if is_prefix_match(&entries[i], tokens.as_slice()) {
                            0
                        } else {
                            1
                        };
                        keyed.push(Keyed { major: b, minor: p as i128, pos: i });
                    },
                    None => {
                        keyed.push(
                            Keyed { major: 2 + (i64::MAX as i128 - s as i128), minor: 0, pos: i },
                        );
                    },
                }
                assert(keyed@[keyed@.len() - 1].pos == i);
                assert(rank_key_ok(keyed@[keyed@.len() - 1], entries@, toks, mru@));
            },
            None => {},
        }
        proof {
            assert forall|j: int|
                0 <= j < i + 1 && (#[trigger] entry_score(entries@[j], toks)) is Some implies exists|
                    k: int,
                | 0 <= k < keyed@.len() && keyed@[k].pos == j by {
                if j < i {
                    let k = choose|k: int| 0 <= k < old_keyed.len() && old_keyed[k].pos == j;
                    assert(keyed@[k] == old_keyed[k]);
                } else {
                    assert(keyed@[keyed@.len() - 1].pos == j);
                }
            }
        }
        i = i + 1;
    }
    let sorted = sort_keyed(keyed);
    let mut out: Vec<usize> = Vec::new();
    let mut k: usize = 0;
    while k < sorted.len()
        invariant
            k <= sorted@.len(),
            out@.len() == k,
            forall|m: int| 0 <= m < k ==> out@[m] == #[trigger] sorted@[m].pos,
        decreases sorted.len() - k,
    {
        out.push(sorted[k].pos);
        k = k + 1;
    }
    proof {
        let ord = out@.map_values(|i: usize| i as int);
        assert forall|m: int| 0 <= m < ord.len() implies 0 <= #[trigger] ord[m] < entries@.len()
            && entry_score(entries@[ord[m]], toks) is Some by {
            assert(sorted@.contains(sorted@[m]));
            let j = choose|j: int| 0 <= j < keyed@.len() && keyed@[j] == sorted@[m];
            assert(keyed@[j].pos == ord[m]);
        }
        assert forall|j: int|
            0 <= j < entries@.len() && (#[trigger] entry_score(entries@[j], toks)) is Some
                implies ord.contains(j) by {
            let kk = choose|kk: int| 0 <= kk < keyed@.len() && keyed@[kk].pos == j;
            assert(keyed@.contains(keyed@[kk]));
            assert(sorted@.contains(keyed@[kk]));
            let m = choose|m: int| 0 <= m < sorted@.len() && sorted@[m] == keyed@[kk];
            assert(ord[m] == j);
        }
        assert forall|a: int, b: int| 0 <= a < b < ord.len() implies rank_before(
            entries@,
            toks,
            mru@,
            ord[a],
            ord[b],
        ) by {
            let xa = sorted@[a];
            let xb = sorted@[b];
            assert(sorted@.contains(xa));
            assert(sorted@.contains(xb));
            let ja = choose|j: int| 0 <= j < keyed@.len() && keyed@[j] == xa;
            let jb = choose|j: int| 0 <= j < keyed@.len() && keyed@[j] == xb;
            assert(rank_key_ok(xa, entries@, toks, mru@));
            assert(rank_key_ok(xb, entries@, toks, mru@));
            lemma_score_range(entries@[xa.pos as int], toks);
            lemma_score_range(entries@[xb.pos as int], toks);
            lemma_rank_key_order(xa, xb, entries@, toks, mru@);
        }
    }
    out
}

/// Within the display order, an entry from the history is never below one
/// that is not in it, however well the latter matches.
pub proof fn lemma_history_outranks_unused(
    entries: Seq<Entry>,
    tokens: Seq<Seq<char>>,
    mru: Seq<RefView>,
    ord: Seq<int>,
    a: int,
    b: int,
)
    requires
        is_rank_order(entries, tokens, mru, ord),
        0 <= a < b < ord.len(),
        first_pos(mru, entries[ord[b]].ref_spec()) is Some,
    ensures
        first_pos(mru, entries[ord[a]].ref_spec()) is Some,
{
    assert(rank_before(entries, tokens, mru, ord[a], ord[b]));
}

/// A blank query ranks every entry by history alone: the history in
/// recency order, then the rest in input order, which is the order
/// `EntryList::apply_mru` gives the same entries.
pub proof fn lemma_blank_rank_is_history_order(
    entries: Seq<Entry>,
    query: Seq<char>,
    mru: Seq<RefView>,
    ord: Seq<int>,
)
    requires
        is_blank(query),
        is_rank_order(entries, ws_tokens(query), mru, ord),
    ensures
        is_history_order(entries, mru, ord),
{
    let toks = ws_tokens(query);
    lemma_blank_iff_no_tokens(query);
    assert forall|i: int| 0 <= i < entries.len() implies (#[trigger] entry_score(entries[i], toks))
        == Some(0int) && bucket(entries[i], toks) == 0 by {}
    assert forall|i: int| 0 <= i < entries.len() implies #[trigger] ord.contains(i) by {
        assert(entry_score(entries[i], toks) is Some);
    }
    assert forall|x: int, y: int| 0 <= x < y < ord.len() implies history_before(
        entries,
        mru,
        ord[x],
        ord[y],
    ) && ord[x] != ord[y] by {
        assert(rank_before(entries, toks, mru, ord[x], ord[y]));
        assert(bucket(entries[ord[x]], toks) == 0);
        assert(bucket(entries[ord[y]], toks) == 0);
        assert(entry_score(entries[ord[x]], toks) == Some(0int));
        assert(entry_score(entries[ord[y]], toks) == Some(0int));
    }
    assert forall|x: int, y: int| 0 <= x < y < ord.len() implies ord[x] != ord[y] by {
        assert(history_before(entries, mru, ord[x], ord[y]));
    }
    lemma_distinct_cover_len(ord, entries.len());
}

/// The display order is fully determined: the same entries, query and
/// history always list the same entries in the same order.
pub proof fn lemma_rank_order_unique(
    entries: Seq<Entry>,
    tokens: Seq<Seq<char>>,
    mru: Seq<RefView>,
    o1: Seq<int>,
    o2: Seq<int>,
)
    requires
        is_rank_order(entries, tokens, mru, o1),
        is_rank_order(entries, tokens, mru, o2),
    ensures
        o1 == o2,
{
    let lt = |i: int, j: int| rank_before(entries, tokens, mru, i, j);
    assert forall|x: int| o1.contains(x) <==> o2.contains(x) by {
        if o1.contains(x) {
            let k = choose|k: int| 0 <= k < o1.len() && o1[k] == x;
            assert(entry_score(entries[o1[k]], tokens) is Some);
        }
        if o2.contains(x) {
            let k = choose|k: int| 0 <= k < o2.len() && o2[k] == x;
            assert(entry_score(entries[o2[k]], tokens) is Some);
        }
    }
    assert forall|a: int, b: int| 0 <= a < b < o1.len() implies lt(o1[a], o1[b]) by {}
    assert forall|a: int, b: int| 0 <= a < b < o2.len() implies lt(o2[a], o2[b]) by {}
    assert forall|x: int, y: int| #[trigger] lt(x, y) implies !lt(y, x) by {}
    lemma_sorted_unique(o1, o2, lt);
}

/// Entry `e1` has a strictly better (more recent) history rank than `e2`;
/// an entry without a rank is behind every ranked one.
pub open spec fn history_rank_lt(mru: Seq<RefView>, e1: Entry, e2: Entry) -> bool {
    match (first_pos(mru, e1.ref_spec()), first_pos(mru, e2.ref_spec())) {
        (Some(a), Some(b)) => a < b,
        (Some(_), None) => true,
        _ => false,
    }
}

/// `x` comes before `y` in `ord`.
pub open spec fn comes_before(ord: Seq<int>, x: int, y: int) -> bool {
    exists|i: int, j: int| 0 <= i < j < ord.len() && ord[i] == x && ord[j] == y
}

/// `r` is `ord` stably sorted by history rank: the same items, ordered by
/// rank, equal ranks (in particular every unranked entry) in the order
/// `ord` has them.
pub open spec fn is_stable_rank_sort(
    ord: Seq<int>,
    entries: Seq<Entry>,
    mru: Seq<RefView>,
    r: Seq<int>,
) -> bool {
    &&& r.len() == ord.len()
    &&& forall|k: int| 0 <= k < r.len() ==> ord.contains(#[trigger] r[k])
    &&& forall|k: int| 0 <= k < ord.len() ==> r.contains(#[trigger] ord[k])
    &&& forall|a: int, b: int|
        #![trigger r[a], r[b]]
        0 <= a < b < r.len() ==> history_rank_lt(mru, entries[r[a]], entries[r[b]]) || (
        first_pos(mru, entries[r[a]].ref_spec()) == first_pos(mru, entries[r[b]].ref_spec())
            && comes_before(ord, r[a], r[b]))
}

/// The sort key of the `pos`-th search result: its history rank, or a
/// value past every rank when it has none.
spec fn stable_key_ok(x: Keyed, ord: Seq<int>, entries: Seq<Entry>, mru: Seq<RefView>) -> bool {
    &&& x.pos < ord.len()
    &&& x.minor == 0
    &&& 0 <= ord[x.pos as int] < entries.len()
    &&& match first_pos(mru, entries[ord[x.pos as int]].ref_spec()) {
        Some(p) => x.major == p && p <= usize::MAX,
        None => x.major == usize::MAX + 1,
    }
}

proof fn lemma_stable_key_order(
    x: Keyed,
    y: Keyed,
    ord: Seq<int>,
    entries: Seq<Entry>,
    mru: Seq<RefView>,
)
    requires
        stable_key_ok(x, ord, entries, mru),
        stable_key_ok(y, ord, entries, mru),
        keyed_lt(x, y),
    ensures
        history_rank_lt(mru, entries[ord[x.pos as int]], entries[ord[y.pos as int]]) || (
        first_pos(mru, entries[ord[x.pos as int]].ref_spec()) == first_pos(
            mru,
            entries[ord[y.pos as int]].ref_spec(),
        ) && comes_before(ord, ord[x.pos as int], ord[y.pos as int])),
{
    if x.major == y.major {
        assert(x.pos < y.pos);
        assert(0 <= x.pos < y.pos < ord.len() && ord[x.pos as int] == ord[x.pos as int] && ord[
            y.pos as int] == ord[y.pos as int]);
    }
}

/// The order the GNOME list shows: the search results for `query` (every
/// entry, in input order, for a blank query), stably sorted by history
/// rank. History entries come first, most recent first; the others follow
/// in their search order. The history alone orders the entries it holds,
/// so the rows of those entries keep their order while the query narrows.
pub fn visible_order(entries: &[Entry], query: &str, mru: &RankMap) -> (r: Vec<usize>)
    ensures
        exists|ord: Seq<int>|
            #![trigger is_search_order(entries@, ws_tokens(query@), ord)]
            is_search_order(entries@, ws_tokens(query@), ord) && is_stable_rank_sort(
                ord,
                entries@,
                mru@,
                r@.map_values(|i: usize| i as int),
            ),
{
    let found = search_indices(entries, query);
    let ghost ord = found@.map_values(|i: usize| i as int);
    assert(is_search_order(entries@, ws_tokens(query@), ord));
    let mut keyed: Vec<Keyed> = Vec::new();
    let mut k: usize = 0;
    while k < found.len()
        invariant
            k <= found@.len(),
            ord == found@.map_values(|i: usize| i as int),
            is_search_order(entries@, ws_tokens(query@), ord),
            keyed@.len() == k,
            forall|m: int|
                0 <= m < k ==> (#[trigger] keyed@[m]).pos == m && stable_key_ok(
                    keyed@[m],
                    ord,
                    entries@,
                    mru@,
                ),
        decreases found.len() - k,
    {
        let i = found[k];
        assert(ord[k as int] == i as int);
        let reference = entries[i].reference();
        let major: i128 = match mru.get(&reference) {
            Some(p) => p as i128,
            None => usize::MAX as i128 + 1,
        };
        keyed.push(Keyed { major, minor: 0, pos: k });
        k = k + 1;
    }
    let sorted = sort_keyed(keyed);
    assert forall|m: int| 0 <= m < sorted@.len() implies stable_key_ok(
        #[trigger] sorted@[m],
        ord,
        entries@,
        mru@,
    ) by {
        assert(sorted@.contains(sorted@[m]));
        let j = choose|j: int| 0 <= j < keyed@.len() && keyed@[j] == sorted@[m];
    }
    let mut out: Vec<usize> = Vec::new();
    let mut m: usize = 0;
    while m < sorted.len()
        invariant
            m <= sorted@.len(),
            ord == found@.map_values(|i: usize| i as int),
            out@.len() == m,
            forall|q: int| 0 <= q < sorted@.len() ==> stable_key_ok(#[trigger] sorted@[q], ord, entries@, mru@),
            forall|q: int| 0 <= q < m ==> out@[q] as int == ord[#[trigger] sorted@[q].pos as int],
        decreases sorted.len() - m,
    {
        let p = sorted[m].pos;
        assert(ord[p as int] == found@[p as int] as int);
        out.push(found[p]);
        m = m + 1;
    }
    proof {
        let r = out@.map_values(|i: usize| i as int);
        assert forall|q: int| 0 <= q < r.len() implies ord.contains(#[trigger] r[q]) by {
            assert(r[q] == ord[sorted@[q].pos as int]);
        }
        assert forall|q: int| 0 <= q < ord.len() implies r.contains(#[trigger] ord[q]) by {
            assert(keyed@.contains(keyed@[q]));
            let m2 = choose|m2: int| 0 <= m2 < sorted@.len() && sorted@[m2] == keyed@[q];
            assert(r[m2] == ord[q]);
        }
        assert forall|a: int, b: int|
            #![trigger r[a], r[b]]
            0 <= a < b < r.len() implies history_rank_lt(
            mru@,
            entries@[r[a]],
            entries@[r[b]],
        ) || (first_pos(mru@, entries@[r[a]].ref_spec()) == first_pos(
            mru@,
            entries@[r[b]].ref_spec(),
        ) && comes_before(ord, r[a], r[b])) by {
            assert(r[a] == ord[sorted@[a].pos as int]);
            assert(r[b] == ord[sorted@[b].pos as int]);
            lemma_stable_key_order(sorted@[a], sorted@[b], ord, entries@, mru@);
        }
        assert(r.len() == ord.len());
        assert(is_stable_rank_sort(ord, entries@, mru@, r));
    }
    out
}

/// Two entries of the history with different ranks are shown in rank
/// order whatever the query: typing more never swaps them.
pub proof fn lemma_history_rows_keep_order(
    entries: Seq<Entry>,
    mru: Seq<RefView>,
    ord1: Seq<int>,
    r1: Seq<int>,
    ord2: Seq<int>,
    r2: Seq<int>,
    a1: int,
    b1: int,
    a2: int,
    b2: int,
)
    requires
        is_stable_rank_sort(ord1, entries, mru, r1),
        is_stable_rank_sort(ord2, entries, mru, r2),
        0 <= a1 < b1 < r1.len(),
        0 <= a2 < r2.len(),
        0 <= b2 < r2.len(),
        r2[a2] == r1[a1],
        r2[b2] == r1[b1],
        first_pos(mru, entries[r1[a1]].ref_spec()) is Some,
        first_pos(mru, entries[r1[b1]].ref_spec()) is Some,
        first_pos(mru, entries[r1[a1]].ref_spec()) != first_pos(mru, entries[r1[b1]].ref_spec()),
    ensures
        a2 < b2,
{
    assert(history_rank_lt(mru, entries[r1[a1]], entries[r1[b1]]));
    if b2 < a2 {
        assert(history_rank_lt(mru, entries[r2[b2]], entries[r2[a2]]) || first_pos(
            mru,
            entries[r2[b2]].ref_spec(),
        ) == first_pos(mru, entries[r2[a2]].ref_spec()));
    }
}

} // verus!
