//! Sorting of positions by a two-level key. Every ordering in the launcher
//! (fuzzy ranking, recency ranking, history reordering) is a stable sort;
//! a stable sort of distinct positions by a key is the sort by the key
//! followed by the position, which is what `sort_keyed` computes.

use vstd::prelude::*;

verus! {

/// A position in some sequence with the key it is ordered by.
#[derive(Clone, Copy)]
pub struct Keyed {
    pub major: i128,
    pub minor: i128,
    pub pos: usize,
}

/// Lexicographic order on `(major, minor, pos)`.
pub open spec fn keyed_lt(a: Keyed, b: Keyed) -> bool {
    ||| a.major < b.major
    ||| a.major == b.major && a.minor < b.minor
    ||| a.major == b.major && a.minor == b.minor && a.pos < b.pos
}

/// Every item is below every later one.
pub open spec fn strictly_sorted(s: Seq<Keyed>) -> bool {
    forall|i: int, j: int| 0 <= i < j < s.len() ==> keyed_lt(s[i], s[j])
}

/// No position occurs twice.
pub open spec fn distinct_pos(s: Seq<Keyed>) -> bool {
    forall|i: int, j: int| 0 <= i < j < s.len() ==> s[i].pos != s[j].pos
}

fn lt(a: Keyed, b: Keyed) -> (r: bool)
    ensures
        r == keyed_lt(a, b),
{
    a.major < b.major || (a.major == b.major && a.minor < b.minor) || (a.major == b.major
        && a.minor == b.minor && a.pos < b.pos)
}

/// Sorts `v` by `(major, minor, pos)`. The result holds the same items,
/// in strictly increasing order.
pub fn sort_keyed(v: Vec<Keyed>) -> (r: Vec<Keyed>)
    requires
        distinct_pos(v@),
    ensures
        r@.len() == v@.len(),
        strictly_sorted(r@),
        forall|x: Keyed| r@.contains(x) <==> v@.contains(x),
{
    let mut r: Vec<Keyed> = Vec::new();
    let mut i: usize = 0;
    while i < v.len()
        invariant
            i <= v@.len(),
            distinct_pos(v@),
            r@.len() == i,
            strictly_sorted(r@),
            forall|x: Keyed| r@.contains(x) <==> v@.take(i as int).contains(x),
        decreases v.len() - i,
    {
        let x = v[i];
        // x differs in position from every item already placed.
        assert forall|k: int| 0 <= k < r@.len() implies r@[k].pos != x.pos by {
            assert(r@.contains(r@[k]));
            assert(v@.take(i as int).contains(r@[k]));
            let t = v@.take(i as int);
            let j = choose|j: int| 0 <= j < t.len() && t[j] == r@[k];
            assert(v@[j] == r@[k]);
        }
        let mut p: usize = 0;
        while p < r.len() && !lt(x, r[p])
            invariant
                p <= r@.len(),
                forall|k: int| 0 <= k < p ==> keyed_lt(r@[k], x),
                forall|k: int| 0 <= k < r@.len() ==> r@[k].pos != x.pos,
            decreases r@.len() - p,
        {
            p = p + 1;
        }
        let ghost old_r = r@;
        r.insert(p, x);
        proof {
            assert(r@ == old_r.insert(p as int, x));
            assert forall|a: int, b: int| 0 <= a < b < r@.len() implies keyed_lt(r@[a], r@[b]) by {
                if b < p {
                } else if b == p {
                } else if a < p {
                    assert(r@[b] == old_r[b - 1]);
                    assert(keyed_lt(x, old_r[p as int]));
                    if b - 1 > p {
                        assert(keyed_lt(old_r[p as int], old_r[b - 1]));
                    }
                } else if a == p {
                    assert(r@[b] == old_r[b - 1]);
                    assert(keyed_lt(x, old_r[p as int]));
                    if b - 1 > p {
                        assert(keyed_lt(old_r[p as int], old_r[b - 1]));
                    }
                } else {
                    assert(r@[a] == old_r[a - 1]);
                    assert(r@[b] == old_r[b - 1]);
                }
            }
            assert(v@.take(i + 1) == v@.take(i as int).push(x));
            assert forall|y: Keyed| r@.contains(y) <==> v@.take(i + 1).contains(y) by {
                if r@.contains(y) {
                    let k = choose|k: int| 0 <= k < r@.len() && r@[k] == y;
                    if k < p {
                        assert(old_r[k] == y);
                        assert(old_r.contains(y));
                    } else if k > p {
                        assert(old_r[k - 1] == y);
                        assert(old_r.contains(y));
                    }
                    if y != x {
                        assert(old_r.contains(y));
                        let t = v@.take(i as int);
                        let j = choose|j: int| 0 <= j < t.len() && t[j] == y;
                        assert(v@.take(i + 1)[j] == y);
                    } else {
                        assert(v@.take(i + 1)[i as int] == y);
                    }
                }
                if v@.take(i + 1).contains(y) {
                    let t = v@.take(i + 1);
                    let j = choose|j: int| 0 <= j < t.len() && t[j] == y;
                    if j < i {
                        assert(v@.take(i as int)[j] == y);
                        assert(v@.take(i as int).contains(y));
                        assert(old_r.contains(y));
                        let k = choose|k: int| 0 <= k < old_r.len() && old_r[k] == y;
                        if k < p {
                            assert(r@[k] == y);
                        } else {
                            assert(r@[k + 1] == y);
                        }
                    } else {
                        assert(r@[p as int] == y);
                    }
                }
            }
        }
        i = i + 1;
    }
    assert(v@.take(v@.len() as int) == v@);
    r
}

/// The first `k + 1` items of a strictly increasing sequence of positions
/// in `0..n` that covers every position are `0..=k`.
proof fn lemma_cover_prefix(ord: Seq<int>, n: int, k: int)
    requires
        forall|m: int| 0 <= m < ord.len() ==> 0 <= #[trigger] ord[m] < n,
        forall|i: int| 0 <= i < n ==> ord.contains(i),
        forall|a: int, b: int| 0 <= a < b < ord.len() ==> ord[a] < ord[b],
        0 <= k < ord.len(),
    ensures
        forall|j: int| 0 <= j <= k ==> ord[j] == j,
    decreases k,
{
    if k > 0 {
        lemma_cover_prefix(ord, n, k - 1);
        assert(ord[k - 1] < ord[k]);
    }
    assert(0 <= ord[k]);
    assert(k <= ord[k] < n);
    assert(ord.contains(k));
    let m = choose|m: int| 0 <= m < ord.len() && ord[m] == k;
    if m < k {
        assert(ord[m] == m);
    } else if m > k {
        assert(ord[k] < ord[m]);
    }
}

/// A strictly increasing sequence of positions in `0..n` that covers every
/// position is `0..n` itself.
pub proof fn lemma_increasing_cover(ord: Seq<int>, n: nat)
    requires
        forall|m: int| 0 <= m < ord.len() ==> 0 <= #[trigger] ord[m] < n,
        forall|i: int| 0 <= i < n ==> ord.contains(i),
        forall|a: int, b: int| 0 <= a < b < ord.len() ==> ord[a] < ord[b],
    ensures
        ord == Seq::new(n, |i: int| i),
{
    if ord.len() > 0 {
        lemma_cover_prefix(ord, n as int, ord.len() - 1);
    }
    if ord.len() > n {
        assert(ord[n as int] == n);
    }
    if ord.len() < n {
        assert(ord.contains(n - 1));
        let m = choose|m: int| 0 <= m < ord.len() && ord[m] == n - 1;
        assert(ord[m] == m);
    }
    assert(ord =~= Seq::new(n, |i: int| i));
}

/// A duplicate-free sequence of positions in `0..n` that covers every
/// position has exactly `n` items.
pub proof fn lemma_distinct_cover_len(ord: Seq<int>, n: nat)
    requires
        forall|m: int| 0 <= m < ord.len() ==> 0 <= #[trigger] ord[m] < n,
        forall|i: int| 0 <= i < n ==> ord.contains(i),
        forall|a: int, b: int| 0 <= a < b < ord.len() ==> ord[a] != ord[b],
    ensures
        ord.len() == n,
{
    assert(ord.no_duplicates());
    ord.unique_seq_to_set();
    vstd::set_lib::lemma_int_range(0, n as int);
    assert(ord.to_set() =~= vstd::set_lib::set_int_range(0, n as int));
}

/// Two sequences with the same items, each strictly increasing in the
/// asymmetric relation `lt`, are equal: an order of this kind leaves no
/// freedom in how its items are listed.
pub proof fn lemma_sorted_unique(o1: Seq<int>, o2: Seq<int>, lt: spec_fn(int, int) -> bool)
    requires
        forall|x: int| o1.contains(x) <==> o2.contains(x),
        forall|a: int, b: int| 0 <= a < b < o1.len() ==> lt(o1[a], o1[b]),
        forall|a: int, b: int| 0 <= a < b < o2.len() ==> lt(o2[a], o2[b]),
        forall|x: int, y: int| #[trigger] lt(x, y) ==> !lt(y, x),
    ensures
        o1 == o2,
    decreases o1.len(),
{
    if o1.len() == 0 {
        if o2.len() > 0 {
            assert(o2.contains(o2[0]));
        }
        assert(o1 =~= o2);
    } else {
        assert(o1.contains(o1[0]));
        assert(o2.len() > 0);
        let a = o1[0];
        let b = o2[0];
        if a != b {
            let j = choose|j: int| 0 <= j < o2.len() && o2[j] == a;
            assert(o2.contains(b));
            let i = choose|i: int| 0 <= i < o1.len() && o1[i] == b;
            assert(lt(o2[0], o2[j]));
            assert(lt(o1[0], o1[i]));
        }
        let r1 = o1.drop_first();
        let r2 = o2.drop_first();
        assert forall|x: int| r1.contains(x) <==> r2.contains(x) by {
            if r1.contains(x) {
                let i = choose|i: int| 0 <= i < r1.len() && r1[i] == x;
                assert(o1[i + 1] == x);
                assert(lt(o1[0], o1[i + 1]));
                assert(o1.contains(x));
                let j = choose|j: int| 0 <= j < o2.len() && o2[j] == x;
                if j == 0 {
                    assert(lt(x, x));
                }
                assert(r2[j - 1] == x);
            }
            if r2.contains(x) {
                let j = choose|j: int| 0 <= j < r2.len() && r2[j] == x;
                assert(o2[j + 1] == x);
                assert(lt(o2[0], o2[j + 1]));
                assert(o2.contains(x));
                let i = choose|i: int| 0 <= i < o1.len() && o1[i] == x;
                if i == 0 {
                    assert(lt(x, x));
                }
                assert(r1[i - 1] == x);
            }
        }
        assert forall|p: int, q: int| 0 <= p < q < r1.len() implies lt(r1[p], r1[q]) by {
            assert(lt(o1[p + 1], o1[q + 1]));
        }
        assert forall|p: int, q: int| 0 <= p < q < r2.len() implies lt(r2[p], r2[q]) by {
            assert(lt(o2[p + 1], o2[q + 1]));
        }
        lemma_sorted_unique(r1, r2, lt);
        assert(o1 =~= seq![a] + r1);
        assert(o2 =~= seq![b] + r2);
    }
}

} // verus!
