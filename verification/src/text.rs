//! Character-level helpers shared by the matcher, the ranking and the label
//! builders: whitespace tokenization, prefix tests, ASCII case folding and
//! decimal rendering of integers.

use vstd::prelude::*;

verus! {

/// Unicode `White_Space` characters, which is the set `char::is_whitespace`
/// accepts and therefore the separator set of `str::split_whitespace`.
pub open spec fn is_ws(c: char) -> bool {
    let u = c as u32;
    ||| 0x09 <= u <= 0x0D
    ||| u == 0x20
    ||| u == 0x85
    ||| u == 0xA0
    ||| u == 0x1680
    ||| 0x2000 <= u <= 0x200A
    ||| u == 0x2028
    ||| u == 0x2029
    ||| u == 0x202F
    ||| u == 0x205F
    ||| u == 0x3000
}

/// Length of the run of non-whitespace characters that starts `s`.
pub open spec fn word_len(s: Seq<char>) -> nat
    decreases s.len(),
{
    if s.len() == 0 || is_ws(s[0]) {
        0
    } else {
        1 + word_len(s.drop_first())
    }
}

/// The maximal runs of non-whitespace characters of `s`, in order: what
/// `str::split_whitespace` yields.
pub open spec fn ws_tokens(s: Seq<char>) -> Seq<Seq<char>>
    decreases s.len(),
{
    if s.len() == 0 {
        Seq::empty()
    } else if is_ws(s[0]) {
        ws_tokens(s.drop_first())
    } else {
        let n = word_len(s);
        proof {
            lemma_word_len_bound(s);
        }
        seq![s.take(n as int)] + ws_tokens(s.skip(n as int))
    }
}

/// Every character of `s` is whitespace (`s.trim().is_empty()`).
pub open spec fn is_blank(s: Seq<char>) -> bool {
    forall|i: int| 0 <= i < s.len() ==> is_ws(#[trigger] s[i])
}

/// The views of a sequence of owned strings.
pub open spec fn views(v: Seq<String>) -> Seq<Seq<char>> {
    v.map_values(|s: String| s@)
}

/// ASCII case folding: `A`..=`Z` map to `a`..=`z`, every other character is
/// kept.
pub open spec fn lower(c: char) -> char {
    if 'A' <= c && c <= 'Z' {
        ((c as u32) + 32) as char
    } else {
        c
    }
}

/// ASCII case folding of every character.
pub open spec fn lower_seq(s: Seq<char>) -> Seq<char> {
    s.map_values(|c: char| lower(c))
}

/// `p` is a prefix of `s`.
pub open spec fn is_prefix(p: Seq<char>, s: Seq<char>) -> bool {
    p.len() <= s.len() && s.take(p.len() as int) == p
}

/// `p` is a suffix of `s`.
pub open spec fn is_suffix(p: Seq<char>, s: Seq<char>) -> bool {
    p.len() <= s.len() && s.skip(s.len() - p.len()) == p
}

/// The decimal digit character of `d`.
pub open spec fn digit_char(d: nat) -> char {
    ((48 + d) as u32) as char
}

/// Decimal digits of a natural number, most significant first.
pub open spec fn nat_digits(n: nat) -> Seq<char>
    decreases n,
{
    if n < 10 {
        seq![digit_char(n)]
    } else {
        nat_digits(n / 10).push(digit_char(n % 10))
    }
}

/// `n` rendered the way `Display` renders an integer: an optional `-` and
/// the decimal digits of the magnitude.
pub open spec fn decimal(n: int) -> Seq<char> {
    if n < 0 {
        seq!['-'] + nat_digits((-n) as nat)
    } else {
        nat_digits(n as nat)
    }
}

/// Whether `c` is whitespace in the sense of `char::is_whitespace`.
pub fn is_whitespace_char(c: char) -> (r: bool)
    ensures
        r == is_ws(c),
{
    let u = c as u32;
    (0x09 <= u && u <= 0x0D) || u == 0x20 || u == 0x85 || u == 0xA0 || u == 0x1680 || (0x2000
        <= u && u <= 0x200A) || u == 0x2028 || u == 0x2029 || u == 0x202F || u == 0x205F || u
        == 0x3000
}

/// ASCII case folding of one character.
pub fn to_lower(c: char) -> (r: char)
    ensures
        r == lower(c),
{
    if 'A' <= c && c <= 'Z' {
        let u = (c as u32) + 32;
        assert(0x61 <= u <= 0x7A);
        char_from_ascii(u as u8)
    } else {
        c
    }
}

fn char_from_ascii(b: u8) -> (r: char)
    requires
        b < 128,
    ensures
        r as u32 == b as u32,
        r == (b as u32) as char,
{
    b as char
}

/// Calls `String::push`, which the standard library documents as
/// appending the character to the end of the string; that is all that is
/// claimed of it.
#[verifier::external_body]
pub(crate) fn push_char(s: &mut String, c: char)
    ensures
        final(s)@ == old(s)@.push(c),
{
    s.push(c)
}

/// The characters of `s`, in order.
pub fn chars_of(s: &str) -> (v: Vec<char>)
    ensures
        v@ == s@,
{
    let mut v: Vec<char> = Vec::new();
    for c in it: s.chars()
        invariant
            v@ == it.seq().take(it.index() as int),
            it.seq() == s@,
    {
        v.push(c);
    }
    v
}

/// Equality of two character slices.
pub fn chars_eq(a: &[char], b: &[char]) -> (r: bool)
    ensures
        r == (a@ == b@),
{
    if a.len() != b.len() {
        return false;
    }
    let mut i: usize = 0;
    while i < a.len()
        invariant
            a.len() == b.len(),
            i <= a.len(),
            forall|k: int| 0 <= k < i ==> a@[k] == b@[k],
        decreases a.len() - i,
    {
        if a[i] != b[i] {
            return false;
        }
        i = i + 1;
    }
    assert(a@ =~= b@);
    true
}

/// Equality of the character sequences of two strings.
pub fn str_eq(a: &str, b: &str) -> (r: bool)
    ensures
        r == (a@ == b@),
{
    let ca = chars_of(a);
    let cb = chars_of(b);
    chars_eq(ca.as_slice(), cb.as_slice())
}

/// Whether `p` is a prefix of `s`.
pub fn has_prefix(s: &[char], p: &[char]) -> (r: bool)
    ensures
        r == is_prefix(p@, s@),
{
    if p.len() > s.len() {
        return false;
    }
    let mut i: usize = 0;
    while i < p.len()
        invariant
            p.len() <= s.len(),
            i <= p.len(),
            forall|k: int| 0 <= k < i ==> s@[k] == p@[k],
        decreases p.len() - i,
    {
        if s[i] != p[i] {
            assert(s@.take(p.len() as int)[i as int] != p@[i as int]);
            return false;
        }
        i = i + 1;
    }
    assert(s@.take(p.len() as int) =~= p@);
    true
}

/// Whether `p` is a suffix of `s`.
pub fn has_suffix(s: &[char], p: &[char]) -> (r: bool)
    ensures
        r == is_suffix(p@, s@),
{
    if p.len() > s.len() {
        return false;
    }
    let off = s.len() - p.len();
    let mut i: usize = 0;
    while i < p.len()
        invariant
            p.len() <= s.len(),
            off == s.len() - p.len(),
            i <= p.len(),
            forall|k: int| 0 <= k < i ==> s@[off + k] == p@[k],
        decreases p.len() - i,
    {
        if s[off + i] != p[i] {
            assert(s@.skip(off as int)[i as int] != p@[i as int]);
            return false;
        }
        i = i + 1;
    }
    assert(s@.skip(off as int) =~= p@);
    true
}

/// Whether every character of `s` is whitespace.
pub fn blank(s: &str) -> (r: bool)
    ensures
        r == is_blank(s@),
{
    let cs = chars_of(s);
    let mut i: usize = 0;
    while i < cs.len()
        invariant
            cs@ == s@,
            i <= cs.len(),
            forall|k: int| 0 <= k < i ==> is_ws(#[trigger] s@[k]),
        decreases cs.len() - i,
    {
        if !is_whitespace_char(cs[i]) {
            return false;
        }
        i = i + 1;
    }
    true
}

/// A word is a run of non-whitespace characters ending at whitespace or at the end.
pub proof fn lemma_word_len_bound(s: Seq<char>)
    ensures
        word_len(s) <= s.len(),
        forall|k: int| 0 <= k < word_len(s) ==> !is_ws(#[trigger] s[k]),
        word_len(s) < s.len() ==> is_ws(s[word_len(s) as int]),
    decreases s.len(),
{
    if s.len() == 0 || is_ws(s[0]) {
    } else {
        lemma_word_len_bound(s.drop_first());
        assert forall|k: int| 0 <= k < word_len(s) implies !is_ws(#[trigger] s[k]) by {
            if k > 0 {
                assert(s[k] == s.drop_first()[k - 1]);
            }
        }
        if word_len(s) < s.len() {
            assert(s[word_len(s) as int] == s.drop_first()[word_len(s.drop_first()) as int]);
        }
    }
}

/// Tokens are what remains after splitting on whitespace: none is empty and
/// none contains whitespace.
pub proof fn lemma_tokens_shape(s: Seq<char>)
    ensures
        forall|t: int| 0 <= t < ws_tokens(s).len() ==> token_ok(#[trigger] ws_tokens(s)[t]),
    decreases s.len(),
{
    if s.len() == 0 {
    } else if is_ws(s[0]) {
        lemma_tokens_shape(s.drop_first());
        assert(ws_tokens(s) == ws_tokens(s.drop_first()));
    } else {
        let n = word_len(s);
        lemma_word_len_bound(s);
        assert(n > 0) by {
            assert(word_len(s) == 1 + word_len(s.drop_first()));
        }
        {
            lemma_tokens_shape(s.skip(n as int));
            let rest = ws_tokens(s.skip(n as int));
            let first = s.take(n as int);
            assert(ws_tokens(s) == seq![first] + rest);
            assert(token_ok(first)) by {
                assert forall|k: int| 0 <= k < first.len() implies !is_ws(#[trigger] first[k]) by {
                    assert(first[k] == s[k]);
                }
            }
            assert forall|t: int| 0 <= t < ws_tokens(s).len() implies token_ok(
                #[trigger] ws_tokens(s)[t],
            ) by {
                if t == 0 {
                    assert(ws_tokens(s)[0] == first);
                } else {
                    assert(ws_tokens(s)[t] == rest[t - 1]);
                }
            }
        }
    }
}

/// A token is non-empty and holds no whitespace.
pub open spec fn token_ok(t: Seq<char>) -> bool {
    t.len() > 0 && forall|k: int| 0 <= k < t.len() ==> !is_ws(#[trigger] t[k])
}

/// A string is blank exactly when it has no whitespace-separated tokens.
pub proof fn lemma_blank_iff_no_tokens(s: Seq<char>)
    ensures
        is_blank(s) <==> ws_tokens(s).len() == 0,
    decreases s.len(),
{
    if s.len() == 0 {
    } else if is_ws(s[0]) {
        lemma_blank_iff_no_tokens(s.drop_first());
        if is_blank(s.drop_first()) {
            assert forall|i: int| 0 <= i < s.len() implies is_ws(#[trigger] s[i]) by {
                if i > 0 {
                    assert(s[i] == s.drop_first()[i - 1]);
                }
            }
        }
        if is_blank(s) {
            assert forall|i: int| 0 <= i < s.drop_first().len() implies is_ws(
                #[trigger] s.drop_first()[i],
            ) by {
                assert(s.drop_first()[i] == s[i + 1]);
            }
        }
    } else {
        assert(word_len(s) == 1 + word_len(s.drop_first()));
        assert(!is_ws(s[0]));
    }
}

spec fn pending(cur: Seq<char>, rest: Seq<char>) -> Seq<Seq<char>> {
    if cur.len() == 0 {
        ws_tokens(rest)
    } else {
        seq![cur + rest.take(word_len(rest) as int)] + ws_tokens(rest.skip(word_len(rest) as int))
    }
}

proof fn lemma_pending_step(cur: Seq<char>, rest: Seq<char>)
    requires
        rest.len() > 0,
    ensures
        is_ws(rest[0]) && cur.len() > 0 ==> pending(cur, rest) == seq![cur] + pending(
            Seq::empty(),
            rest.drop_first(),
        ),
        is_ws(rest[0]) && cur.len() == 0 ==> pending(cur, rest) == pending(
            Seq::empty(),
            rest.drop_first(),
        ),
        !is_ws(rest[0]) ==> pending(cur, rest) == pending(cur.push(rest[0]), rest.drop_first()),
{
    let r1 = rest.drop_first();
    lemma_word_len_bound(rest);
    lemma_word_len_bound(r1);
    if is_ws(rest[0]) {
        assert(word_len(rest) == 0);
        assert(rest.take(0) =~= Seq::<char>::empty());
        assert(rest.skip(0) =~= rest);
        assert(cur + Seq::<char>::empty() =~= cur);
    } else {
        let n = word_len(rest);
        assert(n == 1 + word_len(r1));
        assert(rest.take(n as int) =~= seq![rest[0]] + r1.take(word_len(r1) as int));
        assert(rest.skip(n as int) =~= r1.skip(word_len(r1) as int));
        if cur.len() == 0 {
            assert(seq![rest[0]] + r1.take(word_len(r1) as int) =~= cur.push(rest[0]) + r1.take(
                word_len(r1) as int,
            ));
        } else {
            assert(cur + rest.take(n as int) =~= cur.push(rest[0]) + r1.take(
                word_len(r1) as int,
            ));
        }
    }
}

/// `str::split_whitespace`, collected into owned strings.
pub fn split_whitespace(s: &str) -> (r: Vec<String>)
    ensures
        views(r@) == ws_tokens(s@),
{
    let cs = chars_of(s);
    let mut out: Vec<String> = Vec::new();
    let mut cur: String = String::new();
    let mut i: usize = 0;
    assert(cs@.skip(0) =~= cs@);
    while i < cs.len()
        invariant
            cs@ == s@,
            i <= cs.len(),
            ws_tokens(s@) == views(out@) + pending(cur@, cs@.skip(i as int)),
        decreases cs.len() - i,
    {
        let c = cs[i];
        let ghost rest = cs@.skip(i as int);
        proof {
            lemma_pending_step(cur@, rest);
            assert(rest.drop_first() =~= cs@.skip(i + 1));
        }
        if is_whitespace_char(c) {
            if !cur.as_str().is_empty() {
                let ghost old_out = out@;
                let ghost old_cur = cur@;
                let mut done = String::new();
                std::mem::swap(&mut done, &mut cur);
                out.push(done);
                assert(views(out@) =~= views(old_out) + seq![old_cur]);
            }
        } else {
            push_char(&mut cur, c);
        }
        i = i + 1;
    }
    proof {
        assert(cs@.skip(i as int) =~= Seq::<char>::empty());
    }
    if !cur.as_str().is_empty() {
        let ghost old_out = out@;
        let ghost old_cur = cur@;
        out.push(cur);
        assert(Seq::<char>::empty().take(0) =~= Seq::<char>::empty());
        assert(old_cur + Seq::<char>::empty() =~= old_cur);
        assert(views(out@) =~= views(old_out) + seq![old_cur]);
    }
    out
}

proof fn lemma_nat_digits_len(n: nat)
    ensures
        nat_digits(n).len() >= 1,
    decreases n,
{
    if n >= 10 {
        lemma_nat_digits_len(n / 10);
    }
}

/// The decimal rendering of a signed integer (`format!("{n}")`).
pub fn decimal_string(n: i64) -> (r: String)
    ensures
        r@ == decimal(n as int),
{
    let neg = n < 0;
    let mag: u64 = if neg {
        (0i128 - n as i128) as u64
    } else {
        n as u64
    };
    // Collect digits least significant first.
    let mut rev: Vec<char> = Vec::new();
    let mut q: u64 = mag;
    let ghost mut suffix: Seq<char> = Seq::empty();
    loop
        invariant_except_break
            nat_digits(mag as nat) == nat_digits(q as nat) + suffix,
        invariant
            rev@.len() == suffix.len(),
            forall|k: int| 0 <= k < suffix.len() ==> rev@[k] == suffix[suffix.len() - 1 - k],
        ensures
            nat_digits(mag as nat) == suffix,
        decreases q,
    {
        let d = q % 10;
        let c = char_from_ascii((48 + d) as u8);
        proof {
            assert(c == digit_char(d as nat));
        }
        if q < 10 {
            let ghost old_suffix = suffix;
            rev.push(c);
            proof {
                assert(nat_digits(q as nat) == seq![digit_char(q as nat)]);
                suffix = seq![c] + old_suffix;
                assert(nat_digits(mag as nat) =~= suffix);
            }
            break ;
        }
        let ghost old_suffix = suffix;
        rev.push(c);
        proof {
            assert(nat_digits(q as nat) == nat_digits((q / 10) as nat).push(
                digit_char((q % 10) as nat),
            ));
            suffix = seq![c] + old_suffix;
            assert(nat_digits(q as nat) + old_suffix =~= nat_digits((q / 10) as nat) + suffix);
        }
        q = q / 10;
    }
    let mut r = String::new();
    if neg {
        push_char(&mut r, '-');
    }
    let ghost start = r@;
    let mut j: usize = rev.len();
    while j > 0
        invariant
            j <= rev@.len(),
            rev@.len() == suffix.len(),
            forall|k: int| 0 <= k < suffix.len() ==> rev@[k] == suffix[suffix.len() - 1 - k],
            r@ == start + suffix.take(suffix.len() - j),
        decreases j,
    {
        j = j - 1;
        let ghost before = r@;
        push_char(&mut r, rev[j]);
        assert(suffix.take(suffix.len() - j) =~= suffix.take(suffix.len() - (j + 1)).push(
            suffix[suffix.len() - 1 - j],
        ));
    }
    assert(suffix.take(suffix.len() as int) =~= suffix);
    proof {
        if neg {
            assert(start =~= seq!['-']);
            assert(mag as int == -(n as int));
        } else {
            assert(start =~= Seq::<char>::empty());
            assert(r@ =~= suffix);
        }
    }
    r
}

} // verus!
