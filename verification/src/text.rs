//! Character-level utilities shared by the path, URL and front-matter
//! logic: conversions between `&str` and `Vec<char>`, lexicographic
//! comparison, and whitespace trimming.

use crate::value::{lex_lt, tokens_view};
use vstd::prelude::*;

verus! {

broadcast use vstd::utf8::char_is_scalar, vstd::utf8::char_u32_cast;

/// The Unicode `White_Space` characters: what `str::trim` removes.
pub open spec fn is_whitespace_char(c: char) -> bool {
    c == ' ' || c == '\t' || c == '\n' || c == '\r' || c == '\u{0b}' || c == '\u{0c}' || c
        == '\u{85}' || c == '\u{a0}' || c == '\u{1680}' || ('\u{2000}' <= c && c <= '\u{200a}') || c
        == '\u{2028}' || c == '\u{2029}' || c == '\u{202f}' || c == '\u{205f}' || c == '\u{3000}'
}

/// Whether two string slices hold the same characters.
pub fn str_eq(a: &str, b: &str) -> (r: bool)
    ensures
        r == (a@ == b@),
{
    let na = a.unicode_len();
    let nb = b.unicode_len();
    if na != nb {
        return false;
    }
    for i in 0..na
        invariant
            na == a@.len(),
            na == b@.len(),
            forall|k: int| 0 <= k < i ==> a@[k] == b@[k],
    {
        if a.get_char(i) != b.get_char(i) {
            return false;
        }
    }
    assert(a@ =~= b@);
    true
}

/// `lex_lt` is unchanged by dropping an equal prefix from both sides.
pub proof fn lemma_lex_skip(a: Seq<char>, b: Seq<char>, i: int)
    requires
        0 <= i <= a.len(),
        i <= b.len(),
        forall|k: int| 0 <= k < i ==> a[k] == b[k],
    ensures
        lex_lt(a, b) == lex_lt(a.skip(i), b.skip(i)),
    decreases i,
{
    if i > 0 {
        assert(a.len() > 0 && b.len() > 0);
        assert(a[0] == b[0]);
        assert(!((a[0] as u32) < (b[0] as u32)));
        lemma_lex_skip(a.skip(1), b.skip(1), i - 1);
        assert(a.skip(1).skip(i - 1) =~= a.skip(i));
        assert(b.skip(1).skip(i - 1) =~= b.skip(i));
    } else {
        assert(a.skip(0) =~= a);
        assert(b.skip(0) =~= b);
    }
}

/// Exactly one of `lex_lt(a, b)`, `a == b`, `lex_lt(b, a)` holds.
pub proof fn lemma_lex_trichotomy(a: Seq<char>, b: Seq<char>)
    ensures
        lex_lt(a, b) ==> a != b && !lex_lt(b, a),
        a == b ==> !lex_lt(a, b) && !lex_lt(b, a),
        !lex_lt(a, b) && !lex_lt(b, a) ==> a == b,
    decreases a.len(),
{
    if a.len() == 0 || b.len() == 0 {
        if a.len() == 0 && b.len() == 0 {
            assert(a =~= b);
        }
    } else {
        if a[0] == b[0] {
            lemma_lex_trichotomy(a.skip(1), b.skip(1));
            if a.skip(1) == b.skip(1) && a[0] == b[0] {
                assert forall|k: int| 0 <= k < a.len() implies a[k] == b[k] by {
                    if k > 0 {
                        assert(a.skip(1)[k - 1] == b.skip(1)[k - 1]);
                    }
                }
                assert(a =~= b);
            }
            if a == b {
                assert(a.skip(1) =~= b.skip(1));
            }
        } else {
            if (a[0] as u32) == (b[0] as u32) {
                vstd::utf8::char_u32_cast(a[0], a[0] as u32);
                vstd::utf8::char_u32_cast(b[0], b[0] as u32);
                assert(false);
            }
        }
    }
}

/// Whether `prefix` is a prefix of `a`.
pub fn chars_prefix(a: &Vec<char>, prefix: &Vec<char>) -> (r: bool)
    ensures
        r == (a@.len() >= prefix@.len() && a@.take(prefix@.len() as int) == prefix@),
{
    let np = prefix.len();
    if a.len() < np {
        return false;
    }
    for i in 0..np
        invariant
            np == prefix@.len(),
            np <= a@.len(),
            forall|k: int| 0 <= k < i ==> a@[k] == prefix@[k],
    {
        if a[i] != prefix[i] {
            proof {
                assert(a@.take(np as int)[i as int] != prefix@[i as int]);
            }
            return false;
        }
    }
    proof {
        assert(a@.take(np as int) =~= prefix@);
    }
    true
}

/// The text with leading and trailing whitespace dropped.
pub open spec fn trim_spec(s: Seq<char>) -> Seq<char>
    decreases s.len(),
{
    if s.len() > 0 && is_whitespace_char(s[0]) {
        trim_spec(s.skip(1))
    } else if s.len() > 0 && is_whitespace_char(s.last()) {
        trim_spec(s.drop_last())
    } else {
        s
    }
}

/// Whether a character is whitespace.
pub fn is_whitespace(c: char) -> (r: bool)
    ensures
        r == is_whitespace_char(c),
{
    c == ' ' || c == '\t' || c == '\n' || c == '\r' || c == '\u{0b}' || c == '\u{0c}' || c
        == '\u{85}' || c == '\u{a0}' || c == '\u{1680}' || ('\u{2000}' <= c && c <= '\u{200a}') || c
        == '\u{2028}' || c == '\u{2029}' || c == '\u{202f}' || c == '\u{205f}' || c == '\u{3000}'
}

/// Trimming a piece framed only by whitespace trims to the same text.
proof fn lemma_trim_frame(s: Seq<char>, a: int, b: int)
    requires
        0 <= a <= b <= s.len(),
        forall|k: int| 0 <= k < a ==> is_whitespace_char(#[trigger] s[k]),
        forall|k: int| b <= k < s.len() ==> is_whitespace_char(#[trigger] s[k]),
        a < b ==> !is_whitespace_char(s[a]),
        a < b ==> !is_whitespace_char(s[b - 1]),
    ensures
        trim_spec(s) == s.subrange(a, b),
    decreases s.len(),
{
    if a == b {
        if s.len() == 0 {
            assert(s.subrange(a, b) =~= s);
        } else {
            assert(is_whitespace_char(s[0]));
            let t = s.skip(1);
            assert(forall|k: int| 0 <= k < t.len() ==> t[k] == s[k + 1]);
            lemma_trim_frame(t, 0, 0);
            assert(t.subrange(0, 0) =~= s.subrange(a, b));
        }
    } else if a > 0 {
        let t = s.skip(1);
        assert(is_whitespace_char(s[0]));
        assert(forall|k: int| 0 <= k < t.len() ==> t[k] == s[k + 1]);
        lemma_trim_frame(t, a - 1, b - 1);
        assert(t.subrange(a - 1, b - 1) =~= s.subrange(a, b));
    } else if b < s.len() {
        let t = s.drop_last();
        assert(!is_whitespace_char(s[0]));
        assert(is_whitespace_char(s.last()));
        assert(forall|k: int| 0 <= k < t.len() ==> t[k] == s[k]);
        lemma_trim_frame(t, a, b);
        assert(t.subrange(a, b) =~= s.subrange(a, b));
    } else {
        assert(!is_whitespace_char(s[0]));
        assert(!is_whitespace_char(s.last()));
        assert(s.subrange(a, b) =~= s);
    }
}

/// The characters of a string slice with leading and trailing
/// whitespace dropped.
#[verifier::loop_isolation(false)]
pub fn trim_chars(s: &Vec<char>) -> (r: Vec<char>)
    ensures
        r@ == trim_spec(s@),
{
    let n = s.len();
    let mut a: usize = 0;
    while a < n && is_whitespace(s[a])
        invariant
            0 <= a <= n,
            n == s@.len(),
            forall|k: int| 0 <= k < a ==> is_whitespace_char(#[trigger] s@[k]),
        decreases n - a,
    {
        a += 1;
    }
    if a == n {
        proof {
            lemma_trim_frame(s@, n as int, n as int);
        }
        let r: Vec<char> = Vec::new();
        proof {
            assert(r@ =~= s@.subrange(n as int, n as int));
        }
        return r;
    }
    let mut b: usize = n;
    while b > a + 1 && is_whitespace(s[b - 1])
        invariant
            a < b <= n,
            n == s@.len(),
            forall|k: int| b <= k < n ==> is_whitespace_char(#[trigger] s@[k]),
        decreases b,
    {
        b -= 1;
    }
    if is_whitespace(s[b - 1]) {
        // only possible when b == a + 1, i.e. everything else was space;
        // but s[a] is not whitespace, so this cannot happen
        proof {
            assert(b - 1 == a as int);
            assert(false);
        }
    }
    proof {
        lemma_trim_frame(s@, a as int, b as int);
    }
    let r = vstd::slice::slice_to_vec(vstd::slice::slice_subrange(s.as_slice(), a, b));
    proof {
        assert(r@ =~= s@.subrange(a as int, b as int));
    }
    r
}

/// The pieces of `s` between occurrences of `sep`: one piece more than
/// there are separators, in order, separators dropped.
pub open spec fn split_on(s: Seq<char>, sep: char) -> Seq<Seq<char>>
    decreases s.len(),
{
    if s.len() == 0 {
        seq![s]
    } else if s.last() == sep {
        split_on(s.drop_last(), sep).push(Seq::empty())
    } else {
        let r = split_on(s.drop_last(), sep);
        r.update(r.len() - 1, r.last().push(s.last()))
    }
}


/// Splits the characters after the first into pieces at each `sep`.
#[verifier::loop_isolation(false)]
pub(crate) fn split_chars_from(s: &Vec<char>, start: usize, sep: char) -> (r: Vec<Vec<char>>)
    requires
        start <= s@.len(),
    ensures
        tokens_view(r@) == split_on(s@.skip(start as int), sep),
{
    let ghost tail = s@.skip(start as int);
    let n = s.len();
    let mut r: Vec<Vec<char>> = Vec::new();
    r.push(Vec::new());
    proof {
        assert(tail.take(0) =~= Seq::<char>::empty());
        assert(tokens_view(r@) =~= split_on(tail.take(0), sep));
    }
    for i in start..n
        invariant
            r@.len() >= 1,
            tokens_view(r@) == split_on(tail.take(i - start), sep),
        decreases n - i,
    {
        let ghost pre = tail.take(i - start);
        let ghost cur = tail.take(i + 1 - start);
        proof {
            assert(cur.drop_last() =~= pre);
            assert(cur.last() == s@[i as int]);
        }
        if s[i] == sep {
            r.push(Vec::new());
            proof {
                assert(tokens_view(r@) =~= split_on(pre, sep).push(Seq::empty()));
            }
        } else {
            let c = s[i];
            let mut last = r.pop().unwrap();
            last.push(c);
            r.push(last);
            proof {
                let sp = split_on(pre, sep);
                assert(tokens_view(r@) =~= sp.update(sp.len() - 1, sp.last().push(c)));
            }
        }
    }
    proof {
        assert(tail.take(n - start) =~= tail);
    }
    r
}

/// The character of one decimal digit.
pub open spec fn digit_char(d: int) -> char {
    ((48 + d) as u32) as char
}

/// The decimal text of a number, most significant digit first.
pub open spec fn u64_dec(n: int) -> Seq<char>
    decreases n,
{
    if n < 10 {
        seq![digit_char(n)]
    } else {
        u64_dec(n / 10).push(digit_char(n % 10))
    }
}

/// The decimal text of a count.
pub fn u64_string(n: u64) -> (r: String)
    ensures
        r@ == u64_dec(n as int),
    decreases n,
{
    let d = (n % 10) as u8;
    let c = (48 + d) as char;
    proof {
        assert(c == digit_char(n as int % 10));
    }
    if n < 10 {
        let mut s = String::new();
        push_char(&mut s, c);
        proof {
            assert(s@ =~= seq![digit_char(n as int)]);
        }
        s
    } else {
        let mut s = u64_string(n / 10);
        push_char(&mut s, c);
        s
    }
}

/// The first index at or after `start` holding `c`; the length when
/// there is none.
pub open spec fn first_from(s: Seq<char>, c: char, start: int) -> int
    decreases s.len() - start,
{
    if start < 0 || start >= s.len() {
        s.len() as int
    } else if s[start] == c {
        start
    } else {
        first_from(s, c, start + 1)
    }
}

/// A stretch without `c`, ended by `c` or the end, is what `first_from`
/// finds.
pub proof fn lemma_first_from_at(s: Seq<char>, c: char, start: int, at: int)
    requires
        0 <= start <= at <= s.len(),
        forall|k: int| start <= k < at ==> s[k] != c,
        at < s.len() ==> s[at] == c,
    ensures
        first_from(s, c, start) == at,
    decreases at - start,
{
    if start < at {
        lemma_first_from_at(s, c, start + 1, at);
    }
}

/// The index of the first `c` at or after `start`, or the length.
#[verifier::loop_isolation(false)]
pub fn find_char_from(s: &Vec<char>, start: usize, c: char) -> (r: usize)
    requires
        start <= s@.len(),
    ensures
        r == first_from(s@, c, start as int),
        start <= r <= s@.len(),
        r < s@.len() ==> s@[r as int] == c,
        forall|k: int| start <= k < r ==> s@[k] != c,
{
    let n = s.len();
    let mut i = start;
    while i < n
        invariant
            start <= i <= n,
            n == s@.len(),
            forall|k: int| start <= k < i ==> s@[k] != c,
        decreases n - i,
    {
        if s[i] == c {
            proof {
                lemma_first_from_at(s@, c, start as int, i as int);
            }
            return i;
        }
        i += 1;
    }
    proof {
        lemma_first_from_at(s@, c, start as int, n as int);
    }
    n
}

/// `lex_lt` is transitive.
pub proof fn lemma_lex_trans(a: Seq<char>, b: Seq<char>, c: Seq<char>)
    requires
        lex_lt(a, b),
        lex_lt(b, c),
    ensures
        lex_lt(a, c),
    decreases a.len(),
{
    if a.len() == 0 || b.len() == 0 || c.len() == 0 {
    } else {
        if a[0] == b[0] && b[0] == c[0] {
            lemma_lex_trans(a.skip(1), b.skip(1), c.skip(1));
        }
    }
}

/// Lexicographic strict comparison of two string slices.
pub fn str_lt(a: &str, b: &str) -> (r: bool)
    ensures
        r == lex_lt(a@, b@),
{
    let na = a.unicode_len();
    let nb = b.unicode_len();
    let n = if na < nb {
        na
    } else {
        nb
    };
    for i in 0..n
        invariant
            na == a@.len(),
            nb == b@.len(),
            n == if na < nb {
                na
            } else {
                nb
            },
            forall|k: int| 0 <= k < i ==> a@[k] == b@[k],
    {
        let ca = a.get_char(i);
        let cb = b.get_char(i);
        if ca != cb {
            proof {
                lemma_lex_skip(a@, b@, i as int);
            }
            return (ca as u32) < (cb as u32);
        }
    }
    proof {
        lemma_lex_skip(a@, b@, n as int);
    }
    na < nb
}

/// Relies on `alloc::string::String::push`: appends one character.
#[verifier::external_body]
pub fn push_char(s: &mut String, c: char)
    ensures
        final(s)@ == old(s)@.push(c),
{
    s.push(c)
}

/// The characters of a string slice, as a vector.
pub fn str_chars(s: &str) -> (r: Vec<char>)
    ensures
        r@ == s@,
{
    let n = s.unicode_len();
    let mut r: Vec<char> = Vec::new();
    for i in 0..n
        invariant
            n == s@.len(),
            r@ == s@.subrange(0, i as int),
    {
        r.push(s.get_char(i));
    }
    assert(r@ == s@.subrange(0, n as int));
    assert(s@.subrange(0, n as int) == s@);
    r
}

/// A string made of the given characters.
pub fn chars_string(v: &[char]) -> (r: String)
    ensures
        r@ == v@,
{
    let mut r = String::new();
    let n = v.len();
    for i in 0..n
        invariant
            n == v@.len(),
            r@ == v@.subrange(0, i as int),
    {
        let mut tmp = r;
        push_char(&mut tmp, v[i]);
        r = tmp;
        assert(r@ == v@.subrange(0, i + 1));
    }
    assert(v@.subrange(0, n as int) == v@);
    r
}

} // verus!
