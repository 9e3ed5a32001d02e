//! The JSON-like value model that the content tree, front matter, rule
//! configuration and render contexts are made of.
//!
//! An object keeps its entries sorted by key (strictly ascending, no
//! duplicate keys), mirroring a map with deterministic iteration order.
//! A number is kept as its canonical decimal text.

use crate::text::{split_on, split_chars_from};
use vstd::prelude::*;

verus! {

broadcast use vstd::std_specs::vec::group_vec_axioms;

/// Mathematical model of a [`Json`].
#[verifier::ext_equal]
pub ghost enum ValView {
    Null,
    Bool(bool),
    Num(Seq<char>),
    Str(Seq<char>),
    Arr(Seq<ValView>),
    Obj(Seq<(Seq<char>, ValView)>),
}

/// A JSON-like value: the unit of content, front matter and configuration.
pub enum Json {
    Null,
    Bool(bool),
    Num(String),
    Str(String),
    Arr(Vec<Json>),
    Obj(Vec<(String, Json)>),
}

impl View for Json {
    type V = ValView;

    open spec fn view(&self) -> ValView
        decreases self,
    {
        match self {
            Json::Null => ValView::Null,
            Json::Bool(b) => ValView::Bool(*b),
            Json::Num(s) => ValView::Num(s@),
            Json::Str(s) => ValView::Str(s@),
            Json::Arr(items) => ValView::Arr(arr_view(items@)),
            Json::Obj(pairs) => ValView::Obj(pairs_view(pairs@)),
        }
    }
}

/// The views of the elements of an array.
pub open spec fn arr_view(items: Seq<Json>) -> Seq<ValView>
    decreases items,
{
    Seq::new(
        items.len(),
        |i: int|
            if 0 <= i < items.len() {
                items[i]@
            } else {
                ValView::Null
            },
    )
}

/// The views of the entries of an object.
pub open spec fn pairs_view(pairs: Seq<(String, Json)>) -> Seq<(Seq<char>, ValView)>
    decreases pairs,
{
    Seq::new(
        pairs.len(),
        |i: int|
            if 0 <= i < pairs.len() {
                (pairs[i].0@, pairs[i].1@)
            } else {
                (Seq::empty(), ValView::Null)
            },
    )
}

/// Strict lexicographic order on character sequences; on UTF-8 text this
/// agrees with the byte-wise order of the encoded strings.
pub open spec fn lex_lt(a: Seq<char>, b: Seq<char>) -> bool
    decreases a.len(),
{
    if b.len() == 0 {
        false
    } else if a.len() == 0 {
        true
    } else if (a[0] as u32) < (b[0] as u32) {
        true
    } else if a[0] == b[0] {
        lex_lt(a.skip(1), b.skip(1))
    } else {
        false
    }
}

/// The keys of an object's entries are strictly ascending.
pub open spec fn obj_sorted(pairs: Seq<(Seq<char>, ValView)>) -> bool {
    forall|i: int, j: int|
        0 <= i < j < pairs.len() ==> lex_lt(pairs[i].0, pairs[j].0)
}

/// Every object in the value keeps its entries sorted by key.
pub open spec fn wf_value(v: ValView) -> bool
    decreases v,
{
    match v {
        ValView::Arr(items) => forall|i: int|
            0 <= i < items.len() ==> wf_value(#[trigger] items[i]),
        ValView::Obj(pairs) => obj_sorted(pairs) && forall|i: int|
            0 <= i < pairs.len() ==> wf_value(#[trigger] pairs[i].1),
        _ => true,
    }
}

/// The value of the first entry carrying the given key, if any.
pub open spec fn obj_lookup(pairs: Seq<(Seq<char>, ValView)>, key: Seq<char>) -> Option<ValView>
    decreases pairs.len(),
{
    if pairs.len() == 0 {
        None
    } else if pairs[0].0 == key {
        Some(pairs[0].1)
    } else {
        obj_lookup(pairs.skip(1), key)
    }
}

impl Json {
    /// The entries of an object value, `None` for any other variant.
    pub fn as_object(&self) -> (r: Option<&Vec<(String, Json)>>)
        ensures
            match r {
                Some(pairs) => self@ == ValView::Obj(pairs_view(pairs@)),
                None => !(self@ is Obj),
            },
    {
        match self {
            Json::Obj(pairs) => Some(pairs),
            _ => None,
        }
    }

    /// The text of a string value, `None` for any other variant.
    pub fn as_str(&self) -> (r: Option<&String>)
        ensures
            match r {
                Some(s) => self@ == ValView::Str(s@),
                None => !(self@ is Str),
            },
    {
        match self {
            Json::Str(s) => Some(s),
            _ => None,
        }
    }

    /// Whether the value is an object.
    pub fn is_object(&self) -> (r: bool)
        ensures
            r == (self@ is Obj),
    {
        match self {
            Json::Obj(_) => true,
            _ => false,
        }
    }

    /// The value of the entry of this object carrying the given key;
    /// `None` if there is none or this is not an object.
    pub fn get<'a>(&'a self, key: &str) -> (r: Option<&'a Json>)
        ensures
            match r {
                Some(v) => self@ is Obj && obj_lookup(self@->Obj_0, key@) == Some(v@),
                None => !(self@ is Obj) || obj_lookup(self@->Obj_0, key@) is None,
            },
    {
        match self {
            Json::Obj(pairs) => obj_get(pairs, key),
            _ => None,
        }
    }

    /// A value with the same view.
    #[verifier::loop_isolation(false)]
    pub fn deep_clone(&self) -> (r: Json)
        ensures
            r@ == self@,
        decreases self,
    {
        match self {
            Json::Null => Json::Null,
            Json::Bool(b) => Json::Bool(*b),
            Json::Num(s) => Json::Num(s.clone()),
            Json::Str(s) => Json::Str(s.clone()),
            Json::Arr(items) => {
                let mut r: Vec<Json> = Vec::new();
                let n = items.len();
                for i in 0..n
                    invariant
                        n == items@.len(),
                        r@.len() == i,
                        forall|k: int| 0 <= k < i ==> r@[k]@ == items@[k]@,
                {
                    r.push(items[i].deep_clone());
                }
                proof {
                    assert(arr_view(r@) =~= arr_view(items@));
                }
                Json::Arr(r)
            },
            Json::Obj(pairs) => {
                let mut r: Vec<(String, Json)> = Vec::new();
                let n = pairs.len();
                for i in 0..n
                    invariant
                        n == pairs@.len(),
                        r@.len() == i,
                        forall|k: int|
                            0 <= k < i ==> r@[k].0@ == pairs@[k].0@ && r@[k].1@ == pairs@[k].1@,
                {
                    let key = pairs[i].0.clone();
                    let val = pairs[i].1.deep_clone();
                    r.push((key, val));
                }
                proof {
                    assert(pairs_view(r@) =~= pairs_view(pairs@));
                }
                Json::Obj(r)
            },
        }
    }
}

/// Entries with the same views, cloned.
#[verifier::loop_isolation(false)]
pub fn clone_pairs(pairs: &Vec<(String, Json)>) -> (r: Vec<(String, Json)>)
    ensures
        pairs_view(r@) == pairs_view(pairs@),
{
    let mut r: Vec<(String, Json)> = Vec::new();
    let n = pairs.len();
    for i in 0..n
        invariant
            n == pairs@.len(),
            r@.len() == i,
            forall|k: int| 0 <= k < i ==> r@[k].0@ == pairs@[k].0@ && r@[k].1@ == pairs@[k].1@,
    {
        let key = pairs[i].0.clone();
        let val = pairs[i].1.deep_clone();
        r.push((key, val));
    }
    proof {
        assert(pairs_view(r@) =~= pairs_view(pairs@));
    }
    r
}

/// The value of the first entry carrying the given key, if any.
#[verifier::loop_isolation(false)]
pub fn obj_get<'a>(pairs: &'a Vec<(String, Json)>, key: &str) -> (r: Option<&'a Json>)
    ensures
        match r {
            Some(v) => obj_lookup(pairs_view(pairs@), key@) == Some(v@),
            None => obj_lookup(pairs_view(pairs@), key@) is None,
        },
{
    let n = pairs.len();
    proof {
        assert(pairs_view(pairs@).skip(0) =~= pairs_view(pairs@));
    }
    for i in 0..n
        invariant
            n == pairs@.len(),
            obj_lookup(pairs_view(pairs@), key@) == obj_lookup(
                pairs_view(pairs@).skip(i as int),
                key@,
            ),
            forall|k: int| 0 <= k < i ==> pairs@[k].0@ != key@,
    {
        if crate::text::str_eq(pairs[i].0.as_str(), key) {
            return Some(&pairs[i].1);
        }
        proof {
            assert(pairs_view(pairs@).skip(i as int).skip(1) =~= pairs_view(pairs@).skip(
                i + 1,
            ));
        }
    }
    proof {
        assert(pairs_view(pairs@).skip(n as int) =~= Seq::empty());
    }
    None
}

/// Entries with the given entry set at its key: the old entry at that key
/// is replaced, a new key is inserted before the first greater key.
pub open spec fn obj_insert_spec(
    pairs: Seq<(Seq<char>, ValView)>,
    key: Seq<char>,
    v: ValView,
) -> Seq<(Seq<char>, ValView)>
    decreases pairs.len(),
{
    if pairs.len() == 0 {
        seq![(key, v)]
    } else if lex_lt(key, pairs[0].0) {
        seq![(key, v)] + pairs
    } else if pairs[0].0 == key {
        seq![(key, v)] + pairs.skip(1)
    } else {
        seq![pairs[0]] + obj_insert_spec(pairs.skip(1), key, v)
    }
}

/// What `obj_insert_spec` yields at the position of the first key
/// that is not below the inserted one.
pub proof fn lemma_obj_insert_at(
    pairs: Seq<(Seq<char>, ValView)>,
    key: Seq<char>,
    v: ValView,
    i: int,
)
    requires
        0 <= i <= pairs.len(),
        forall|k: int| 0 <= k < i ==> lex_lt(#[trigger] pairs[k].0, key),
        i < pairs.len() ==> !lex_lt(pairs[i].0, key),
    ensures
        i < pairs.len() && pairs[i].0 == key ==> obj_insert_spec(pairs, key, v) =~= pairs.take(i)
            + seq![(key, v)] + pairs.skip(i + 1),
        !(i < pairs.len() && pairs[i].0 == key) ==> obj_insert_spec(pairs, key, v) =~= pairs.take(i)
            + seq![(key, v)] + pairs.skip(i),
    decreases i,
{
    crate::text::lemma_lex_trichotomy(key, if pairs.len() > 0 {
        pairs[0].0
    } else {
        key
    });
    if i == 0 {
        if pairs.len() == 0 {
            assert(obj_insert_spec(pairs, key, v) =~= seq![(key, v)]);
            assert(pairs.take(0) + seq![(key, v)] + pairs.skip(0) =~= seq![(key, v)]);
        } else if pairs[0].0 == key {
            assert(obj_insert_spec(pairs, key, v) =~= pairs.take(0) + seq![(key, v)] + pairs.skip(
                1,
            ));
        } else {
            assert(lex_lt(key, pairs[0].0));
            assert(obj_insert_spec(pairs, key, v) =~= pairs.take(0) + seq![(key, v)] + pairs.skip(
                0,
            ));
        }
    } else {
        assert(lex_lt(pairs[0].0, key));
        assert(pairs[0].0 != key && !lex_lt(key, pairs[0].0));
        let rest = pairs.skip(1);
        assert(forall|k: int| 0 <= k < i - 1 ==> lex_lt(#[trigger] rest[k].0, key));
        lemma_obj_insert_at(rest, key, v, i - 1);
        if i < pairs.len() && pairs[i].0 == key {
            assert(rest[i - 1].0 == key);
            assert(seq![pairs[0]] + (rest.take(i - 1) + seq![(key, v)] + rest.skip(i))
                =~= pairs.take(i) + seq![(key, v)] + pairs.skip(i + 1));
        } else {
            assert(seq![pairs[0]] + (rest.take(i - 1) + seq![(key, v)] + rest.skip(i - 1))
                =~= pairs.take(i) + seq![(key, v)] + pairs.skip(i));
        }
    }
}

/// After setting a key, looking it up yields the new value; every other
/// key is looked up as before.
#[verifier::rlimit(50)]
pub proof fn lemma_obj_insert_lookup(
    pairs: Seq<(Seq<char>, ValView)>,
    key: Seq<char>,
    v: ValView,
    probe: Seq<char>,
)
    ensures
        obj_lookup(obj_insert_spec(pairs, key, v), key) == Some(v),
        probe != key ==> obj_lookup(obj_insert_spec(pairs, key, v), probe) == obj_lookup(
            pairs,
            probe,
        ),
    decreases pairs.len(),
{
    let ins = obj_insert_spec(pairs, key, v);
    if pairs.len() == 0 {
        assert(ins[0] == (key, v));
        assert(ins.skip(1) =~= pairs);
        assert(probe != key ==> obj_lookup(ins, probe) == obj_lookup(pairs, probe));
    } else if lex_lt(key, pairs[0].0) {
        crate::text::lemma_lex_trichotomy(key, pairs[0].0);
        assert(ins[0] == (key, v));
        assert(ins.skip(1) =~= pairs);
        assert(probe != key ==> obj_lookup(ins, probe) == obj_lookup(pairs, probe));
    } else if pairs[0].0 == key {
        assert(ins[0] == (key, v));
        assert(ins.skip(1) =~= pairs.skip(1));
        assert(probe != key ==> obj_lookup(ins, probe) == obj_lookup(pairs, probe));
    } else {
        crate::text::lemma_lex_trichotomy(key, pairs[0].0);
        assert(pairs[0].0 != key);
        lemma_obj_insert_lookup(pairs.skip(1), key, v, probe);
        assert(ins[0] == pairs[0]);
        assert(ins.skip(1) =~= obj_insert_spec(pairs.skip(1), key, v));
        assert(probe != key ==> obj_lookup(ins, probe) == obj_lookup(pairs, probe));
    }
}

/// Setting a key keeps the entries sorted.
pub proof fn lemma_obj_insert_sorted(pairs: Seq<(Seq<char>, ValView)>, key: Seq<char>, v: ValView)
    requires
        obj_sorted(pairs),
    ensures
        obj_sorted(obj_insert_spec(pairs, key, v)),
    decreases pairs.len(),
{
    let ins = obj_insert_spec(pairs, key, v);
    if pairs.len() == 0 {
    } else if lex_lt(key, pairs[0].0) {
        assert forall|i: int, j: int| 0 <= i < j < ins.len() implies lex_lt(
            ins[i].0,
            ins[j].0,
        ) by {
            if i == 0 && j > 1 {
                crate::text::lemma_lex_trans(key, pairs[0].0, pairs[j - 1].0);
            }
        }
    } else if pairs[0].0 == key {
        assert forall|i: int, j: int| 0 <= i < j < ins.len() implies lex_lt(
            ins[i].0,
            ins[j].0,
        ) by {
            if i == 0 {
                assert(ins[j] == pairs[j]);
            } else {
                assert(ins[i] == pairs[i] && ins[j] == pairs[j]);
            }
        }
    } else {
        crate::text::lemma_lex_trichotomy(key, pairs[0].0);
        assert(lex_lt(pairs[0].0, key));
        let rest = pairs.skip(1);
        assert forall|i: int, j: int| 0 <= i < j < rest.len() implies lex_lt(
            rest[i].0,
            rest[j].0,
        ) by {
            assert(rest[i] == pairs[i + 1]);
            assert(rest[j] == pairs[j + 1]);
            assert(lex_lt(pairs[i + 1].0, pairs[j + 1].0));
        }
        assert(obj_sorted(rest));
        lemma_obj_insert_sorted(rest, key, v);
        let tail = obj_insert_spec(rest, key, v);
        assert forall|j: int| 0 <= j < tail.len() implies lex_lt(pairs[0].0, tail[j].0) by {
            lemma_obj_insert_head_bound(rest, key, v, pairs[0].0, j);
        }
        assert forall|i: int, j: int| 0 <= i < j < ins.len() implies lex_lt(
            ins[i].0,
            ins[j].0,
        ) by {
            if i == 0 {
                assert(ins[j] == tail[j - 1]);
            } else {
                assert(ins[i] == tail[i - 1] && ins[j] == tail[j - 1]);
            }
        }
    }
}

/// A lower bound below the inserted key and every entry stays a lower
/// bound after the insertion.
pub proof fn lemma_obj_insert_head_bound(
    pairs: Seq<(Seq<char>, ValView)>,
    key: Seq<char>,
    v: ValView,
    lo: Seq<char>,
    j: int,
)
    requires
        lex_lt(lo, key),
        forall|k: int| 0 <= k < pairs.len() ==> lex_lt(lo, #[trigger] pairs[k].0),
        0 <= j < obj_insert_spec(pairs, key, v).len(),
    ensures
        lex_lt(lo, obj_insert_spec(pairs, key, v)[j].0),
    decreases pairs.len(),
{
    let ins = obj_insert_spec(pairs, key, v);
    if pairs.len() == 0 {
    } else if lex_lt(key, pairs[0].0) {
        if j > 0 {
            assert(ins[j] == pairs[j - 1]);
        }
    } else if pairs[0].0 == key {
        if j > 0 {
            assert(ins[j] == pairs.skip(1)[j - 1]);
            assert(pairs.skip(1)[j - 1] == pairs[j]);
        }
    } else {
        if j > 0 {
            let rest = pairs.skip(1);
            assert(forall|k: int| 0 <= k < rest.len() ==> lex_lt(lo, #[trigger] rest[k].0))
                by {
                assert(forall|k: int| 0 <= k < rest.len() ==> rest[k] == pairs[k + 1]);
            }
            lemma_obj_insert_head_bound(rest, key, v, lo, j - 1);
            assert(ins[j] == obj_insert_spec(rest, key, v)[j - 1]);
        }
    }
}

/// Sets the entry of the object's entry list at the given key, keeping
/// the entries sorted when they were sorted.
#[verifier::loop_isolation(false)]
pub fn obj_insert(pairs: &mut Vec<(String, Json)>, key: String, v: Json)
    ensures
        pairs_view(final(pairs)@) == obj_insert_spec(pairs_view(old(pairs)@), key@, v@),
{
    let ghost orig = pairs_view(old(pairs)@);
    let n = pairs.len();
    let mut i: usize = 0;
    loop
        invariant
            0 <= i <= n,
            n == pairs@.len(),
            *pairs == *old(pairs),
            forall|k: int| 0 <= k < i ==> lex_lt(#[trigger] orig[k].0, key@),
        decreases n - i,
    {
        if i >= n {
            break ;
        }
        if !crate::text::str_lt(pairs[i].0.as_str(), key.as_str()) {
            break ;
        }
        assert(orig[i as int].0 == pairs@[i as int].0@);
        i += 1;
    }
    proof {
        lemma_obj_insert_at(orig, key@, v@, i as int);
    }
    if i < n && crate::text::str_eq(pairs[i].0.as_str(), key.as_str()) {
        pairs.remove(i);
        pairs.insert(i, (key, v));
        proof {
            assert(pairs_view(pairs@) =~= orig.take(i as int) + seq![(key@, v@)] + orig.skip(
                i as int + 1,
            ));
        }
    } else {
        pairs.insert(i, (key, v));
        proof {
            assert(pairs_view(pairs@) =~= orig.take(i as int) + seq![(key@, v@)] + orig.skip(
                i as int,
            ));
        }
    }
}

/// Whether the decimal text of a number has a nonzero digit in its
/// mantissa (before any exponent marker): the text does not spell zero.
pub open spec fn num_text_nonzero(t: Seq<char>) -> bool {
    exists|i: int|
        0 <= i < t.len() && '1' <= #[trigger] t[i] && t[i] <= '9' && (forall|j: int|
            0 <= j < i ==> t[j] != 'e' && t[j] != 'E')
}

/// How a value counts when a template block asks whether to render:
/// null, empty text and empty containers do not; a number spelling zero
/// counts only when `include_zero` is set.
pub open spec fn truthy_view(v: ValView, include_zero: bool) -> bool {
    match v {
        ValView::Null => false,
        ValView::Bool(b) => b,
        ValView::Num(t) => include_zero || num_text_nonzero(t),
        ValView::Str(s) => s.len() > 0,
        ValView::Arr(items) => items.len() > 0,
        ValView::Obj(pairs) => pairs.len() > 0,
    }
}

/// Whether the decimal text of a number has a nonzero mantissa digit.
#[verifier::loop_isolation(false)]
pub fn num_text_truthy(t: &str) -> (r: bool)
    ensures
        r == num_text_nonzero(t@),
{
    let cs = crate::text::str_chars(t);
    let n = cs.len();
    for i in 0..n
        invariant
            n == t@.len(),
            cs@ == t@,
            forall|k: int| 0 <= k < i ==> !('1' <= #[trigger] t@[k] && t@[k] <= '9'),
            forall|k: int| 0 <= k < i ==> t@[k] != 'e' && t@[k] != 'E',
    {
        let c = cs[i];
        let cv = c as u32;
        proof {
            vstd::utf8::char_u32_cast(c, cv);
        }
        if cv == 'e' as u32 || cv == 'E' as u32 {
            proof {
                assert forall|w: int|
                    0 <= w < t@.len() && '1' <= #[trigger] t@[w] && t@[w] <= '9' implies !(
                forall|j: int| 0 <= j < w ==> t@[j] != 'e' && t@[j] != 'E') by {
                    assert(w > i);
                    assert(t@[i as int] == 'e' || t@[i as int] == 'E');
                }
            }
            return false;
        }
        if '1' as u32 <= cv && cv <= '9' as u32 {
            proof {
                assert('1' <= c && c <= '9') by {
                    if c < '1' || c > '9' {
                        assert(cv < ('1' as u32) || cv > ('9' as u32));
                    }
                }
                assert(num_text_nonzero(t@));
            }
            return true;
        }
        proof {
            assert(!('1' <= c && c <= '9'));
            assert(c != 'e' && c != 'E');
        }
    }
    proof {
        assert(!num_text_nonzero(t@));
    }
    false
}

/// Whether a value asks a template block to render.
pub trait JsonTruthy {
    /// What `is_truthy` returns.
    spec fn truthy_spec(&self, include_zero: bool) -> bool;

    /// Whether the value counts as true for a template block.
    fn is_truthy(&self, include_zero: bool) -> (r: bool)
        ensures
            r == self.truthy_spec(include_zero),
    ;
}

impl JsonTruthy for Json {
    open spec fn truthy_spec(&self, include_zero: bool) -> bool {
        truthy_view(self@, include_zero)
    }

    fn is_truthy(&self, include_zero: bool) -> (r: bool) {
        value_truthy(self, include_zero)
    }
}

/// Whether a value counts as true for a template block.
pub fn value_truthy(v: &Json, include_zero: bool) -> (r: bool)
    ensures
        r == truthy_view(v@, include_zero),
{
    match v {
        Json::Null => {
            assert(truthy_view(v@, include_zero) == false);
            false
        },
        Json::Bool(b) => {
            assert(truthy_view(v@, include_zero) == *b);
            *b
        },
        Json::Num(t) => {
            let r = include_zero || num_text_truthy(t.as_str());
            assert(truthy_view(v@, include_zero) == r);
            r
        },
        Json::Str(s) => {
            let r = s.as_str().unicode_len() > 0;
            assert(truthy_view(v@, include_zero) == r);
            r
        },
        Json::Arr(items) => {
            let r = items.len() > 0;
            assert(truthy_view(v@, include_zero) == r);
            r
        },
        Json::Obj(pairs) => {
            let r = pairs.len() > 0;
            assert(pairs_view(pairs@).len() == pairs@.len());
            assert(truthy_view(v@, include_zero) == r);
            r
        },
    }
}

/// `s` with every occurrence of the two characters `a b` replaced by
/// `to`, scanning left to right without overlap.
pub open spec fn replace_pair_spec(s: Seq<char>, a: char, b: char, to: char) -> Seq<char>
    decreases s.len(),
{
    if s.len() < 2 {
        s
    } else if s[0] == a && s[1] == b {
        seq![to] + replace_pair_spec(s.skip(2), a, b, to)
    } else {
        seq![s[0]] + replace_pair_spec(s.skip(1), a, b, to)
    }
}

/// A pointer token with `~1` unescaped to `/`, then `~0` to `~`.
pub open spec fn unescape_token(t: Seq<char>) -> Seq<char> {
    replace_pair_spec(replace_pair_spec(t, '~', '1', '/'), '~', '0', '~')
}

/// Whether every character is a decimal digit.
pub open spec fn digits_only(t: Seq<char>) -> bool {
    forall|i: int| 0 <= i < t.len() ==> '0' <= #[trigger] t[i] && t[i] <= '9'
}

/// The number the decimal digits spell.
pub open spec fn digits_val(t: Seq<char>) -> int
    decreases t.len(),
{
    if t.len() == 0 {
        0
    } else {
        digits_val(t.drop_last()) * 10 + (t.last() as u32 - '0' as u32)
    }
}

/// The array index a pointer token denotes: decimal digits without a
/// sign or a superfluous leading zero, small enough for an index.
pub open spec fn parse_index_spec(t: Seq<char>) -> Option<int> {
    if t.len() == 0 || t[0] == '+' || (t[0] == '0' && t.len() > 1) || !digits_only(t) {
        None
    } else if digits_val(t) > usize::MAX as int {
        None
    } else {
        Some(digits_val(t))
    }
}

/// One pointer step: the child an (unescaped) token selects.
pub open spec fn pointer_step(v: ValView, t: Seq<char>) -> Option<ValView> {
    match v {
        ValView::Obj(pairs) => obj_lookup(pairs, t),
        ValView::Arr(items) => match parse_index_spec(t) {
            Some(i) => if 0 <= i < items.len() {
                Some(items[i])
            } else {
                None
            },
            None => None,
        },
        _ => None,
    }
}

/// The value the (still escaped) pointer tokens lead to.
pub open spec fn pointer_from(v: ValView, tokens: Seq<Seq<char>>) -> Option<ValView>
    decreases tokens.len(),
{
    if tokens.len() == 0 {
        Some(v)
    } else {
        match pointer_step(v, unescape_token(tokens[0])) {
            Some(child) => pointer_from(child, tokens.skip(1)),
            None => None,
        }
    }
}

/// One pointer step on a value.
fn pointer_step_exec<'a>(cur: &'a Json, tok: &Vec<char>) -> (r: Option<&'a Json>)
    ensures
        match r {
            Some(v) => pointer_step(cur@, tok@) == Some(v@),
            None => pointer_step(cur@, tok@) is None,
        },
{
    match cur {
        Json::Obj(pairs) => obj_get_chars(pairs, tok),
        Json::Arr(items) => {
            match parse_index(tok) {
                Some(ix) => {
                    if ix < items.len() {
                        Some(&items[ix])
                    } else {
                        None
                    }
                },
                None => None,
            }
        },
        _ => None,
    }
}

/// The value of the first entry whose key holds the given characters.
fn obj_get_chars<'a>(pairs: &'a Vec<(String, Json)>, key: &Vec<char>) -> (r: Option<&'a Json>)
    ensures
        match r {
            Some(v) => obj_lookup(pairs_view(pairs@), key@) == Some(v@),
            None => obj_lookup(pairs_view(pairs@), key@) is None,
        },
{
    let k = crate::text::chars_string(key.as_slice());
    obj_get(pairs, k.as_str())
}

/// The value a JSON pointer leads to: the empty pointer is the value
/// itself, any other pointer must begin with `/`.
pub open spec fn value_pointer(v: ValView, ptr: Seq<char>) -> Option<ValView> {
    if ptr.len() == 0 {
        Some(v)
    } else if ptr[0] != '/' {
        None
    } else {
        pointer_from(v, split_on(ptr.skip(1), '/'))
    }
}

/// The views of a list of character vectors.
pub open spec fn tokens_view(ts: Seq<Vec<char>>) -> Seq<Seq<char>> {
    Seq::new(
        ts.len(),
        |i: int|
            if 0 <= i < ts.len() {
                ts[i]@
            } else {
                Seq::empty()
            },
    )
}

/// `t` with every occurrence of the two characters `a b` replaced by `to`.
#[verifier::loop_isolation(false)]
fn replace_pair(t: &Vec<char>, a: char, b: char, to: char) -> (r: Vec<char>)
    ensures
        r@ == replace_pair_spec(t@, a, b, to),
{
    let n = t.len();
    let mut r: Vec<char> = Vec::new();
    let mut i: usize = 0;
    proof {
        assert(t@.skip(0) =~= t@);
    }
    while i < n
        invariant
            i <= n,
            replace_pair_spec(t@, a, b, to) == r@ + replace_pair_spec(t@.skip(i as int), a, b, to),
        decreases n - i,
    {
        let ghost rest = t@.skip(i as int);
        if i + 1 < n && t[i] == a && t[i + 1] == b {
            proof {
                assert(rest[0] == a && rest[1] == b);
                assert(rest.skip(2) =~= t@.skip(i + 2));
            }
            r.push(to);
            i += 2;
        } else {
            proof {
                if rest.len() >= 2 {
                    assert(rest[1] == t@[i + 1]);
                }
                assert(rest.skip(1) =~= t@.skip(i + 1));
            }
            r.push(t[i]);
            i += 1;
        }
    }
    proof {
        assert(t@.skip(n as int) =~= Seq::<char>::empty());
        assert(r@ + Seq::<char>::empty() =~= r@);
    }
    r
}

/// The digits read so far never exceed the whole number.
pub proof fn lemma_digits_val_grows(t: Seq<char>, i: int)
    requires
        0 <= i <= t.len(),
        digits_only(t),
    ensures
        digits_val(t) >= digits_val(t.take(i)),
        digits_val(t.take(i)) >= 0,
    decreases t.len() - i,
{
    if i == t.len() {
        assert(t.take(i) =~= t);
        lemma_digits_val_nonneg(t);
    } else {
        lemma_digits_val_grows(t, i + 1);
        lemma_digits_val_nonneg(t.take(i));
        assert(t.take(i + 1).drop_last() =~= t.take(i));
        assert(t.take(i + 1).last() == t[i]);
    }
}

/// A digit string spells a number that is not negative.
proof fn lemma_digits_val_nonneg(t: Seq<char>)
    requires
        digits_only(t),
    ensures
        digits_val(t) >= 0,
    decreases t.len(),
{
    if t.len() > 0 {
        assert(digits_only(t.drop_last())) by {
            assert(forall|k: int| 0 <= k < t.len() - 1 ==> t.drop_last()[k] == t[k]);
        }
        lemma_digits_val_nonneg(t.drop_last());
    }
}

/// Reads a pointer token as an array index.
#[verifier::loop_isolation(false)]
#[verifier::rlimit(50)]
pub fn parse_index(t: &Vec<char>) -> (r: Option<usize>)
    ensures
        match r {
            Some(i) => parse_index_spec(t@) == Some(i as int),
            None => parse_index_spec(t@) is None,
        },
{
    let n = t.len();
    if n == 0 {
        return None;
    }
    if t[0] == '+' || (t[0] == '0' && n > 1) {
        return None;
    }
    let mut acc: usize = 0;
    for i in 0..n
        invariant
            digits_only(t@.take(i as int)),
            acc == digits_val(t@.take(i as int)),
    {
        let c = t[i];
        let cv = c as u32;
        if cv < '0' as u32 || cv > '9' as u32 {
            proof {
                vstd::utf8::char_u32_cast(c, cv);
                if '0' <= c && c <= '9' {
                    assert(('0' as u32) <= cv && cv <= ('9' as u32));
                }
                assert(!digits_only(t@));
            }
            return None;
        }
        proof {
            vstd::utf8::char_u32_cast(c, cv);
            assert('0' <= c && c <= '9') by {
                if c < '0' || c > '9' {
                    assert(cv < ('0' as u32) || cv > ('9' as u32));
                }
            }
            assert(t@.take(i + 1).drop_last() =~= t@.take(i as int));
            assert(t@.take(i + 1).last() == t@[i as int]);
        }
        let d = (cv - '0' as u32) as usize;
        if acc > (usize::MAX - d) / 10 {
            proof {
                assert(acc * 10 + d > usize::MAX) by (nonlinear_arith)
                    requires
                        acc > (usize::MAX - d) / 10,
                        d <= 9,
                ;
                if digits_only(t@) {
                    lemma_digits_val_grows(t@, i + 1);
                    assert(digits_val(t@.take(i + 1)) == acc * 10 + d);
                }
            }
            return None;
        }
        assert(acc * 10 + d <= usize::MAX) by (nonlinear_arith)
            requires
                acc <= (usize::MAX - d) / 10,
                d <= 9,
        ;
        acc = acc * 10 + d;
    }
    proof {
        assert(t@.take(n as int) =~= t@);
    }
    Some(acc)
}

impl Json {
    /// The value a JSON pointer (``/a/b/2`` style, with `~0`/`~1`
    /// escapes) leads to within this value.
    #[verifier::loop_isolation(false)]
    pub fn pointer<'a>(&'a self, ptr: &str) -> (r: Option<&'a Json>)
        ensures
            match r {
                Some(v) => value_pointer(self@, ptr@) == Some(v@),
                None => value_pointer(self@, ptr@) is None,
            },
    {
        let chars = crate::text::str_chars(ptr);
        if chars.len() == 0 {
            return Some(self);
        }
        let c0 = chars[0];
        if c0 != '/' {
            return None;
        }
        let tokens = split_chars_from(&chars, 1, '/');
        let ghost toks = tokens_view(tokens@);
        let mut cur: &Json = self;
        let n = tokens.len();
        proof {
            assert(toks.skip(0) =~= toks);
        }
        for ti in 0..n
            invariant
                n == tokens@.len(),
                pointer_from(self@, toks) == pointer_from(cur@, toks.skip(ti as int)),
        {
            let ghost rest = toks.skip(ti as int);
            proof {
                assert(rest[0] == tokens@[ti as int]@);
                assert(rest.skip(1) =~= toks.skip(ti + 1));
            }
            let tok = replace_pair(&replace_pair(&tokens[ti], '~', '1', '/'), '~', '0', '~');
            match pointer_step_exec(cur, &tok) {
                Some(v) => {
                    cur = v;
                },
                None => {
                    return None;
                },
            }
        }
        proof {
            assert(toks.skip(n as int) =~= Seq::<Seq<char>>::empty());
        }
        Some(cur)
    }
}

/// Every entry of the object after a set is the new entry or one of the
/// old ones.
pub proof fn lemma_obj_insert_elements(
    pairs: Seq<(Seq<char>, ValView)>,
    key: Seq<char>,
    v: ValView,
    j: int,
)
    requires
        0 <= j < obj_insert_spec(pairs, key, v).len(),
    ensures
        obj_insert_spec(pairs, key, v)[j] == (key, v) || exists|i: int|
            0 <= i < pairs.len() && obj_insert_spec(pairs, key, v)[j] == pairs[i],
    decreases pairs.len(),
{
    let ins = obj_insert_spec(pairs, key, v);
    if pairs.len() == 0 {
    } else if lex_lt(key, pairs[0].0) {
        if j > 0 {
            assert(ins[j] == pairs[j - 1]);
        }
    } else if pairs[0].0 == key {
        if j > 0 {
            assert(ins[j] == pairs.skip(1)[j - 1]);
            assert(pairs.skip(1)[j - 1] == pairs[j]);
        }
    } else {
        if j > 0 {
            let rest = pairs.skip(1);
            assert(ins[j] == obj_insert_spec(rest, key, v)[j - 1]);
            lemma_obj_insert_elements(rest, key, v, j - 1);
            if obj_insert_spec(rest, key, v)[j - 1] != (key, v) {
                let i = choose|i: int|
                    0 <= i < rest.len() && obj_insert_spec(rest, key, v)[j - 1] == rest[i];
                assert(rest[i] == pairs[i + 1]);
            }
        } else {
            assert(ins[0] == pairs[0]);
        }
    }
}

/// The canonical form of an object's entries: each value canonical, set
/// into a sorted mapping left to right — a later entry with a repeated
/// key replaces the earlier one.
pub open spec fn canon_entries(pairs: Seq<(Seq<char>, ValView)>) -> Seq<(Seq<char>, ValView)>
    decreases pairs,
{
    if pairs.len() == 0 {
        Seq::empty()
    } else {
        obj_insert_spec(canon_entries(pairs.drop_last()), pairs.last().0, canon_spec(pairs.last().1))
    }
}

/// The canonical forms of an array's items.
pub open spec fn canon_items(items: Seq<ValView>) -> Seq<ValView>
    decreases items,
{
    Seq::new(
        items.len(),
        |i: int|
            if 0 <= i < items.len() {
                canon_spec(items[i])
            } else {
                ValView::Null
            },
    )
}

/// The canonical form of a value: every object in it turned into a
/// sorted, unique-keyed mapping; everything else unchanged.
pub open spec fn canon_spec(v: ValView) -> ValView
    decreases v,
{
    match v {
        ValView::Obj(pairs) => ValView::Obj(canon_entries(pairs)),
        ValView::Arr(items) => ValView::Arr(canon_items(items)),
        x => x,
    }
}

/// The canonical form of a value is well-formed.
pub proof fn lemma_canon_wf(v: ValView)
    ensures
        wf_value(canon_spec(v)),
    decreases v,
{
    match v {
        ValView::Obj(pairs) => {
            lemma_canon_entries_wf(pairs);
            assert(canon_spec(v) == ValView::Obj(canon_entries(pairs)));
            assert(obj_sorted(canon_entries(pairs)));
            assert forall|i: int| 0 <= i < canon_entries(pairs).len() implies wf_value(
                #[trigger] canon_entries(pairs)[i].1,
            ) by {}
            assert(wf_value(ValView::Obj(canon_entries(pairs))));
            assert(wf_value(canon_spec(v)));
        },
        ValView::Arr(items) => {
            assert forall|i: int| 0 <= i < canon_items(items).len() implies wf_value(
                #[trigger] canon_items(items)[i],
            ) by {
                lemma_canon_wf(items[i]);
            }
            assert(wf_value(ValView::Arr(canon_items(items))));
            assert(wf_value(canon_spec(v)));
        },
        _ => {},
    }
}

/// Canonical entries are sorted, and their values well-formed.
pub proof fn lemma_canon_entries_wf(pairs: Seq<(Seq<char>, ValView)>)
    ensures
        obj_sorted(canon_entries(pairs)),
        forall|i: int|
            0 <= i < canon_entries(pairs).len() ==> wf_value(#[trigger] canon_entries(pairs)[i].1),
    decreases pairs,
{
    if pairs.len() > 0 {
        lemma_canon_entries_wf(pairs.drop_last());
        let acc = canon_entries(pairs.drop_last());
        let key = pairs.last().0;
        let v = canon_spec(pairs.last().1);
        lemma_obj_insert_sorted(acc, key, v);
        lemma_canon_wf(pairs.last().1);
        assert forall|j: int| 0 <= j < canon_entries(pairs).len() implies wf_value(
            #[trigger] canon_entries(pairs)[j].1,
        ) by {
            lemma_obj_insert_elements(acc, key, v, j);
            if canon_entries(pairs)[j] != (key, v) {
                let i = choose|i: int|
                    0 <= i < acc.len() && canon_entries(pairs)[j] == acc[i];
                assert(wf_value(acc[i].1));
            }
        }
    }
}

/// The canonical form of a value: every object in it set into one
/// sorted, unique-keyed mapping (a later entry with a repeated key
/// replacing the earlier one), arrays and scalars kept as they are.
#[verifier::loop_isolation(false)]
pub fn canon_value(v: &Json) -> (r: Json)
    ensures
        r@ == canon_spec(v@),
    decreases v,
{
    match v {
        Json::Null => Json::Null,
        Json::Bool(b) => Json::Bool(*b),
        Json::Num(s) => Json::Num(s.clone()),
        Json::Str(s) => Json::Str(s.clone()),
        Json::Arr(items) => {
            let mut r: Vec<Json> = Vec::new();
            let n = items.len();
            for i in 0..n
                invariant
                    n == items@.len(),
                    r@.len() == i,
                    forall|k: int| 0 <= k < i ==> r@[k]@ == canon_spec(arr_view(items@)[k]),
            {
                r.push(canon_value(&items[i]));
            }
            proof {
                assert(arr_view(r@) =~= canon_items(arr_view(items@)));
            }
            Json::Arr(r)
        },
        Json::Obj(pairs) => {
            let mut r: Vec<(String, Json)> = Vec::new();
            let n = pairs.len();
            proof {
                assert(pairs_view(r@) =~= canon_entries(pairs_view(pairs@).take(0)));
            }
            let mut i: usize = 0;
            while i < n
                invariant
                    0 <= i <= n,
                    n == pairs@.len(),
                    pairs_view(r@) == canon_entries(pairs_view(pairs@).take(i as int)),
                decreases n - i,
            {
                let ghost pre = pairs_view(pairs@).take(i as int);
                let ghost cur = pairs_view(pairs@).take(i + 1);
                proof {
                    assert(cur.drop_last() =~= pre);
                    assert(cur.last() == pairs_view(pairs@)[i as int]);
                }
                let key = pairs[i].0.clone();
                let cv = canon_value(&pairs[i].1);
                obj_insert(&mut r, key, cv);
                i += 1;
            }
            proof {
                assert(pairs_view(pairs@).take(n as int) =~= pairs_view(pairs@));
            }
            Json::Obj(r)
        },
    }
}

/// Whether two values have equal views.
#[verifier::loop_isolation(false)]
pub fn value_eq(a: &Json, b: &Json) -> (r: bool)
    ensures
        r == (a@ == b@),
    decreases a,
{
    match (a, b) {
        (Json::Null, Json::Null) => true,
        (Json::Bool(x), Json::Bool(y)) => *x == *y,
        (Json::Num(x), Json::Num(y)) => crate::text::str_eq(x.as_str(), y.as_str()),
        (Json::Str(x), Json::Str(y)) => crate::text::str_eq(x.as_str(), y.as_str()),
        (Json::Arr(x), Json::Arr(y)) => {
            if x.len() != y.len() {
                proof {
                    assert(a@ == ValView::Arr(arr_view(x@)));
                    assert(b@ == ValView::Arr(arr_view(y@)));
                    assert(arr_view(x@).len() != arr_view(y@).len());
                }
                return false;
            }
            let n = x.len();
            for i in 0..n
                invariant
                    n == x@.len(),
                    n == y@.len(),
                    forall|k: int| 0 <= k < i ==> x@[k]@ == y@[k]@,
            {
                if !value_eq(&x[i], &y[i]) {
                    assert(arr_view(x@)[i as int] != arr_view(y@)[i as int]);
                    return false;
                }
            }
            proof {
                assert(arr_view(x@) =~= arr_view(y@));
            }
            true
        },
        (Json::Obj(x), Json::Obj(y)) => {
            if x.len() != y.len() {
                proof {
                    assert(a@ == ValView::Obj(pairs_view(x@)));
                    assert(b@ == ValView::Obj(pairs_view(y@)));
                    assert(pairs_view(x@).len() != pairs_view(y@).len());
                }
                return false;
            }
            let n = x.len();
            for i in 0..n
                invariant
                    n == x@.len(),
                    n == y@.len(),
                    forall|k: int|
                        0 <= k < i ==> x@[k].0@ == y@[k].0@ && x@[k].1@ == y@[k].1@,
            {
                if !crate::text::str_eq(x[i].0.as_str(), y[i].0.as_str()) {
                    assert(pairs_view(x@)[i as int] != pairs_view(y@)[i as int]);
                    return false;
                }
                if !value_eq(&x[i].1, &y[i].1) {
                    assert(pairs_view(x@)[i as int] != pairs_view(y@)[i as int]);
                    return false;
                }
            }
            proof {
                assert(pairs_view(x@) =~= pairs_view(y@));
            }
            true
        },
        _ => {
            assert(a@ != b@);
            false
        },
    }
}

} // verus!
