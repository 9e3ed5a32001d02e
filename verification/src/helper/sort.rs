//! The `sorted` template helper's core: a stable ordering of an array's
//! indices (or an object's entries) by a text field that a JSON pointer
//! names, ascending or inverted, entries missing the field last on
//! ascending order.

use crate::text;
use crate::value::{arr_view, lex_lt, pairs_view, value_pointer, Json, ValView};
use vstd::prelude::*;

verus! {

/// The sort key of one item: the text its pointer path leads to.
pub open spec fn sort_key_spec(v: ValView, path: Seq<char>) -> Option<Seq<char>> {
    match value_pointer(v, path) {
        Some(p) => match p {
            ValView::Str(s) => Some(s),
            _ => None,
        },
        None => None,
    }
}

/// Strictly before, ascending: present keys in lexicographic order, a
/// present key before a missing one.
pub open spec fn key_lt(a: Option<Seq<char>>, b: Option<Seq<char>>) -> bool {
    match (a, b) {
        (Some(x), Some(y)) => lex_lt(x, y),
        (Some(_), None) => true,
        (None, _) => false,
    }
}

/// The same key: both present and equal, or both missing.
pub open spec fn key_eq(a: Option<Seq<char>>, b: Option<Seq<char>>) -> bool {
    match (a, b) {
        (Some(x), Some(y)) => x == y,
        (None, None) => true,
        _ => false,
    }
}

/// Exactly one of before, same, after.
pub proof fn lemma_key_total(a: Option<Seq<char>>, b: Option<Seq<char>>)
    ensures
        key_lt(a, b) ==> !key_lt(b, a) && !key_eq(a, b),
        !key_lt(a, b) && !key_lt(b, a) ==> key_eq(a, b),
        key_eq(a, b) ==> !key_lt(a, b) && !key_lt(b, a),
{
    match (a, b) {
        (Some(x), Some(y)) => {
            text::lemma_lex_trichotomy(x, y);
        },
        _ => {},
    }
}

/// Not-after is transitive.
pub proof fn lemma_key_le_trans(a: Option<Seq<char>>, b: Option<Seq<char>>, c: Option<Seq<char>>)
    requires
        !key_lt(b, a),
        !key_lt(c, b),
    ensures
        !key_lt(c, a),
{
    match (a, b, c) {
        (Some(x), Some(y), Some(z)) => {
            text::lemma_lex_trichotomy(x, y);
            text::lemma_lex_trichotomy(y, z);
            text::lemma_lex_trichotomy(x, z);
            if lex_lt(z, x) {
                if x == y {
                } else if y == z {
                } else {
                    text::lemma_lex_trans(z, x, y);
                }
            }
        },
        _ => {},
    }
}

/// The key's text, as a sequence.
pub open spec fn opt_key_view(o: Option<String>) -> Option<Seq<char>> {
    match o {
        Some(s) => Some(s@),
        None => None,
    }
}

/// Whether `a` sorts strictly before `b`, for the chosen direction;
/// equal keys never do.
pub open spec fn strictly_before(
    a: Option<Seq<char>>,
    b: Option<Seq<char>>,
    invert: bool,
) -> bool {
    if invert {
        key_lt(b, a)
    } else {
        key_lt(a, b)
    }
}

/// The order the `sorted` helper walks a list of keyed entries in: a
/// permutation of the positions, ordered by key — ascending with
/// missing keys last, or the reverse — and stable: entries with the
/// same key keep their original order.
pub open spec fn sorted_permutation_of(
    r: Seq<usize>,
    keys: Seq<Option<Seq<char>>>,
    invert: bool,
) -> bool {
    &&& r.len() == keys.len()
    &&& forall|i: int| 0 <= i < r.len() ==> #[trigger] r[i] < keys.len()
    &&& forall|i: int, j: int| 0 <= i < j < r.len() ==> #[trigger] r[i] != #[trigger] r[j]
    &&& forall|i: int, j: int|
        0 <= i < j < r.len() ==> !strictly_before(
            keys[#[trigger] r[j] as int],
            keys[#[trigger] r[i] as int],
            invert,
        )
    &&& forall|i: int, j: int|
        0 <= i < j < r.len() && key_eq(
            keys[#[trigger] r[i] as int],
            keys[#[trigger] r[j] as int],
        ) ==> r[i] < r[j]
}

/// Whether `a` goes strictly before `b` for the chosen direction.
fn strictly_before_exec(a: &Option<String>, b: &Option<String>, invert: bool) -> (r: bool)
    ensures
        r == strictly_before(opt_key_view(*a), opt_key_view(*b), invert),
{
    let (x, y) = if invert {
        (b, a)
    } else {
        (a, b)
    };
    match (x, y) {
        (Some(s), Some(t)) => text::str_lt(s.as_str(), t.as_str()),
        (Some(_), None) => true,
        (None, _) => false,
    }
}

/// The views of a list of optional keys.
pub open spec fn keys_view(keys: Seq<Option<String>>) -> Seq<Option<Seq<char>>> {
    Seq::new(
        keys.len(),
        |i: int|
            if 0 <= i < keys.len() {
                opt_key_view(keys[i])
            } else {
                None
            },
    )
}

/// Sorts the positions of a list of keys: stable, by key, ascending
/// with missing keys last — or the exact reverse order of keys when
/// inverted (equal keys still keeping their original order).
#[verifier::loop_isolation(false)]
pub fn sorted_indices(keys: &Vec<Option<String>>, invert: bool) -> (r: Vec<usize>)
    ensures
        sorted_permutation_of(r@, keys_view(keys@), invert),
{
    let ghost kv = keys_view(keys@);
    let n = keys.len();
    let mut idx: Vec<usize> = Vec::new();
    for i in 0..n
        invariant
            n == keys@.len(),
            idx@.len() == i,
            forall|p: int| 0 <= p < idx@.len() ==> #[trigger] idx@[p] < i,
            forall|p: int, q: int|
                0 <= p < q < idx@.len() ==> #[trigger] idx@[p] != #[trigger] idx@[q],
            forall|p: int, q: int|
                0 <= p < q < idx@.len() ==> !strictly_before(
                    kv[#[trigger] idx@[q] as int],
                    kv[#[trigger] idx@[p] as int],
                    invert,
                ),
            forall|p: int, q: int|
                0 <= p < q < idx@.len() && key_eq(
                    kv[#[trigger] idx@[p] as int],
                    kv[#[trigger] idx@[q] as int],
                ) ==> idx@[p] < idx@[q],
    {
        let ghost idx0 = idx@;
        // find the first already-placed entry the new one goes before
        let m = idx.len();
        let mut pos: usize = 0;
        while pos < m && !strictly_before_exec(&keys[i], &keys[idx[pos]], invert)
            invariant
                0 <= pos <= m,
                m == idx@.len(),
                idx@ == idx0,
                forall|p: int|
                    0 <= p < pos ==> !strictly_before(
                        kv[i as int],
                        kv[#[trigger] idx@[p] as int],
                        invert,
                    ),
            decreases m - pos,
        {
            pos += 1;
        }
        proof {
            if pos < m {
                assert(strictly_before(kv[i as int], kv[idx0[pos as int] as int], invert));
            }
        }
        idx.insert(pos, i);
        proof {
            let after = idx@;
            assert(after.len() == idx0.len() + 1);
            assert(after[pos as int] == i);
            assert(forall|p: int| 0 <= p < pos ==> after[p] == idx0[p]);
            assert(forall|p: int| pos < p < after.len() ==> after[p] == idx0[p - 1]);
            // order holds around the inserted entry
            assert forall|p: int, q: int| 0 <= p < q < after.len() implies !strictly_before(
                kv[after[q] as int],
                kv[after[p] as int],
                invert,
            ) by {
                lemma_key_total(kv[after[p] as int], kv[after[q] as int]);
                if q == pos {
                    // everything before the slot does not go after the new entry
                    assert(!strictly_before(kv[i as int], kv[idx0[p] as int], invert));
                    lemma_key_total(kv[idx0[p] as int], kv[i as int]);
                    if invert {
                    } else {
                    }
                    assert(!strictly_before(kv[after[q] as int], kv[after[p] as int], invert))
                        by {
                        if strictly_before(kv[i as int], kv[idx0[p] as int], invert) {
                        }
                    }
                } else if p == pos && q > pos {
                    // the new entry goes before the first entry it
                    // strictly precedes, and all entries after that one
                    assert(strictly_before(kv[i as int], kv[idx0[pos as int] as int], invert));
                    if q == pos + 1 {
                        lemma_key_total(kv[i as int], kv[idx0[pos as int] as int]);
                    } else {
                        assert(!strictly_before(
                            kv[idx0[q - 1] as int],
                            kv[idx0[pos as int] as int],
                            invert,
                        ));
                        lemma_key_total(kv[i as int], kv[idx0[pos as int] as int]);
                        if invert {
                            lemma_key_le_trans(
                                kv[idx0[q - 1] as int],
                                kv[idx0[pos as int] as int],
                                kv[i as int],
                            );
                        } else {
                            lemma_key_le_trans(
                                kv[i as int],
                                kv[idx0[pos as int] as int],
                                kv[idx0[q - 1] as int],
                            );
                        }
                    }
                } else if p < pos && q > pos {
                    assert(after[p] == idx0[p] && after[q] == idx0[q - 1]);
                } else {
                }
            }
            // stability holds around the inserted entry
            assert forall|p: int, q: int|
                0 <= p < q < after.len() && key_eq(
                    kv[after[p] as int],
                    kv[after[q] as int],
                ) implies after[p] < after[q] by {
                if q == pos {
                    assert(after[p] == idx0[p] && idx0[p] < i);
                } else if p == pos {
                    // no entry at or after the slot shares the new key
                    assert(strictly_before(kv[i as int], kv[idx0[pos as int] as int], invert));
                    if q == pos + 1 {
                        lemma_key_total(kv[i as int], kv[idx0[pos as int] as int]);
                        assert(!key_eq(kv[after[p] as int], kv[after[q] as int]));
                    } else {
                        assert(!strictly_before(
                            kv[idx0[q - 1] as int],
                            kv[idx0[pos as int] as int],
                            invert,
                        ));
                        lemma_key_total(kv[i as int], kv[idx0[q - 1] as int]);
                        lemma_key_total(kv[i as int], kv[idx0[pos as int] as int]);
                        if key_eq(kv[i as int], kv[idx0[q - 1] as int]) {
                            if invert {
                                lemma_key_le_trans(
                                    kv[idx0[q - 1] as int],
                                    kv[idx0[pos as int] as int],
                                    kv[i as int],
                                );
                                lemma_key_total(kv[i as int], kv[idx0[pos as int] as int]);
                            } else {
                                lemma_key_le_trans(
                                    kv[i as int],
                                    kv[idx0[pos as int] as int],
                                    kv[idx0[q - 1] as int],
                                );
                                lemma_key_total(kv[i as int], kv[idx0[pos as int] as int]);
                            }
                            assert(false);
                        }
                    }
                } else {
                }
            }
        }
    }
    proof {
        assert(idx@.len() == kv.len());
    }
    idx
}

/// The sort key of one item, extracted.
pub fn sort_key(v: &Json, sort_path: &str) -> (r: Option<String>)
    ensures
        opt_key_view(r) == sort_key_spec(v@, sort_path@),
{
    match v.pointer(sort_path) {
        Some(p) => match p.as_str() {
            Some(s) => Some(s.clone()),
            None => None,
        },
        None => None,
    }
}

/// The order the `sorted` helper walks an array in: its indices sorted
/// stably by the text under the pointer path — ascending with items
/// missing the field after all present values, or inverted.
#[verifier::loop_isolation(false)]
pub fn sorted_array(list: &Vec<Json>, sort_path: &str, invert: bool) -> (r: Vec<usize>)
    ensures
        sorted_permutation_of(
            r@,
            Seq::new(
                arr_view(list@).len(),
                |i: int|
                    if 0 <= i < arr_view(list@).len() {
                        sort_key_spec(arr_view(list@)[i], sort_path@)
                    } else {
                        None
                    },
            ),
            invert,
        ),
{
    let n = list.len();
    let mut keys: Vec<Option<String>> = Vec::new();
    for i in 0..n
        invariant
            n == list@.len(),
            keys@.len() == i,
            forall|k: int|
                0 <= k < i ==> opt_key_view(#[trigger] keys@[k]) == sort_key_spec(
                    arr_view(list@)[k],
                    sort_path@,
                ),
    {
        keys.push(sort_key(&list[i], sort_path));
    }
    let r = sorted_indices(&keys, invert);
    proof {
        assert(keys_view(keys@) =~= Seq::new(
            arr_view(list@).len(),
            |i: int|
                if 0 <= i < arr_view(list@).len() {
                    sort_key_spec(arr_view(list@)[i], sort_path@)
                } else {
                    None
                },
        ));
    }
    r
}

/// The order the `sorted` helper walks an object in: the positions of
/// its entries sorted stably by the text under the pointer path within
/// each entry's value — ascending with entries missing the field after
/// all present values, or inverted.
#[verifier::loop_isolation(false)]
pub fn sorted_map(map: &Vec<(String, Json)>, sort_path: &str, invert: bool) -> (r: Vec<usize>)
    ensures
        sorted_permutation_of(
            r@,
            Seq::new(
                pairs_view(map@).len(),
                |i: int|
                    if 0 <= i < pairs_view(map@).len() {
                        sort_key_spec(pairs_view(map@)[i].1, sort_path@)
                    } else {
                        None
                    },
            ),
            invert,
        ),
{
    let n = map.len();
    let mut keys: Vec<Option<String>> = Vec::new();
    for i in 0..n
        invariant
            n == map@.len(),
            keys@.len() == i,
            forall|k: int|
                0 <= k < i ==> opt_key_view(#[trigger] keys@[k]) == sort_key_spec(
                    pairs_view(map@)[k].1,
                    sort_path@,
                ),
    {
        keys.push(sort_key(&map[i].1, sort_path));
    }
    let r = sorted_indices(&keys, invert);
    proof {
        assert(keys_view(keys@) =~= Seq::new(
            pairs_view(map@).len(),
            |i: int|
                if 0 <= i < pairs_view(map@).len() {
                    sort_key_spec(pairs_view(map@)[i].1, sort_path@)
                } else {
                    None
                },
        ));
    }
    r
}

/// The `sorted` block helper itself; the block iteration is driven by
/// the templating engine around the orders computed here.
#[derive(Clone, Copy)]
pub struct SortedHelper;

/// A path slice with one more component at its end, as a fresh vector.
#[verifier::loop_isolation(false)]
pub fn copy_on_push_vec(input: &[String], el: String) -> (r: Vec<String>)
    requires
        input@.len() < usize::MAX,
    ensures
        r@.len() == input@.len() + 1,
        forall|i: int| 0 <= i < input@.len() ==> #[trigger] r@[i]@ == input@[i]@,
        r@[input@.len() as int]@ == el@,
{
    let mut new_vec: Vec<String> = Vec::with_capacity(input.len() + 1);
    let n = input.len();
    for i in 0..n
        invariant
            n == input@.len(),
            new_vec@.len() == i,
            forall|k: int| 0 <= k < i ==> #[trigger] new_vec@[k]@ == input@[k]@,
    {
        let s = vstd::slice::slice_index_get(input, i).clone();
        new_vec.push(s);
    }
    new_vec.push(el);
    new_vec
}

} // verus!
