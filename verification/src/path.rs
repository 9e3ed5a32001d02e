//! Path queries over the content tree: the JSONPath-style evaluator,
//! behind a narrow interface.

use crate::error::GeneratorError;
use crate::interop::{json_to_value, value_to_json};
use crate::value::{arr_view, Json, ValView};
use vstd::prelude::*;

verus! {

/// Whether a character is a decimal digit.
pub open spec fn is_digit(c: char) -> bool {
    '0' <= c && c <= '9'
}

/// How many digits stand in a row from position `i` on.
pub open spec fn digit_run_from(s: Seq<char>, i: int) -> int
    decreases s.len() - i,
{
    if i < 0 || i >= s.len() || !is_digit(s[i]) {
        0
    } else {
        1 + digit_run_from(s, i + 1)
    }
}

/// A quote character, as the query language's tokenizer reads one.
pub open spec fn is_quote(c: char) -> bool {
    c == '\'' || c == '"'
}

/// A blank the tokenizer skips between tokens.
pub open spec fn is_blank(c: char) -> bool {
    c == ' ' || c == '\t' || c == '\n' || c == '\r'
}

/// The first index at or after `i` holding something other than a blank;
/// the length when there is none.
pub open spec fn skip_blanks(s: Seq<char>, i: int) -> int
    decreases s.len() - i,
{
    if i < 0 || i >= s.len() {
        s.len() as int
    } else if is_blank(s[i]) {
        skip_blanks(s, i + 1)
    } else {
        i
    }
}

/// Whether the expression holds a filter marker.
pub open spec fn has_filter_marker(s: Seq<char>) -> bool {
    exists|i: int| 0 <= i && i + 1 < s.len() && #[trigger] s[i] == '[' && s[i + 1] == '?'
}

/// Whether the expression holds a quoted token directly (blanks aside)
/// before a comma — the shape the parser reads as a key list.
pub open spec fn has_quoted_key_list(s: Seq<char>) -> bool {
    exists|i: int|
        0 <= i < s.len() && is_quote(#[trigger] s[i]) && skip_blanks(s, i + 1) < s.len() && s[
            skip_blanks(s, i + 1)
        ] == ','
}

/// Whether a path expression stays clear of what the evaluator cannot
/// hold: no run of more than 300 digits, no scientific-notation literal
/// (a digit or point directly before an exponent marker and its digits)
/// — a literal reading beyond the finite range aborts the evaluator —
/// and no quoted key list alongside a filter marker, since a key list
/// read inside a filter aborts it too. Such expressions are refused
/// whole.
pub open spec fn path_expr_screened(s: Seq<char>) -> bool {
    &&& forall|i: int| 0 <= i < s.len() ==> digit_run_from(s, i) <= 300
    &&& forall|i: int|
        0 <= i && i + 2 < s.len() ==> !((is_digit(#[trigger] s[i]) || s[i] == '.') && (s[i + 1]
            == 'e' || s[i + 1] == 'E') && (is_digit(s[i + 2]) || s[i + 2] == '+'))
    &&& !(has_filter_marker(s) && has_quoted_key_list(s))
}

/// A stretch of blanks ended by something else (or the end) is what
/// `skip_blanks` finds.
proof fn lemma_skip_blanks_at(s: Seq<char>, i: int, at: int)
    requires
        0 <= i <= at <= s.len(),
        forall|k: int| i <= k < at ==> is_blank(#[trigger] s[k]),
        at < s.len() ==> !is_blank(s[at]),
    ensures
        skip_blanks(s, i) == at,
    decreases at - i,
{
    if i < at {
        lemma_skip_blanks_at(s, i + 1, at);
    }
}

/// Whether the expression holds a filter marker.
#[verifier::loop_isolation(false)]
fn find_filter_marker(cs: &Vec<char>) -> (r: bool)
    ensures
        r == has_filter_marker(cs@),
{
    let n = cs.len();
    if n < 2 {
        proof {
            assert(!has_filter_marker(cs@));
        }
        return false;
    }
    for i in 0..n - 1
        invariant
            n == cs@.len(),
            n >= 2,
            forall|k: int| 0 <= k < i ==> !(#[trigger] cs@[k] == '[' && cs@[k + 1] == '?'),
    {
        if cs[i] == '[' && cs[i + 1] == '?' {
            proof {
                assert(has_filter_marker(cs@));
            }
            return true;
        }
    }
    proof {
        assert(!has_filter_marker(cs@));
    }
    false
}

/// Whether a blank stands at the position.
fn is_blank_exec(c: char) -> (r: bool)
    ensures
        r == is_blank(c),
{
    c == ' ' || c == '\t' || c == '\n' || c == '\r'
}

/// Whether the expression holds a quoted token directly before a comma.
#[verifier::loop_isolation(false)]
fn find_quoted_key_list(cs: &Vec<char>) -> (r: bool)
    ensures
        r == has_quoted_key_list(cs@),
{
    let n = cs.len();
    for i in 0..n
        invariant
            n == cs@.len(),
            forall|k: int|
                0 <= k < i ==> !(is_quote(#[trigger] cs@[k]) && skip_blanks(cs@, k + 1) < n && cs@[
                    skip_blanks(cs@, k + 1)
                ] == ','),
    {
        let c = cs[i];
        if c == '\'' || c == '"' {
            let mut j = i + 1;
            while j < n && is_blank_exec(cs[j])
                invariant
                    i + 1 <= j <= n,
                    n == cs@.len(),
                    forall|k: int| i + 1 <= k < j ==> is_blank(#[trigger] cs@[k]),
                decreases n - j,
            {
                j += 1;
            }
            proof {
                lemma_skip_blanks_at(cs@, i + 1, j as int);
            }
            if j < n && cs[j] == ',' {
                proof {
                    assert(is_quote(cs@[i as int]));
                    assert(has_quoted_key_list(cs@));
                }
                return true;
            }
        } else {
            proof {
                assert(!is_quote(cs@[i as int]));
            }
        }
    }
    false
}

/// Whether the expression passes the screen.
#[verifier::loop_isolation(false)]
pub fn path_expr_screen(path: &str) -> (r: bool)
    ensures
        r == path_expr_screened(path@),
{
    let cs = crate::text::str_chars(path);
    if find_filter_marker(&cs) && find_quoted_key_list(&cs) {
        return false;
    }
    let n = cs.len();
    let mut i = n;
    let mut run: usize = 0;
    while i > 0
        invariant
            0 <= i <= n,
            n == path@.len(),
            cs@ == path@,
            run <= n - i,
            run as int == digit_run_from(path@, i as int),
            forall|k: int| i <= k < n ==> digit_run_from(path@, k) <= 300,
            forall|k: int|
                i <= k && k + 2 < n ==> !((is_digit(#[trigger] path@[k]) || path@[k] == '.') && (
                path@[k + 1] == 'e' || path@[k + 1] == 'E') && (is_digit(path@[k + 2]) || path@[k
                    + 2] == '+')),
        decreases i,
    {
        i -= 1;
        let c = cs[i];
        let cv = c as u32;
        let dig = '0' as u32 <= cv && cv <= '9' as u32;
        proof {
            vstd::utf8::char_u32_cast(c, cv);
            assert(dig == is_digit(c)) by {
                if is_digit(c) {
                    assert(('0' as u32) <= cv && cv <= ('9' as u32));
                }
                if dig && !is_digit(c) {
                    assert(c < '0' || c > '9');
                    assert(cv < ('0' as u32) || cv > ('9' as u32));
                }
            }
        }
        if dig {
            run = run + 1;
        } else {
            run = 0;
        }
        proof {
            assert(run as int == digit_run_from(path@, i as int));
        }
        if run > 300 {
            proof {
                assert(digit_run_from(path@, i as int) > 300);
            }
            return false;
        }
        if n - i > 2 {
            let c1 = cs[i + 1];
            let c2 = cs[i + 2];
            let c2v = c2 as u32;
            let dig2 = '0' as u32 <= c2v && c2v <= '9' as u32;
            proof {
                vstd::utf8::char_u32_cast(c2, c2v);
                assert(dig2 == is_digit(c2)) by {
                    if is_digit(c2) {
                        assert(('0' as u32) <= c2v && c2v <= ('9' as u32));
                    }
                    if dig2 && !is_digit(c2) {
                        assert(c2 < '0' || c2 > '9');
                        assert(c2v < ('0' as u32) || c2v > ('9' as u32));
                    }
                }
            }
            if (dig || c == '.') && (c1 == 'e' || c1 == 'E') && (dig2 || c2 == '+') {
                return false;
            }
        }
    }
    true
}

/// What a path query selects from a tree: the matching values in
/// encounter order; nothing when the expression is malformed.
pub uninterp spec fn jsonpath_select_of(tree: ValView, path: Seq<char>) -> Option<Seq<ValView>>;

/// What the library's query plumbing yields: a screened expression's
/// matches, nothing for a refused or malformed expression.
pub open spec fn jsonpath_query(tree: ValView, path: Seq<char>) -> Option<Seq<ValView>> {
    if !path_expr_screened(path) {
        None
    } else {
        jsonpath_select_of(tree, path)
    }
}

/// Relies on `jsonpath_lib::select`: evaluates a JSONPath expression
/// over the tree, yielding the matches in document order; fails exactly
/// on malformed expressions. The evaluator reads number literals into
/// finite machine numbers and aborts beyond their range, so it may only
/// see screened expressions.
#[verifier::external_body]
pub(crate) fn jsonpath_select(tree: &Json, path: &str) -> (r: Result<Vec<Json>, String>)
    requires
        path_expr_screened(path@),
    ensures
        r matches Ok(v) ==> jsonpath_select_of(tree@, path@) == Some(arr_view(v@)),
        r matches Err(_) ==> jsonpath_select_of(tree@, path@) is None,
{
    let doc = value_to_json(tree);
    match jsonpath_lib::select(&doc, path) {
        Ok(found) => Ok(found.iter().map(|x| json_to_value(x)).collect()),
        Err(e) => Err(e.to_string()),
    }
}

/// Every value the path query selects, in encounter order. Fails
/// exactly when the expression is refused by the screen or malformed.
pub fn values_for_path(context: &Json, path: &str) -> (r: Result<Vec<Json>, GeneratorError>)
    ensures
        r matches Ok(v) ==> jsonpath_query(context@, path@) == Some(arr_view(v@)),
        r matches Err(e) ==> jsonpath_query(context@, path@) is None && e is Query,
{
    if !path_expr_screen(path) {
        return Err(
            GeneratorError::Query(String::from_str("the expression is refused by the evaluator screen")),
        );
    }
    match jsonpath_select(context, path) {
        Ok(v) => Ok(v),
        Err(m) => Err(GeneratorError::Query(m)),
    }
}

/// A single value for the path query: the first of its matches, if any.
/// Fails exactly when the expression is refused.
pub fn first_value_for_path(context: &Json, path: &str) -> (r: Result<
    Option<Json>,
    GeneratorError,
>)
    ensures
        r matches Ok(o) ==> jsonpath_query(context@, path@) matches Some(s) && (match o {
            Some(v) => s.len() > 0 && v@ == s[0],
            None => s.len() == 0,
        }),
        r matches Err(e) ==> jsonpath_query(context@, path@) is None && e is Query,
{
    let mut v = match values_for_path(context, path) {
        Ok(v) => v,
        Err(e) => {
            return Err(e);
        },
    };
    let ghost s = arr_view(v@);
    if v.len() == 0 {
        Ok(None)
    } else {
        let first = v.remove(0);
        proof {
            assert(first@ == s[0]);
        }
        Ok(Some(first))
    }
}

} // verus!
