//! The small template helpers' cores: repeating a block N times,
//! inlining a sub-template, concatenating values, and dumping values
//! for inspection. The block rendering itself is the templating
//! engine's work; these compute what it repeats or writes.

use crate::error::GeneratorError;
use crate::value::{arr_view, digits_only, digits_val, Json, ValView};
use vstd::prelude::*;

verus! {

/// The value read as an unsigned count: decimal digits without a sign,
/// a superfluous leading zero, or a fraction, small enough for a
/// machine count.
pub open spec fn as_u64_spec(v: ValView) -> Option<int> {
    match v {
        ValView::Num(t) => if t.len() == 0 || (t[0] == '0' && t.len() > 1) || !digits_only(t) {
            None
        } else if digits_val(t) > u64::MAX as int {
            None
        } else {
            Some(digits_val(t))
        },
        _ => None,
    }
}

/// Reads a number value as an unsigned count.
#[verifier::loop_isolation(false)]
#[verifier::rlimit(50)]
pub fn as_u64(v: &Json) -> (r: Option<u64>)
    ensures
        match r {
            Some(n) => as_u64_spec(v@) == Some(n as int),
            None => as_u64_spec(v@) is None,
        },
{
    let t: &String = match v {
        Json::Num(t) => t,
        _ => {
            return None;
        },
    };
    let cs = crate::text::str_chars(t.as_str());
    let n = cs.len();
    if n == 0 {
        return None;
    }
    if cs[0] == '0' && n > 1 {
        return None;
    }
    let mut acc: u64 = 0;
    for i in 0..n
        invariant
            n == t@.len(),
            cs@ == t@,
            digits_only(t@.take(i as int)),
            acc == digits_val(t@.take(i as int)),
    {
        let c = cs[i];
        let cv = c as u32;
        if cv < '0' as u32 || cv > '9' as u32 {
            proof {
                vstd::utf8::char_u32_cast(c, cv);
                if '0' <= c && c <= '9' {
                    assert(('0' as u32) <= cv && cv <= ('9' as u32));
                }
                assert(!digits_only(t@));
            }
            return None;
        }
        proof {
            vstd::utf8::char_u32_cast(c, cv);
            assert('0' <= c && c <= '9') by {
                if c < '0' || c > '9' {
                    assert(cv < ('0' as u32) || cv > ('9' as u32));
                }
            }
            assert(t@.take(i + 1).drop_last() =~= t@.take(i as int));
            assert(t@.take(i + 1).last() == t@[i as int]);
        }
        let d = (cv - '0' as u32) as u64;
        if acc > (u64::MAX - d) / 10 {
            proof {
                assert(acc * 10 + d > u64::MAX) by (nonlinear_arith)
                    requires
                        acc > (u64::MAX - d) / 10,
                        d <= 9,
                ;
                if digits_only(t@) {
                    crate::value::lemma_digits_val_grows(t@, i + 1);
                    assert(digits_val(t@.take(i + 1)) == acc * 10 + d);
                }
            }
            return None;
        }
        assert(acc * 10 + d <= u64::MAX) by (nonlinear_arith)
            requires
                acc <= (u64::MAX - d) / 10,
                d <= 9,
        ;
        acc = acc * 10 + d;
    }
    proof {
        assert(t@.take(n as int) =~= t@);
    }
    Some(acc)
}

/// The `times` block helper: repeats its block as often as its numeric
/// parameter says. The repetition itself is the engine's; the count is
/// decided here.
#[derive(Clone, Copy)]
pub struct TimesHelper;

impl TimesHelper {
    /// How often the block repeats. Fails exactly when the parameter is
    /// not readable as an unsigned count.
    pub fn count(v: &Json) -> (r: Result<u64, GeneratorError>)
        ensures
            r matches Ok(n) ==> as_u64_spec(v@) == Some(n as int),
            r matches Err(e) ==> as_u64_spec(v@) is None && e is Render,
    {
        match as_u64(v) {
            Some(n) => Ok(n),
            None => Err(
                GeneratorError::Render(String::from_str("unable to read the parameter as a count")),
            ),
        }
    }
}

/// The `expand` helper: renders its string parameter as an inline
/// template. The rendering is the engine's; the template text is
/// extracted here.
#[derive(Clone, Copy)]
pub struct ExpandHelper;

impl ExpandHelper {
    /// The template text to expand. Fails exactly when the parameter is
    /// not a string.
    pub fn template_text(v: &Json) -> (r: Result<&String, GeneratorError>)
        ensures
            r matches Ok(s) ==> v@ == ValView::Str(s@),
            r matches Err(e) ==> !(v@ is Str) && e is Render,
    {
        match v.as_str() {
            Some(s) => Ok(s),
            None => Err(
                GeneratorError::Render(
                    String::from_str("unable to get the template data as a string"),
                ),
            ),
        }
    }
}

/// The concatenation of the string parameters, anything else reading as
/// empty.
pub open spec fn concat_spec(items: Seq<ValView>) -> Seq<char>
    decreases items.len(),
{
    if items.len() == 0 {
        Seq::empty()
    } else {
        concat_spec(items.drop_last()) + (match items.last() {
            ValView::Str(s) => s,
            _ => Seq::empty(),
        })
    }
}

/// The `concat` helper: writes its string parameters, joined.
#[derive(Clone, Copy)]
pub struct ConcatHelper;

impl ConcatHelper {
    /// The parameters concatenated: each string parameter's text, one
    /// after the other, anything else contributing nothing.
    #[verifier::loop_isolation(false)]
    pub fn concat_values(params: &Vec<Json>) -> (r: String)
        ensures
            r@ == concat_spec(arr_view(params@)),
    {
        let mut out = String::new();
        let n = params.len();
        proof {
            assert(arr_view(params@).take(0) =~= Seq::<ValView>::empty());
        }
        for i in 0..n
            invariant
                n == params@.len(),
                out@ == concat_spec(arr_view(params@).take(i as int)),
        {
            let ghost pre = arr_view(params@).take(i as int);
            let ghost cur = arr_view(params@).take(i + 1);
            proof {
                assert(cur.drop_last() =~= pre);
                assert(cur.last() == arr_view(params@)[i as int]);
            }
            match params[i].as_str() {
                Some(s) => {
                    out.append(s.as_str());
                },
                None => {},
            }
        }
        proof {
            assert(arr_view(params@).take(n as int) =~= arr_view(params@));
        }
        out
    }
}

/// The `dump` helper: logs its parameters; it writes nothing into the
/// page, so there is nothing to compute.
#[derive(Clone, Copy)]
pub struct DumpHelper;

} // verus!
