//! Splitting a content file into its front-matter block and its body.
//!
//! A file carries front matter when its first line is exactly `---`
//! (after trimming): the block runs to the next such marker line, and
//! the body is everything after it.

use crate::error::GeneratorError;
use crate::text;
use crate::value::{pairs_view, Json, ValView};
use vstd::prelude::*;

verus! {

/// Whether a line is a front-matter marker: `---` framed by whitespace.
pub open spec fn is_marker_spec(l: Seq<char>) -> bool {
    text::trim_spec(l) == seq!['-', '-', '-']
}

/// Whether the line is present and is a front-matter marker.
pub fn is_marker(line: Option<&str>) -> (r: bool)
    ensures
        r == match line {
            Some(l) => is_marker_spec(l@),
            None => false,
        },
{
    match line {
        Some(l) => {
            let cs = text::str_chars(l);
            let t = text::trim_chars(&cs);
            let r = t.len() == 3 && t[0] == '-' && t[1] == '-' && t[2] == '-';
            proof {
                if r {
                    assert(t@ =~= seq!['-', '-', '-']);
                } else {
                    assert(t@ != seq!['-', '-', '-']) by {
                        if t@ == seq!['-', '-', '-'] {
                            assert(t@.len() == 3);
                            assert(t@[0] == '-' && t@[1] == '-' && t@[2] == '-');
                        }
                    }
                }
            }
            r
        },
        None => false,
    }
}

/// A line with a trailing carriage return dropped.
pub open spec fn strip_cr(l: Seq<char>) -> Seq<char> {
    if l.len() > 0 && l.last() == '\r' {
        l.drop_last()
    } else {
        l
    }
}

/// The lines of a text: pieces between newlines, each without a
/// trailing carriage return, and no final empty piece.
pub open spec fn lines_of(s: Seq<char>) -> Seq<Seq<char>> {
    let raw = text::split_on(s, '\n');
    let cut = if raw.last().len() == 0 {
        raw.drop_last()
    } else {
        raw
    };
    Seq::new(
        cut.len(),
        |i: int|
            if 0 <= i < cut.len() {
                strip_cr(cut[i])
            } else {
                Seq::empty()
            },
    )
}

/// The lines joined with single newlines.
pub open spec fn join_lines(ls: Seq<Seq<char>>) -> Seq<char>
    decreases ls.len(),
{
    if ls.len() == 0 {
        Seq::empty()
    } else if ls.len() == 1 {
        ls[0]
    } else {
        join_lines(ls.drop_last()) + seq!['\n'] + ls.last()
    }
}

/// The index of the first marker line at or after `from`; the line
/// count when there is none.
pub open spec fn find_marker(ls: Seq<Seq<char>>, from: int) -> int
    decreases ls.len() - from,
{
    if from < 0 || from >= ls.len() {
        ls.len() as int
    } else if is_marker_spec(ls[from]) {
        from
    } else {
        find_marker(ls, from + 1)
    }
}

/// How a file's text splits: the body, and the front-matter block when
/// the first line is a marker.
pub open spec fn front_matter_split_spec(s: Seq<char>) -> (Seq<char>, Option<Seq<char>>) {
    let ls = lines_of(s);
    if !(ls.len() > 0 && is_marker_spec(ls[0])) {
        (s, None)
    } else {
        let close = find_marker(ls, 1);
        let block = join_lines(ls.subrange(1, close));
        let body = if close < ls.len() {
            join_lines(ls.subrange(close + 1, ls.len() as int))
        } else {
            Seq::empty()
        };
        (body, Some(block))
    }
}

/// The lines of a text, as character vectors.
#[verifier::loop_isolation(false)]
pub fn split_lines(s: &str) -> (r: Vec<Vec<char>>)
    ensures
        crate::value::tokens_view(r@) == lines_of(s@),
{
    let cs = text::str_chars(s);
    let raw = text::split_chars_from(&cs, 0, '\n');
    proof {
        assert(cs@.skip(0) =~= cs@);
    }
    let mut cut = raw;
    let nlast = cut.len();
    proof {
        assert(nlast >= 1) by {
            lemma_split_nonempty(s@);
        }
    }
    if cut[nlast - 1].len() == 0 {
        cut.pop();
        proof {
            assert(crate::value::tokens_view(cut@) =~= crate::value::tokens_view(raw@).drop_last());
        }
    }
    let ghost cutv = if text::split_on(s@, '\n').last().len() == 0 {
        text::split_on(s@, '\n').drop_last()
    } else {
        text::split_on(s@, '\n')
    };
    proof {
        assert(crate::value::tokens_view(cut@) =~= cutv);
    }
    let n = cut.len();
    let mut r: Vec<Vec<char>> = Vec::new();
    for i in 0..n
        invariant
            n == cut@.len(),
            crate::value::tokens_view(cut@) == cutv,
            r@.len() == i,
            forall|k: int| 0 <= k < i ==> r@[k]@ == strip_cr(cutv[k]),
    {
        let ln = cut[i].len();
        if ln > 0 && cut[i][ln - 1] == '\r' {
            let t = vstd::slice::slice_to_vec(
                vstd::slice::slice_subrange(cut[i].as_slice(), 0, ln - 1),
            );
            proof {
                assert(t@ =~= strip_cr(cutv[i as int]));
            }
            r.push(t);
        } else {
            let t = cut[i].clone();
            proof {
                assert(t@ == cut@[i as int]@);
            }
            r.push(t);
        }
    }
    proof {
        assert(crate::value::tokens_view(r@) =~= lines_of(s@));
    }
    r
}

/// Splitting yields at least one piece.
proof fn lemma_split_nonempty(s: Seq<char>)
    ensures
        text::split_on(s, '\n').len() >= 1,
    decreases s.len(),
{
    if s.len() > 0 {
        lemma_split_nonempty(s.drop_last());
    }
}

/// Splits a file's text into its body and its front-matter block: the
/// block is present exactly when the first line is a `---` marker, and
/// runs to the next marker line (or the end).
#[verifier::loop_isolation(false)]
pub fn split_front_matter(data: &str) -> (r: (String, Option<String>))
    ensures
        (r.0@, match r.1 {
            Some(b) => Some(b@),
            None => None,
        }) == front_matter_split_spec(data@),
{
    let lines = split_lines(data);
    let ghost ls = lines_of(data@);
    let n = lines.len();
    let first_is_marker = if n == 0 {
        false
    } else {
        let f = text::chars_string(lines[0].as_slice());
        is_marker(Some(f.as_str()))
    };
    if !first_is_marker {
        return (data.to_owned(), None);
    }
    // find the closing marker
    let mut close: usize = n;
    let mut i: usize = 1;
    loop
        invariant
            1 <= i <= n,
            n == ls.len(),
            crate::value::tokens_view(lines@) == ls,
            close == n,
            forall|k: int| 1 <= k < i ==> !is_marker_spec(ls[k]),
        decreases n - i,
    {
        if i >= n {
            break ;
        }
        let f = text::chars_string(lines[i].as_slice());
        if is_marker(Some(f.as_str())) {
            close = i;
            break ;
        }
        i += 1;
    }
    proof {
        lemma_find_marker_at(ls, 1, if close < n {
            close as int
        } else {
            ls.len() as int
        });
    }
    let block = join_lines_exec(&lines, 1, close);
    let body = if close < n {
        join_lines_exec(&lines, close + 1, n)
    } else {
        String::new()
    };
    proof {
        if close >= n {
            assert(body@ =~= Seq::<char>::empty());
        }
    }
    (body, Some(block))
}

/// A stretch with no marker, ended by a marker or the end, is what
/// `find_marker` finds.
proof fn lemma_find_marker_at(ls: Seq<Seq<char>>, from: int, at: int)
    requires
        1 <= from <= at <= ls.len(),
        forall|k: int| from <= k < at ==> !is_marker_spec(ls[k]),
        at < ls.len() ==> is_marker_spec(ls[at]),
    ensures
        find_marker(ls, from) == at,
    decreases at - from,
{
    if from < at {
        lemma_find_marker_at(ls, from + 1, at);
    }
}

/// The lines from `from` (inclusive) to `to` (exclusive), joined with
/// newlines.
#[verifier::loop_isolation(false)]
fn join_lines_exec(lines: &Vec<Vec<char>>, from: usize, to: usize) -> (r: String)
    requires
        from <= to <= lines@.len(),
    ensures
        r@ == join_lines(crate::value::tokens_view(lines@).subrange(from as int, to as int)),
{
    let ghost whole = crate::value::tokens_view(lines@).subrange(from as int, to as int);
    let mut out: Vec<char> = Vec::new();
    let mut i = from;
    proof {
        assert(whole.subrange(0, 0) =~= Seq::<Seq<char>>::empty());
    }
    while i < to
        invariant
            from <= i <= to <= lines@.len(),
            whole == crate::value::tokens_view(lines@).subrange(from as int, to as int),
            out@ == join_lines(whole.subrange(0, i - from)),
        decreases to - i,
    {
        let ghost pre = whole.subrange(0, i - from);
        let ghost cur = whole.subrange(0, i - from + 1);
        proof {
            assert(cur.drop_last() =~= pre);
            assert(cur.last() == lines@[i as int]@);
        }
        if i > from {
            out.push('\n');
        }
        let mut k: usize = 0;
        let ghost line = lines@[i as int]@;
        let ghost base = out@;
        while k < lines[i].len()
            invariant
                0 <= k <= line.len(),
                i < lines@.len(),
                line == lines@[i as int]@,
                out@ == base + line.take(k as int),
            decreases line.len() - k,
        {
            out.push(lines[i][k]);
            k += 1;
            proof {
                assert(base + line.take(k as int) =~= (base + line.take(k - 1)).push(
                    line[k - 1],
                ));
            }
        }
        proof {
            assert(line.take(line.len() as int) =~= line);
            if i > from {
                assert(out@ =~= join_lines(pre) + seq!['\n'] + line);
                assert(cur.drop_last() == pre && cur.last() == line);
                assert(join_lines(cur) == join_lines(pre) + seq!['\n'] + line);
            } else {
                assert(out@ =~= line);
                assert(cur.len() == 1 && cur[0] == line);
            }
        }
        i += 1;
    }
    proof {
        assert(whole.subrange(0, to - from) =~= whole);
    }
    text::chars_string(out.as_slice())
}

/// Splits a file's text and parses its front-matter block: the body,
/// and the block's entries when the file begins with a marker line.
/// Fails exactly when a present block is not a YAML mapping.
pub fn parse_front_matter(data: &str) -> (r: Result<
    (String, Option<Vec<(String, Json)>>),
    GeneratorError,
>)
    ensures
        r matches Ok(p) ==> {
            &&& p.0@ == front_matter_split_spec(data@).0
            &&& match (p.1, front_matter_split_spec(data@).1) {
                (None, None) => true,
                (Some(m), Some(bl)) => (crate::loader::yaml::yaml_doc_of(bl) matches Some(d)
                    && crate::value::canon_spec(d) == ValView::Obj(pairs_view(m@)))
                    && crate::value::wf_value(ValView::Obj(pairs_view(m@))),
                _ => false,
            }
        },
        r matches Err(e) ==> e is Parse && (front_matter_split_spec(data@).1 matches Some(bl)
            && match crate::loader::yaml::yaml_doc_of(bl) {
            Some(d) => !(d is Obj),
            None => true,
        }),
{
    let (body, block) = split_front_matter(data);
    match block {
        None => Ok((body, None)),
        Some(bl) => match crate::loader::yaml::parse_yaml_value(bl.as_str()) {
            Ok(raw) => {
                proof {
                    crate::value::lemma_canon_wf(raw@);
                }
                match crate::value::canon_value(&raw) {
                    Json::Obj(pairs) => Ok((body, Some(pairs))),
                    _ => Err(
                        GeneratorError::Parse(String::from_str("front matter is not a mapping")),
                    ),
                }
            },
            Err(m) => Err(GeneratorError::Parse(m)),
        },
    }
}

} // verus!
