//! Absolute URLs and reference resolution: the site base name, each
//! page's own URL, and the `absolute_url` / `relative_url` / `active`
//! helpers are all built on this model.
//!
//! A URL is kept in three parts: everything before the path (scheme and
//! authority), the path (always beginning with `/`), and everything
//! after it (query and fragment). Joining a reference onto a base
//! follows the standard resolution steps: scheme-carrying references
//! replace the whole URL, `//` references the authority, `/` references
//! the path, and relative references merge onto the base path with dot
//! segments removed.
//!
//! The join is this module's own, written against an exact model so the
//! resolved locations can be reasoned about; only parsing an absolute
//! URL stays with the outside parser. It deliberately replaces the
//! parser's joining and can differ from it at the edges: most notably,
//! resolved paths are written as given — characters such as spaces are
//! not percent-encoded, and stray tabs or newlines in a reference are
//! not stripped.

use crate::error::GeneratorError;
use crate::generator::{GeneratorContextProvider, Output};
use crate::text;
use vstd::prelude::*;

verus! {

/// An absolute URL, split around its path.
pub struct Url {
    /// Everything before the path: scheme and authority.
    pub prefix: String,
    /// The path; begins with `/`.
    pub path: String,
    /// Everything after the path: query and fragment, possibly empty.
    pub suffix: String,
}

/// The text of a URL kept in three parts.
pub open spec fn url_str(prefix: Seq<char>, path: Seq<char>, suffix: Seq<char>) -> Seq<char> {
    prefix + path + suffix
}

impl Url {
    /// The URL's text.
    pub open spec fn view_str(&self) -> Seq<char> {
        url_str(self.prefix@, self.path@, self.suffix@)
    }

    /// A URL whose path begins with a slash.
    pub open spec fn wf(&self) -> bool {
        self.path@.len() > 0 && self.path@[0] == '/'
    }

    /// The URL written out: prefix, path, then query and fragment.
    pub fn to_text(&self) -> (r: String)
        ensures
            r@ == self.view_str(),
    {
        let mut s = self.prefix.clone();
        s.append(self.path.as_str());
        s.append(self.suffix.as_str());
        s
    }

    /// A copy of the URL.
    pub fn duplicate(&self) -> (r: Url)
        ensures
            r == *self,
    {
        Url { prefix: self.prefix.clone(), path: self.path.clone(), suffix: self.suffix.clone() }
    }

    /// Whether two URLs read the same.
    pub fn same_url(&self, other: &Url) -> (r: bool)
        ensures
            r == (self.view_str() == other.view_str()),
    {
        let a = self.to_text();
        let b = other.to_text();
        text::str_eq(a.as_str(), b.as_str())
    }
}

/// What parsing the text as an absolute URL yields: the part before the
/// path, the (normalized) path, and the part after it; nothing when the
/// text is not an absolute URL.
pub uninterp spec fn url_parse_of(s: Seq<char>) -> Option<(Seq<char>, Seq<char>, Seq<char>)>;

/// Relies on `url::Url::parse` and the `url::Position` indexing: splits
/// an absolute URL at its path; fails exactly when the text does not
/// parse as an absolute URL.
#[verifier::external_body]
fn url_parse_raw(s: &str) -> (r: Option<Url>)
    ensures
        match r {
            Some(u) => url_parse_of(s@) == Some((u.prefix@, u.path@, u.suffix@)),
            None => url_parse_of(s@) is None,
        },
{
    match url::Url::parse(s) {
        Ok(u) => Some(
            Url {
                prefix: u[..url::Position::BeforePath].to_string(),
                path: u[url::Position::BeforePath..url::Position::AfterPath].to_string(),
                suffix: u[url::Position::AfterPath..].to_string(),
            },
        ),
        Err(_) => None,
    }
}

/// Whether the text parses as an absolute URL whose path begins with a
/// slash (as the path of any URL with an authority does).
pub open spec fn parses_as_url(s: Seq<char>) -> bool {
    match url_parse_of(s) {
        Some((_, path, _)) => path.len() > 0 && path[0] == '/',
        None => false,
    }
}

/// Parses an absolute URL. Fails exactly when the text is not an
/// absolute URL, or is one whose path does not begin with a slash
/// (a URL that cannot serve as a page location).
pub fn parse_url(s: &str) -> (r: Result<Url, GeneratorError>)
    ensures
        r matches Ok(u) ==> parses_as_url(s@) && url_parse_of(s@) == Some(
            (u.prefix@, u.path@, u.suffix@),
        ) && u.wf(),
        r matches Err(e) ==> !parses_as_url(s@) && e is Config,
{
    match url_parse_raw(s) {
        Some(u) => {
            let n = u.path.as_str().unicode_len();
            if n > 0 && u.path.as_str().get_char(0) == '/' {
                Ok(u)
            } else {
                Err(GeneratorError::Config(String::from_str("the URL has no usable path")))
            }
        },
        None => Err(GeneratorError::Config(String::from_str("not an absolute URL"))),
    }
}

/// An alphabetic character, as a scheme begins with.
pub open spec fn is_alpha(c: char) -> bool {
    ('a' <= c && c <= 'z') || ('A' <= c && c <= 'Z')
}

/// A character a scheme may contain.
pub open spec fn is_scheme_char(c: char) -> bool {
    is_alpha(c) || ('0' <= c && c <= '9') || c == '+' || c == '-' || c == '.'
}

/// Where the run of scheme characters from `i` ends.
pub open spec fn scheme_run(s: Seq<char>, i: int) -> int
    decreases s.len() - i,
{
    if i < 0 || i >= s.len() {
        s.len() as int
    } else if !is_scheme_char(s[i]) {
        i
    } else {
        scheme_run(s, i + 1)
    }
}

/// Whether the reference carries a scheme: a letter, scheme characters,
/// then `:`, before anything else.
pub open spec fn has_scheme(s: Seq<char>) -> bool {
    s.len() > 0 && is_alpha(s[0]) && scheme_run(s, 0) < s.len() && s[scheme_run(s, 0)] == ':'
}

/// The scheme of a URL prefix: everything before the first `:`.
pub open spec fn scheme_of(prefix: Seq<char>) -> Seq<char> {
    prefix.take(text::first_from(prefix, ':', 0))
}

/// Where the first segment of a path ends: at the separator after the
/// leading one, clamped into the path.
pub open spec fn seg_end(inp: Seq<char>) -> int {
    let e = if inp.len() > 0 && inp[0] == '/' {
        text::first_from(inp, '/', 1)
    } else {
        text::first_from(inp, '/', 0)
    };
    let e1 = if e < 1 {
        1
    } else {
        e
    };
    if e1 > inp.len() {
        inp.len() as int
    } else {
        e1
    }
}

/// The output with its last segment, and the separator before it,
/// removed.
pub open spec fn pop_seg(out: Seq<char>) -> Seq<char> {
    if crate::loader::last_slash_idx(out) < 0 {
        Seq::empty()
    } else {
        out.take(crate::loader::last_slash_idx(out))
    }
}

/// The dot-segment removal of reference resolution: `.` segments
/// vanish, `..` segments swallow the segment before them.
pub open spec fn rds(out: Seq<char>, inp: Seq<char>) -> Seq<char>
    decreases inp.len(),
{
    if inp.len() == 0 {
        out
    } else if inp.len() >= 3 && inp[0] == '.' && inp[1] == '.' && inp[2] == '/' {
        rds(out, inp.skip(3))
    } else if inp.len() >= 2 && inp[0] == '.' && inp[1] == '/' {
        rds(out, inp.skip(2))
    } else if inp.len() >= 4 && inp[0] == '/' && inp[1] == '.' && inp[2] == '.' && inp[3] == '/' {
        rds(pop_seg(out), inp.skip(3))
    } else if inp.len() == 3 && inp[0] == '/' && inp[1] == '.' && inp[2] == '.' {
        rds(pop_seg(out), seq!['/'])
    } else if inp.len() >= 3 && inp[0] == '/' && inp[1] == '.' && inp[2] == '/' {
        rds(out, inp.skip(2))
    } else if inp.len() == 2 && inp[0] == '/' && inp[1] == '.' {
        rds(out, seq!['/'])
    } else if (inp.len() == 1 && inp[0] == '.') || (inp.len() == 2 && inp[0] == '.' && inp[1]
        == '.') {
        out
    } else {
        rds(out + inp.take(seg_end(inp)), inp.skip(seg_end(inp)))
    }
}

/// The path with its dot segments removed.
pub open spec fn remove_dot_segments_spec(p: Seq<char>) -> Seq<char> {
    rds(Seq::empty(), p)
}

/// A reference path merged onto a base path: it replaces everything
/// after the base's last separator.
pub open spec fn merge_paths(base: Seq<char>, rp: Seq<char>) -> Seq<char> {
    if crate::loader::last_slash_idx(base) < 0 {
        rp
    } else {
        base.take(crate::loader::last_slash_idx(base) + 1) + rp
    }
}

/// A reference resolved against a base URL: a scheme-carrying reference
/// replaces the whole URL, `//` keeps only the scheme, a leading `/`
/// replaces the path, an empty reference keeps the base (with a new
/// query or fragment if given), and anything else merges onto the base
/// path; merged and replaced paths have their dot segments removed.
pub open spec fn join_spec(
    prefix: Seq<char>,
    path: Seq<char>,
    suffix: Seq<char>,
    r: Seq<char>,
) -> Option<(Seq<char>, Seq<char>, Seq<char>)> {
    let hash = text::first_from(r, '#', 0);
    let r1 = r.take(hash);
    let frag = r.skip(hash);
    let q = text::first_from(r1, '?', 0);
    let rp = r1.take(q);
    let query = r1.skip(q);
    if has_scheme(rp) {
        url_parse_of(r)
    } else if rp.len() >= 2 && rp[0] == '/' && rp[1] == '/' {
        url_parse_of(scheme_of(prefix) + seq![':'] + r)
    } else if rp.len() > 0 && rp[0] == '/' {
        Some((prefix, remove_dot_segments_spec(rp), query + frag))
    } else if rp.len() == 0 {
        if query.len() > 0 {
            Some((prefix, path, query + frag))
        } else {
            Some((prefix, path, suffix.take(text::first_from(suffix, '#', 0)) + frag))
        }
    } else {
        Some((prefix, remove_dot_segments_spec(merge_paths(path, rp)), query + frag))
    }
}

/// The characters from `from` (inclusive) to `to` (exclusive).
fn sub_chars(v: &Vec<char>, from: usize, to: usize) -> (r: Vec<char>)
    requires
        from <= to <= v@.len(),
    ensures
        r@ == v@.subrange(from as int, to as int),
{
    vstd::slice::slice_to_vec(vstd::slice::slice_subrange(v.as_slice(), from, to))
}

/// Drops the last segment of the output buffer, with the separator
/// before it.
fn pop_seg_exec(out: &mut Vec<char>)
    ensures
        final(out)@ == pop_seg(old(out)@),
{
    match crate::loader::rfind_slash(out) {
        Some(i) => {
            out.truncate(i);
        },
        None => {
            out.clear();
            proof {
                assert(out@ =~= pop_seg(old(out)@));
            }
        },
    }
}

/// Removes the dot segments of a path.
#[verifier::loop_isolation(false)]
pub fn remove_dot_segments(p: &Vec<char>) -> (r: Vec<char>)
    ensures
        r@ == remove_dot_segments_spec(p@),
{
    let mut out: Vec<char> = Vec::new();
    let mut inp: Vec<char> = sub_chars(p, 0, p.len());
    proof {
        assert(inp@ =~= p@);
    }
    loop
        invariant
            rds(Seq::empty(), p@) == rds(out@, inp@),
        decreases inp@.len(),
    {
        let ghost inp0 = inp@;
        let ghost out0 = out@;
        let n = inp.len();
        if n == 0 {
            break ;
        }
        if n >= 3 && inp[0] == '.' && inp[1] == '.' && inp[2] == '/' {
            inp = sub_chars(&inp, 3, n);
            proof {
                assert(inp@ =~= inp0.skip(3));
            }
        } else if n >= 2 && inp[0] == '.' && inp[1] == '/' {
            inp = sub_chars(&inp, 2, n);
            proof {
                assert(inp@ =~= inp0.skip(2));
            }
        } else if n >= 4 && inp[0] == '/' && inp[1] == '.' && inp[2] == '.' && inp[3] == '/' {
            pop_seg_exec(&mut out);
            inp = sub_chars(&inp, 3, n);
            proof {
                assert(inp@ =~= inp0.skip(3));
            }
        } else if n == 3 && inp[0] == '/' && inp[1] == '.' && inp[2] == '.' {
            pop_seg_exec(&mut out);
            let mut v: Vec<char> = Vec::new();
            v.push('/');
            inp = v;
            proof {
                assert(inp@ =~= seq!['/']);
            }
        } else if n >= 3 && inp[0] == '/' && inp[1] == '.' && inp[2] == '/' {
            inp = sub_chars(&inp, 2, n);
            proof {
                assert(inp@ =~= inp0.skip(2));
            }
        } else if n == 2 && inp[0] == '/' && inp[1] == '.' {
            let mut v: Vec<char> = Vec::new();
            v.push('/');
            inp = v;
            proof {
                assert(inp@ =~= seq!['/']);
            }
        } else if (n == 1 && inp[0] == '.') || (n == 2 && inp[0] == '.' && inp[1] == '.') {
            inp = Vec::new();
            proof {
                assert(rds(out0, inp0) == out@);
                assert(rds(out@, inp@) == out@);
            }
        } else {
            let e0 = if inp[0] == '/' {
                text::find_char_from(&inp, 1, '/')
            } else {
                text::find_char_from(&inp, 0, '/')
            };
            proof {
                if inp0[0] != '/' && e0 == 0 {
                    assert(inp0[0] == '/');
                }
                assert(e0 as int == seg_end(inp0));
            }
            let seg = vstd::slice::slice_subrange(inp.as_slice(), 0, e0);
            out.extend_from_slice(seg);
            proof {
                assert(out@ =~= out0 + inp0.take(e0 as int));
            }
            inp = sub_chars(&inp, e0, n);
            proof {
                assert(inp@ =~= inp0.skip(e0 as int));
            }
        }
    }
    out
}


/// A run of scheme characters ended by something else (or the end) is
/// what `scheme_run` finds.
proof fn lemma_scheme_run_at(s: Seq<char>, i: int, at: int)
    requires
        0 <= i <= at <= s.len(),
        forall|k: int| i <= k < at ==> is_scheme_char(#[trigger] s[k]),
        at < s.len() ==> !is_scheme_char(s[at]),
    ensures
        scheme_run(s, i) == at,
    decreases at - i,
{
    if i < at {
        lemma_scheme_run_at(s, i + 1, at);
    }
}

/// Whether the character may appear in a scheme.
fn is_scheme_char_exec(c: char) -> (r: bool)
    ensures
        r == is_scheme_char(c),
{
    ('a' <= c && c <= 'z') || ('A' <= c && c <= 'Z') || ('0' <= c && c <= '9') || c == '+' || c
        == '-' || c == '.'
}

/// Resolves a reference against this base URL. Fails exactly when the
/// reference replaces scheme or authority and the rebuilt text is not
/// an absolute URL.
#[verifier::loop_isolation(false)]
pub fn join(base: &Url, reference: &str) -> (r: Result<Url, GeneratorError>)
    ensures
        r matches Ok(u) ==> join_spec(base.prefix@, base.path@, base.suffix@, reference@) == Some(
            (u.prefix@, u.path@, u.suffix@),
        ),
        r matches Err(e) ==> join_spec(base.prefix@, base.path@, base.suffix@, reference@) is None
            && e is Config,
{
    let rcs = text::str_chars(reference);
    let n = rcs.len();
    let hash = text::find_char_from(&rcs, 0, '#');
    let r1 = sub_chars(&rcs, 0, hash);
    let frag = sub_chars(&rcs, hash, n);
    proof {
        assert(r1@ =~= reference@.take(hash as int));
        assert(frag@ =~= reference@.skip(hash as int));
    }
    let q = text::find_char_from(&r1, 0, '?');
    let rp = sub_chars(&r1, 0, q);
    let query = sub_chars(&r1, q, r1.len());
    proof {
        assert(rp@ =~= r1@.take(q as int));
        assert(query@ =~= r1@.skip(q as int));
    }
    // does the reference carry a scheme?
    let m = rp.len();
    let mut i: usize = 0;
    while i < m && is_scheme_char_exec(rp[i])
        invariant
            0 <= i <= m,
            m == rp@.len(),
            forall|k: int| 0 <= k < i ==> is_scheme_char(#[trigger] rp@[k]),
        decreases m - i,
    {
        i += 1;
    }
    proof {
        lemma_scheme_run_at(rp@, 0, i as int);
    }
    let first_alpha = m > 0 && (('a' <= rp[0] && rp[0] <= 'z') || ('A' <= rp[0] && rp[0] <= 'Z'));
    if first_alpha && i < m && rp[i] == ':' {
        // an absolute reference of its own
        match url_parse_raw(reference) {
            Some(u) => Ok(u),
            None => Err(GeneratorError::Config(String::from_str("cannot resolve the reference"))),
        }
    } else if m >= 2 && rp[0] == '/' && rp[1] == '/' {
        // a network reference: keep only the base's scheme
        let pcs = text::str_chars(base.prefix.as_str());
        let ci = text::find_char_from(&pcs, 0, ':');
        let mut s: Vec<char> = sub_chars(&pcs, 0, ci);
        proof {
            assert(s@ =~= scheme_of(base.prefix@));
        }
        s.push(':');
        let ghost mid = s@;
        let mut k: usize = 0;
        while k < n
            invariant
                0 <= k <= n,
                n == rcs@.len(),
                rcs@ == reference@,
                s@ == mid + reference@.take(k as int),
            decreases n - k,
        {
            s.push(rcs[k]);
            k += 1;
            proof {
                assert(mid + reference@.take(k as int) =~= (mid + reference@.take(k - 1)).push(
                    reference@[k - 1],
                ));
            }
        }
        proof {
            assert(reference@.take(n as int) =~= reference@);
            assert(s@ =~= scheme_of(base.prefix@) + seq![':'] + reference@);
        }
        let st = text::chars_string(s.as_slice());
        match url_parse_raw(st.as_str()) {
            Some(u) => Ok(u),
            None => Err(GeneratorError::Config(String::from_str("cannot resolve the reference"))),
        }
    } else if m > 0 && rp[0] == '/' {
        // an absolute path: replaces the base path
        let np = remove_dot_segments(&rp);
        let mut sfx = query;
        sfx.append(&mut frag.clone());
        proof {
            assert(sfx@ =~= r1@.skip(q as int) + reference@.skip(hash as int));
        }
        Ok(
            Url {
                prefix: base.prefix.clone(),
                path: text::chars_string(np.as_slice()),
                suffix: text::chars_string(sfx.as_slice()),
            },
        )
    } else if m == 0 {
        if query.len() > 0 {
            let mut sfx = query;
            sfx.append(&mut frag.clone());
            Ok(
                Url {
                    prefix: base.prefix.clone(),
                    path: base.path.clone(),
                    suffix: text::chars_string(sfx.as_slice()),
                },
            )
        } else {
            let scs = text::str_chars(base.suffix.as_str());
            let h2 = text::find_char_from(&scs, 0, '#');
            let mut sfx = sub_chars(&scs, 0, h2);
            sfx.append(&mut frag.clone());
            proof {
                assert(sfx@ =~= base.suffix@.take(h2 as int) + reference@.skip(hash as int));
            }
            Ok(
                Url {
                    prefix: base.prefix.clone(),
                    path: base.path.clone(),
                    suffix: text::chars_string(sfx.as_slice()),
                },
            )
        }
    } else {
        // a relative path: merge onto the base path
        let bcs = text::str_chars(base.path.as_str());
        let merged: Vec<char> = match crate::loader::rfind_slash(&bcs) {
            Some(si) => {
                let mut v = sub_chars(&bcs, 0, si + 1);
                v.append(&mut rp.clone());
                proof {
                    assert(v@ =~= merge_paths(base.path@, rp@));
                }
                v
            },
            None => {
                proof {
                    assert(rp@ =~= merge_paths(base.path@, rp@));
                }
                rp
            },
        };
        let np = remove_dot_segments(&merged);
        let mut sfx = query;
        sfx.append(&mut frag.clone());
        Ok(
            Url {
                prefix: base.prefix.clone(),
                path: text::chars_string(np.as_slice()),
                suffix: text::chars_string(sfx.as_slice()),
            },
        )
    }
}

/// What `full_url_for` resolves: the path joined onto the base, a
/// leading slash first stripped (an absolute path is still a location
/// under the site base).
pub open spec fn full_url_for_spec(
    prefix: Seq<char>,
    path: Seq<char>,
    suffix: Seq<char>,
    p: Seq<char>,
) -> Option<(Seq<char>, Seq<char>, Seq<char>)> {
    let stripped = if p.len() > 0 && p[0] == '/' {
        p.skip(1)
    } else {
        p
    };
    join_spec(prefix, path, suffix, stripped)
}

/// The site-relative path resolved under the base URL: a leading slash
/// is stripped first, so an absolute path stays within the site.
pub fn full_url_for(basename: &Url, path: &str) -> (r: Result<Url, GeneratorError>)
    ensures
        r matches Ok(u) ==> full_url_for_spec(basename.prefix@, basename.path@, basename.suffix@, path@)
            == Some((u.prefix@, u.path@, u.suffix@)),
        r matches Err(e) ==> full_url_for_spec(basename.prefix@, basename.path@, basename.suffix@, path@)
            is None && e is Config,
{
    let pcs = text::str_chars(path);
    if pcs.len() > 0 && pcs[0] == '/' {
        let rest = sub_chars(&pcs, 1, pcs.len());
        proof {
            assert(rest@ =~= path@.skip(1));
        }
        let rs = text::chars_string(rest.as_slice());
        join(basename, rs.as_str())
    } else {
        join(basename, path)
    }
}

/// What a reference resolves to on a page: against the page's own URL
/// when relative, against the site base when absolute; the empty
/// reference is the page itself.
pub open spec fn full_url_from_spec(
    url: Seq<char>,
    site_url: Seq<char>,
    path: Seq<char>,
) -> Option<(Seq<char>, Seq<char>, Seq<char>)> {
    match url_parse_of(site_url) {
        None => None,
        Some((pr, pa, sx)) => if !(pa.len() > 0 && pa[0] == '/') {
            None
        } else if url.len() == 0 {
            join_spec(pr, pa, sx, path)
        } else if url[0] != '/' {
            match join_spec(pr, pa, sx, path) {
                Some((p2, a2, s2)) => join_spec(p2, a2, s2, url),
                None => None,
            }
        } else {
            join_spec(pr, pa, sx, url.skip(1))
        },
    }
}

/// Resolves a reference for the given page: an empty reference is the
/// page itself, a relative one is taken from the page's URL, and an
/// absolute one from the site base. Fails exactly when the page's site
/// base does not parse or the resolution does not.
pub fn full_url_from(url: &str, output: &Output) -> (r: Result<Url, GeneratorError>)
    ensures
        r matches Ok(u) ==> full_url_from_spec(url@, output.site_url@, output.path@) == Some(
            (u.prefix@, u.path@, u.suffix@),
        ),
        r matches Err(_) ==> full_url_from_spec(url@, output.site_url@, output.path@) is None,
{
    let base = match parse_url(output.site_url.as_str()) {
        Ok(u) => u,
        Err(e) => {
            return Err(e);
        },
    };
    let ucs = text::str_chars(url);
    if ucs.len() == 0 {
        join(&base, output.path.as_str())
    } else if ucs[0] != '/' {
        let page = match join(&base, output.path.as_str()) {
            Ok(u) => u,
            Err(e) => {
                return Err(e);
            },
        };
        join(&page, url)
    } else {
        let rest = sub_chars(&ucs, 1, ucs.len());
        proof {
            assert(rest@ =~= url@.skip(1));
        }
        let rs = text::chars_string(rest.as_slice());
        join(&base, rs.as_str())
    }
}

/// What the `absolute_url` helper writes: the reference resolved for
/// the page, written in full.
pub open spec fn absolute_url_spec(url: Seq<char>, site_url: Seq<char>, path: Seq<char>) -> Option<
    Seq<char>,
> {
    match full_url_from_spec(url, site_url, path) {
        Some((p, a, x)) => Some(url_str(p, a, x)),
        None => None,
    }
}

/// What the `relative_url` helper writes: a reference that is itself an
/// absolute URL is written as parsed; anything else resolves for the
/// page and only the path is written.
pub open spec fn relative_url_spec(url: Seq<char>, site_url: Seq<char>, path: Seq<char>) -> Option<
    Seq<char>,
> {
    match url_parse_of(url) {
        Some((p, a, x)) => Some(url_str(p, a, x)),
        None => match full_url_from_spec(url, site_url, path) {
            Some((_, a, _)) => Some(a),
            None => None,
        },
    }
}

/// Whether the `active` helper fires: the checked target — with
/// `index.html` appended to a trailing slash — resolves to the very URL
/// of the page being rendered.
pub open spec fn active_spec(target: Seq<char>, site_url: Seq<char>, path: Seq<char>) -> Option<
    bool,
> {
    let t = if target.len() > 0 && target.last() == '/' {
        target + seq!['i', 'n', 'd', 'e', 'x', '.', 'h', 't', 'm', 'l']
    } else {
        target
    };
    match (full_url_from_spec(t, site_url, path), full_url_from_spec(
        Seq::<char>::empty(),
        site_url,
        path,
    )) {
        (Some((cp, ca, cx)), Some((pp, pa, px))) => Some(
            url_str(cp, ca, cx) == url_str(pp, pa, px),
        ),
        _ => None,
    }
}

/// Writes the `absolute_url` helper's text for the given page.
pub fn absolute_url_value(url: &str, output: &Output) -> (r: Result<String, GeneratorError>)
    ensures
        r matches Ok(s) ==> absolute_url_spec(url@, output.site_url@, output.path@) == Some(s@),
        r matches Err(_) ==> absolute_url_spec(url@, output.site_url@, output.path@) is None,
{
    match full_url_from(url, output) {
        Ok(u) => Ok(u.to_text()),
        Err(e) => Err(e),
    }
}

/// Writes the `relative_url` helper's text for the given page.
pub fn relative_url_value(url: &str, output: &Output) -> (r: Result<String, GeneratorError>)
    ensures
        r matches Ok(s) ==> relative_url_spec(url@, output.site_url@, output.path@) == Some(s@),
        r matches Err(_) ==> relative_url_spec(url@, output.site_url@, output.path@) is None,
{
    match url_parse_raw(url) {
        Some(u) => Ok(u.to_text()),
        None => match full_url_from(url, output) {
            Ok(u) => Ok(u.path),
            Err(e) => Err(e),
        },
    }
}

/// Decides the `active` helper for the given page.
pub fn active_value(target: &str, output: &Output) -> (r: Result<bool, GeneratorError>)
    ensures
        r matches Ok(b) ==> active_spec(target@, output.site_url@, output.path@) == Some(b),
        r matches Err(_) ==> active_spec(target@, output.site_url@, output.path@) is None,
{
    let tcs = text::str_chars(target);
    let n = tcs.len();
    let t: String = if n > 0 && tcs[n - 1] == '/' {
        let mut s = target.to_owned();
        s.append("index.html");
        proof {
            reveal_strlit("index.html");
            assert("index.html"@ =~= seq!['i', 'n', 'd', 'e', 'x', '.', 'h', 't', 'm', 'l']);
        }
        s
    } else {
        target.to_owned()
    };
    let check = match full_url_from(t.as_str(), output) {
        Ok(u) => u,
        Err(e) => {
            return Err(e);
        },
    };
    proof {
        reveal_strlit("");
        assert(""@ =~= Seq::<char>::empty());
    }
    let page = match full_url_from("", output) {
        Ok(u) => u,
        Err(e) => {
            return Err(e);
        },
    };
    Ok(check.same_url(&page))
}

/// The `absolute_url` helper: writes a reference resolved for the page
/// being rendered, in full.
pub struct AbsoluteUrlHelper {
    /// The slot naming the page being rendered.
    pub context: GeneratorContextProvider,
}

impl AbsoluteUrlHelper {
    /// The helper's output for one reference. May only be called while
    /// a render is in progress.
    pub fn value(&self, url: &str) -> (r: Result<String, GeneratorError>)
        requires
            self.context.current is Some,
        ensures
            r matches Ok(s) ==> absolute_url_spec(
                url@,
                self.context.current->Some_0.output.site_url@,
                self.context.current->Some_0.output.path@,
            ) == Some(s@),
    {
        match &self.context.current {
            Some(c) => absolute_url_value(url, &c.output),
            None => Err(GeneratorError::Render(String::from_str("no render in progress"))),
        }
    }
}

/// The `relative_url` helper: writes a reference resolved for the page
/// being rendered, as a site-rooted path.
pub struct RelativeUrlHelper {
    /// The slot naming the page being rendered.
    pub context: GeneratorContextProvider,
}

impl RelativeUrlHelper {
    /// The helper's output for one reference. May only be called while
    /// a render is in progress.
    pub fn value(&self, url: &str) -> (r: Result<String, GeneratorError>)
        requires
            self.context.current is Some,
        ensures
            r matches Ok(s) ==> relative_url_spec(
                url@,
                self.context.current->Some_0.output.site_url@,
                self.context.current->Some_0.output.path@,
            ) == Some(s@),
    {
        match &self.context.current {
            Some(c) => relative_url_value(url, &c.output),
            None => Err(GeneratorError::Render(String::from_str("no render in progress"))),
        }
    }
}

/// The `active` helper: renders its block (or writes `active`) when the
/// checked target is the page being rendered.
pub struct ActiveHelper {
    /// The slot naming the page being rendered.
    pub context: GeneratorContextProvider,
}

impl ActiveHelper {
    /// Whether the target is the page being rendered. May only be
    /// called while a render is in progress.
    pub fn check(&self, target: &str) -> (r: Result<bool, GeneratorError>)
        requires
            self.context.current is Some,
        ensures
            r matches Ok(b) ==> active_spec(
                target@,
                self.context.current->Some_0.output.site_url@,
                self.context.current->Some_0.output.path@,
            ) == Some(b),
    {
        match &self.context.current {
            Some(c) => active_value(target, &c.output),
            None => Err(GeneratorError::Render(String::from_str("no render in progress"))),
        }
    }
}

} // verus!
