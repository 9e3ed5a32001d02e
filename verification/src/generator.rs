//! The build orchestration: output descriptors, the generator
//! configuration, the per-page render context, and the path and data
//! computations every rendered page goes through.

use crate::error::GeneratorError;
use crate::helper::url::{
    full_url_for, full_url_for_spec, parses_as_url, url_parse_of, url_str, Url,
};
use crate::interop::{render_registered, render_template};
use crate::rules::Rule;
use crate::text;
use crate::value::{
    arr_view, obj_insert, obj_insert_spec, obj_lookup, pairs_view, Json, ValView,
};
use vstd::prelude::*;

verus! {

/// A backslash read as a path separator.
pub open spec fn norm_slash(c: char) -> char {
    if c == '\\' {
        '/'
    } else {
        c
    }
}

/// The normal form of an output path: backslashes become forward
/// slashes, a run of slashes collapses to one, no leading slash remains.
pub open spec fn normalize_path_spec(s: Seq<char>) -> Seq<char>
    decreases s.len(),
{
    if s.len() == 0 {
        Seq::empty()
    } else {
        let prefix = normalize_path_spec(s.drop_last());
        let c = norm_slash(s.last());
        if c == '/' && (prefix.len() == 0 || prefix.last() == '/') {
            prefix
        } else {
            prefix.push(c)
        }
    }
}

/// The shape of a normalized path: no backslash, no leading slash, no
/// two adjacent slashes.
pub open spec fn path_normalized(s: Seq<char>) -> bool {
    (forall|i: int| 0 <= i < s.len() ==> s[i] != '\\') && (s.len() > 0 ==> s[0] != '/') && (forall|
        i: int,
    |
        0 < i < s.len() ==> !(#[trigger] s[i] == '/' && s[i - 1] == '/'))
}

/// Normalizing yields a normalized path.
pub proof fn lemma_normalize_shape(s: Seq<char>)
    ensures
        path_normalized(normalize_path_spec(s)),
    decreases s.len(),
{
    if s.len() > 0 {
        lemma_normalize_shape(s.drop_last());
        let prefix = normalize_path_spec(s.drop_last());
        let c = norm_slash(s.last());
        if c == '/' && (prefix.len() == 0 || prefix.last() == '/') {
        } else {
            let r = prefix.push(c);
            assert forall|i: int| 0 <= i < r.len() implies r[i] != '\\' by {
                if i < prefix.len() {
                    assert(r[i] == prefix[i]);
                }
            }
            assert forall|i: int| 0 < i < r.len() implies !(#[trigger] r[i] == '/' && r[i - 1]
                == '/') by {
                if i < prefix.len() {
                    assert(r[i] == prefix[i] && r[i - 1] == prefix[i - 1]);
                } else {
                    assert(i == prefix.len());
                    if prefix.len() > 0 {
                        assert(r[i - 1] == prefix.last());
                    }
                }
            }
        }
    }
}

/// A normalized path is already in normal form.
pub proof fn lemma_normalize_fixed(s: Seq<char>)
    requires
        path_normalized(s),
    ensures
        normalize_path_spec(s) == s,
    decreases s.len(),
{
    if s.len() == 0 {
        assert(normalize_path_spec(s) =~= s);
    } else {
        let head = s.drop_last();
        assert(path_normalized(head)) by {
            assert(forall|i: int| 0 <= i < head.len() ==> head[i] == s[i]);
        }
        lemma_normalize_fixed(head);
        let c = s.last();
        assert(c != '\\');
        if c == '/' {
            if head.len() == 0 {
                assert(s[0] == '/');
                assert(false);
            }
            assert(head.last() == s[s.len() - 2]);
            assert(!(s[s.len() - 1] == '/' && s[s.len() - 2] == '/'));
            assert(head.last() != '/');
        }
        assert(head.push(c) =~= s);
    }
}

/// Normalizing a path is idempotent, and its result holds no backslash,
/// no run of slashes, and no leading slash.
pub proof fn lemma_normalize_path_idempotent(s: Seq<char>)
    ensures
        normalize_path_spec(normalize_path_spec(s)) == normalize_path_spec(s),
        path_normalized(normalize_path_spec(s)),
{
    lemma_normalize_shape(s);
    lemma_normalize_fixed(normalize_path_spec(s));
}

/// Normalizes an output path: backslashes become forward slashes, runs
/// of slashes collapse to one, and no leading slash remains.
#[verifier::loop_isolation(false)]
pub fn normalize_path(path: &str) -> (r: String)
    ensures
        r@ == normalize_path_spec(path@),
{
    let cs = text::str_chars(path);
    let n = cs.len();
    let mut out: Vec<char> = Vec::new();
    proof {
        assert(path@.take(0) =~= Seq::<char>::empty());
    }
    for i in 0..n
        invariant
            n == path@.len(),
            cs@ == path@,
            out@ == normalize_path_spec(path@.take(i as int)),
    {
        proof {
            assert(path@.take(i + 1).drop_last() =~= path@.take(i as int));
            assert(path@.take(i + 1).last() == path@[i as int]);
        }
        let c0 = cs[i];
        let c = if c0 == '\\' {
            '/'
        } else {
            c0
        };
        if c == '/' && (out.len() == 0 || out[out.len() - 1] == '/') {
        } else {
            out.push(c);
        }
    }
    proof {
        assert(path@.take(n as int) =~= path@);
    }
    text::chars_string(out.as_slice())
}

/// The text with a trailing slash, added when it is missing.
pub open spec fn with_trailing_slash(s: Seq<char>) -> Seq<char> {
    if s.len() > 0 && s.last() == '/' {
        s
    } else {
        s.push('/')
    }
}

/// Appends a trailing slash when the text has none.
pub fn ensure_trailing_slash(s: &str) -> (r: String)
    ensures
        r@ == with_trailing_slash(s@),
{
    let cs = text::str_chars(s);
    let n = cs.len();
    if n > 0 && cs[n - 1] == '/' {
        s.to_owned()
    } else {
        let mut r = s.to_owned();
        text::push_char(&mut r, '/');
        r
    }
}

/// Whether a URL path names the directory index file.
pub open spec fn ends_with_index_html(path: Seq<char>) -> bool {
    path.len() >= 11 && path.skip(path.len() - 11) == seq![
        '/',
        'i',
        'n',
        'd',
        'e',
        'x',
        '.',
        'h',
        't',
        'm',
        'l',
    ]
}

/// A URL path with a trailing `index.html` segment collapsed to the
/// trailing slash.
pub open spec fn strip_index_html(path: Seq<char>) -> Seq<char> {
    if ends_with_index_html(path) {
        path.take(path.len() - 10)
    } else {
        path
    }
}

/// What an output descriptor holds for a site base and an output path:
/// the base with a trailing slash, the normalized path, and the page's
/// URL — the path resolved under the base, a trailing `index.html`
/// collapsed to its slash. Nothing when the base is no absolute URL.
pub open spec fn output_spec(site_url: Seq<char>, path: Seq<char>) -> Option<
    (Seq<char>, Seq<char>, Seq<char>),
> {
    let su = with_trailing_slash(site_url);
    match url_parse_of(su) {
        None => None,
        Some((pr, pa, sx)) => if !(pa.len() > 0 && pa[0] == '/') {
            None
        } else {
            let np = normalize_path_spec(path);
            match full_url_for_spec(pr, pa, sx, np) {
                None => None,
                Some((p2, a2, s2)) => Some((su, np, url_str(p2, strip_index_html(a2), s2))),
            }
        },
    }
}

/// What one rendered page is: where it goes, under which site base,
/// through which template, and the URL it is served at.
pub struct Output {
    /// The output file's site-relative, normalized path.
    pub path: String,
    /// The site base URL, with a trailing slash.
    pub site_url: String,
    /// The template the page renders through, if a named one.
    pub template: Option<String>,
    /// The page's absolute URL; a page named `index.html` is served at
    /// its directory's URL.
    pub url: String,
}

impl Output {
    /// The descriptor for one output path under a site base: the path
    /// is normalized, and the page URL is the path resolved under the
    /// base with a trailing `index.html` collapsed to a slash. Fails
    /// exactly when the base (with a trailing slash appended as needed)
    /// is not an absolute URL.
    pub fn new(site_url: &str, path: &str, template: Option<&str>) -> (r: Result<
        Output,
        GeneratorError,
    >)
        ensures
            r matches Ok(o) ==> {
                &&& output_spec(site_url@, path@) == Some((o.site_url@, o.path@, o.url@))
                &&& match (o.template, template) {
                    (Some(t), Some(t0)) => t@ == t0@,
                    (None, None) => true,
                    _ => false,
                }
            },
            r matches Err(_) ==> output_spec(site_url@, path@) is None,
    {
        let site = ensure_trailing_slash(site_url);
        let base = match crate::helper::url::parse_url(site.as_str()) {
            Ok(u) => u,
            Err(e) => {
                return Err(e);
            },
        };
        let npath = normalize_path(path);
        let mut url = match full_url_for(&base, npath.as_str()) {
            Ok(u) => u,
            Err(e) => {
                return Err(e);
            },
        };
        // serve a directory's index page at the directory's URL
        let ucs = text::str_chars(url.path.as_str());
        let n = ucs.len();
        let is_index = if n >= 11 {
            let tail = text::chars_string(
                vstd::slice::slice_subrange(ucs.as_slice(), n - 11, n),
            );
            proof {
                reveal_strlit("/index.html");
                assert("/index.html"@ =~= seq![
                    '/',
                    'i',
                    'n',
                    'd',
                    'e',
                    'x',
                    '.',
                    'h',
                    't',
                    'm',
                    'l',
                ]);
            }
            text::str_eq(tail.as_str(), "/index.html")
        } else {
            false
        };
        if is_index {
            let kept = text::chars_string(
                vstd::slice::slice_subrange(ucs.as_slice(), 0, n - 10),
            );
            proof {
                assert(kept@ =~= strip_index_html(url.path@));
            }
            url = Url { prefix: url.prefix, path: kept, suffix: url.suffix };
        } else {
            proof {
                assert(strip_index_html(url.path@) == url.path@);
            }
        }
        let urltext = url.to_text();
        Ok(
            Output {
                path: npath,
                site_url: site,
                template: match template {
                    Some(t) => Some(t.to_owned()),
                    None => None,
                },
                url: urltext,
            },
        )
    }

    /// A copy of the descriptor.
    pub fn duplicate(&self) -> (r: Output)
        ensures
            r == *self,
    {
        Output {
            path: self.path.clone(),
            site_url: self.site_url.clone(),
            template: match &self.template {
                Some(t) => Some(t.clone()),
                None => None,
            },
            url: self.url.clone(),
        }
    }
}

/// The command-line surface: what the caller may override.
pub struct Options {
    /// Overrides the configured base name of the site.
    pub basename: Option<String>,
    /// The root of the site; the working directory when unset.
    pub root: Option<String>,
    /// Whether the loaded content trees are dumped alongside the output.
    pub dump: bool,
}

/// The fixed facts of one run: the site root, the output directory, and
/// the base URL everything is served under.
pub struct GeneratorConfig {
    /// The site root directory.
    pub root: String,
    /// The output directory.
    pub output: String,
    /// The base URL, parsed.
    pub basename: Url,
}

impl GeneratorConfig {
    /// A copy of the configuration.
    pub fn duplicate(&self) -> (r: GeneratorConfig)
        ensures
            r == *self,
    {
        GeneratorConfig {
            root: self.root.clone(),
            output: self.output.clone(),
            basename: self.basename.duplicate(),
        }
    }
}

/// What the URL helpers need to know while one page renders: the run's
/// configuration and the page's output descriptor.
pub struct GeneratorContext {
    /// The run's fixed configuration.
    pub config: GeneratorConfig,
    /// The descriptor of the page being rendered.
    pub output: Output,
}

impl GeneratorContext {
    /// The context for one page render.
    pub fn new(config: &GeneratorConfig, output: &Output) -> (r: GeneratorContext)
        ensures
            r.config == *config,
            r.output == *output,
    {
        GeneratorContext { config: config.duplicate(), output: output.duplicate() }
    }
}

/// The one shared, mutable slot of the pipeline: which page is being
/// rendered right now. It is set immediately before a page renders and
/// cleared immediately after, on every path out.
pub struct GeneratorContextProvider {
    /// The context of the render in progress, if one is.
    pub current: Option<GeneratorContext>,
}

impl GeneratorContextProvider {
    /// An empty slot: no render is in progress.
    pub fn new() -> (r: GeneratorContextProvider)
        ensures
            r.current is None,
    {
        GeneratorContextProvider { current: None }
    }

    /// Publishes the context of the page about to render.
    pub fn set(&mut self, ctx: GeneratorContext)
        ensures
            final(self).current == Some(ctx),
    {
        self.current = Some(ctx);
    }

    /// Clears the slot once the page has rendered.
    pub fn clear(&mut self)
        ensures
            final(self).current is None,
    {
        self.current = None;
    }

    /// Hands the current context to the given function. May only be
    /// called while a render is in progress.
    pub fn with<T, F: FnOnce(&GeneratorContext) -> Result<T, GeneratorError>>(
        &self,
        func: F,
    ) -> (r: Result<T, GeneratorError>)
        requires
            self.current is Some,
            call_requires(func, (&self.current->Some_0,)),
        ensures
            call_ensures(func, (&self.current->Some_0,), r),
    {
        match &self.current {
            Some(c) => func(c),
            None => {
                proof {
                    assert(false);
                }
                Err(GeneratorError::Error(String::new()))
            },
        }
    }
}

/// The compact view of an object's entries: each child compacted, a
/// child without content dropped.
pub open spec fn compact_entries(entries: Seq<(Seq<char>, ValView)>) -> Seq<(Seq<char>, ValView)>
    decreases entries,
{
    if entries.len() == 0 {
        Seq::empty()
    } else {
        compact_entries(entries.drop_last()) + (match compact_spec(entries.last().1) {
            Some(x) => seq![(entries.last().0, x)],
            None => Seq::empty(),
        })
    }
}

/// The compact view of an object: decided by its `content` entry.
pub open spec fn compact_of_obj(pairs: Seq<(Seq<char>, ValView)>) -> Option<ValView>
    decreases pairs,
{
    if pairs.len() == 0 {
        None
    } else if pairs.last().0 == "content"@ {
        match pairs.last().1 {
            ValView::Obj(centries) => Some(ValView::Obj(compact_entries(centries))),
            x => Some(x),
        }
    } else {
        compact_of_obj(pairs.drop_last())
    }
}

/// The compact view of the content tree: every `metadata`/`frontMatter`
/// wrapper dropped, keeping only the nested `content` at each level; an
/// object without a `content` entry vanishes.
pub open spec fn compact_spec(v: ValView) -> Option<ValView>
    decreases v,
{
    match v {
        ValView::Obj(pairs) => compact_of_obj(pairs),
        _ => Some(v),
    }
}

/// Computes the compact view of a content tree.
#[verifier::loop_isolation(false)]
pub fn compact_content(v: &Json) -> (r: Option<Json>)
    ensures
        match r {
            Some(c) => compact_spec(v@) == Some(c@),
            None => compact_spec(v@) is None,
        },
    decreases v,
{
    match v {
        Json::Obj(pairs) => {
            // the (sole) `content` entry, scanned from the back
            let n = pairs.len();
            proof {
                assert(pairs_view(pairs@).take(n as int) =~= pairs_view(pairs@));
            }
            let mut j = n;
            while j > 0
                invariant
                    0 <= j <= n,
                    n == pairs@.len(),
                    compact_of_obj(pairs_view(pairs@)) == compact_of_obj(
                        pairs_view(pairs@).take(j as int),
                    ),
                decreases j,
            {
                let ghost pv = pairs_view(pairs@);
                proof {
                    assert(pv.take(j as int).drop_last() =~= pv.take(j - 1));
                    assert(pv.take(j as int).last() == pv[j - 1]);
                }
                proof {
                    reveal_strlit("content");
                }
                if text::str_eq(pairs[j - 1].0.as_str(), "content") {
                    // compact this entry's value
                    let c = &pairs[j - 1].1;
                    match c {
                        Json::Obj(centries) => {
                            let mut out: Vec<(String, Json)> = Vec::new();
                            let m = centries.len();
                            proof {
                                assert(pairs_view(out@) =~= compact_entries(
                                    pairs_view(centries@).take(0),
                                ));
                            }
                            let mut i: usize = 0;
                            while i < m
                                invariant
                                    0 <= i <= m,
                                    m == centries@.len(),
                                    pairs_view(out@) == compact_entries(
                                        pairs_view(centries@).take(i as int),
                                    ),
                                decreases m - i,
                            {
                                let ghost cv = pairs_view(centries@);
                                proof {
                                    assert(cv.take(i + 1).drop_last() =~= cv.take(i as int));
                                    assert(cv.take(i + 1).last() == cv[i as int]);
                                }
                                match compact_content(&centries[i].1) {
                                    Some(x) => {
                                        let key = centries[i].0.clone();
                                        out.push((key, x));
                                        proof {
                                            assert(pairs_view(out@) =~= compact_entries(
                                                cv.take(i as int),
                                            ) + seq![(cv[i as int].0, x@)]);
                                        }
                                    },
                                    None => {
                                        proof {
                                            assert(pairs_view(out@) =~= compact_entries(
                                                cv.take(i + 1),
                                            ));
                                        }
                                    },
                                }
                                i += 1;
                            }
                            proof {
                                assert(pairs_view(centries@).take(m as int) =~= pairs_view(
                                    centries@,
                                ));
                            }
                            return Some(Json::Obj(out));
                        },
                        _ => {
                            return Some(c.deep_clone());
                        },
                    }
                }
                j -= 1;
            }
            proof {
                assert(pairs_view(pairs@).take(0) =~= Seq::<(Seq<char>, ValView)>::empty());
            }
            None
        },
        _ => Some(v.deep_clone()),
    }
}

/// The render context a rule's mappings assemble from an entry: each
/// named path expression evaluated against the entry — no match omits
/// the key, one match binds the value, several bind their list; nothing
/// when an expression is malformed or a mapping is not a string.
pub open spec fn build_context_spec(
    mappings: Seq<(Seq<char>, ValView)>,
    entry: ValView,
) -> Option<Seq<(Seq<char>, ValView)>>
    decreases mappings.len(),
{
    if mappings.len() == 0 {
        Some(Seq::empty())
    } else {
        match build_context_spec(mappings.drop_last(), entry) {
            None => None,
            Some(acc) => match mappings.last().1 {
                ValView::Str(path) => match crate::path::jsonpath_query(entry, path) {
                    None => None,
                    Some(found) => if found.len() == 0 {
                        Some(acc)
                    } else if found.len() == 1 {
                        Some(obj_insert_spec(acc, mappings.last().0, found[0]))
                    } else {
                        Some(obj_insert_spec(acc, mappings.last().0, ValView::Arr(found)))
                    },
                },
                _ => None,
            },
        }
    }
}

/// A failing mapping makes the whole assembly fail, wherever the
/// remaining mappings stand.
proof fn lemma_build_context_none(mappings: Seq<(Seq<char>, ValView)>, entry: ValView, i: int)
    requires
        0 <= i <= mappings.len(),
        build_context_spec(mappings.take(i), entry) is None,
    ensures
        build_context_spec(mappings.take(mappings.len() as int), entry) is None,
    decreases mappings.len() - i,
{
    if i < mappings.len() {
        assert(mappings.take(i + 1).drop_last() =~= mappings.take(i));
        lemma_build_context_none(mappings, entry, i + 1);
    }
}

/// Assembles the render context for one selected entry: with mappings
/// declared, a fresh object of their evaluated path expressions; with
/// none, the entry itself. Fails when an expression is malformed or a
/// mapping is not a string.
#[verifier::loop_isolation(false)]
pub fn build_context(rule: &Rule, entry: &Json) -> (r: Result<Json, GeneratorError>)
    ensures
        r matches Ok(c) ==> if rule.context@.len() == 0 {
            c@ == entry@
        } else {
            build_context_spec(pairs_view(rule.context@), entry@) == Some(c@->Obj_0) && c@ is Obj
        },
        r matches Err(e) ==> rule.context@.len() > 0 && build_context_spec(
            pairs_view(rule.context@),
            entry@,
        ) is None && (e is Query || e is Config),
{
    let n = rule.context.len();
    if n == 0 {
        return Ok(entry.deep_clone());
    }
    let ghost mappings = pairs_view(rule.context@);
    let mut out: Vec<(String, Json)> = Vec::new();
    proof {
        assert(build_context_spec(mappings.take(0), entry@) =~= Some(
            Seq::<(Seq<char>, ValView)>::empty(),
        ));
        assert(pairs_view(out@) =~= Seq::<(Seq<char>, ValView)>::empty());
    }
    let mut i: usize = 0;
    while i < n
        invariant
            0 <= i <= n,
            n == rule.context@.len(),
            mappings == pairs_view(rule.context@),
            build_context_spec(mappings.take(i as int), entry@) == Some(pairs_view(out@)),
        decreases n - i,
    {
        let ghost pre = mappings.take(i as int);
        let ghost cur = mappings.take(i + 1);
        proof {
            assert(cur.drop_last() =~= pre);
            assert(cur.last() == mappings[i as int]);
        }
        let path: &String = match &rule.context[i].1 {
            Json::Str(p) => p,
            _ => {
                proof {
                    assert(build_context_spec(cur, entry@) is None);
                    lemma_build_context_none(mappings, entry@, i + 1);
                    assert(mappings.take(mappings.len() as int) =~= mappings);
                }
                return Err(
                    GeneratorError::Config(
                        String::from_str("a context value must be a string path expression"),
                    ),
                );
            },
        };
        let mut found = match crate::path::values_for_path(entry, path.as_str()) {
            Ok(f) => f,
            Err(e) => {
                proof {
                    assert(build_context_spec(cur, entry@) is None);
                    lemma_build_context_none(mappings, entry@, i + 1);
                    assert(mappings.take(mappings.len() as int) =~= mappings);
                }
                return Err(e);
            },
        };
        if found.len() == 0 {
            proof {
                assert(build_context_spec(cur, entry@) == Some(pairs_view(out@)));
            }
        } else if found.len() == 1 {
            let v = found.remove(0);
            let key = rule.context[i].0.clone();
            obj_insert(&mut out, key, v);
        } else {
            let key = rule.context[i].0.clone();
            obj_insert(&mut out, key, Json::Arr(found));
        }
        i += 1;
    }
    proof {
        assert(mappings.take(n as int) =~= mappings);
    }
    Ok(Json::Obj(out))
}

/// The template data every page render sees: the compact tree, the
/// render context, the full tree, and the output descriptor, under
/// those names (context and output only where present).
pub open spec fn data_spec(
    output: Option<ValView>,
    context: Option<ValView>,
    full: ValView,
    compact: ValView,
) -> ValView {
    ValView::Obj(
        seq![("compact"@, compact)] + (match context {
            Some(c) => seq![("context"@, c)],
            None => Seq::<(Seq<char>, ValView)>::empty(),
        }) + seq![("full"@, full)] + (match output {
            Some(o) => seq![("output"@, o)],
            None => Seq::<(Seq<char>, ValView)>::empty(),
        }),
    )
}

/// Assembles the template data object for one render.
pub fn data_value(
    output: Option<&Json>,
    context: Option<&Json>,
    full: &Json,
    compact: &Json,
) -> (r: Json)
    ensures
        r@ == data_spec(
            match output {
                Some(o) => Some(o@),
                None => None,
            },
            match context {
                Some(c) => Some(c@),
                None => None,
            },
            full@,
            compact@,
        ),
{
    let mut pairs: Vec<(String, Json)> = Vec::new();
    pairs.push((String::from_str("compact"), compact.deep_clone()));
    match context {
        Some(c) => {
            pairs.push((String::from_str("context"), c.deep_clone()));
        },
        None => {},
    }
    pairs.push((String::from_str("full"), full.deep_clone()));
    match output {
        Some(o) => {
            pairs.push((String::from_str("output"), o.deep_clone()));
        },
        None => {},
    }
    let r = Json::Obj(pairs);
    proof {
        reveal_strlit("compact");
        reveal_strlit("context");
        reveal_strlit("full");
        reveal_strlit("output");
        assert(r@->Obj_0 =~= data_spec(
            match output {
                Some(o) => Some(o@),
                None => None,
            },
            match context {
                Some(c) => Some(c@),
                None => None,
            },
            full@,
            compact@,
        )->Obj_0);
    }
    r
}

/// The output descriptor as a value, for the template data.
pub open spec fn output_view(o: Output) -> ValView {
    ValView::Obj(
        seq![
            ("path"@, ValView::Str(o.path@)),
            ("siteUrl"@, ValView::Str(o.site_url@)),
            ("template"@, match o.template {
                Some(t) => ValView::Str(t@),
                None => ValView::Null,
            }),
            ("url"@, ValView::Str(o.url@)),
        ],
    )
}

impl Output {
    /// The descriptor as a value: its four fields as an object.
    pub fn to_value(&self) -> (r: Json)
        ensures
            r@ == output_view(*self),
    {
        let mut pairs: Vec<(String, Json)> = Vec::new();
        pairs.push((String::from_str("path"), Json::Str(self.path.clone())));
        pairs.push((String::from_str("siteUrl"), Json::Str(self.site_url.clone())));
        pairs.push(
            (
                String::from_str("template"),
                match &self.template {
                    Some(t) => Json::Str(t.clone()),
                    None => Json::Null,
                },
            ),
        );
        pairs.push((String::from_str("url"), Json::Str(self.url.clone())));
        let r = Json::Obj(pairs);
        proof {
            reveal_strlit("path");
            reveal_strlit("siteUrl");
            reveal_strlit("template");
            reveal_strlit("url");
            assert(pairs_view(pairs@) =~= output_view(*self)->Obj_0);
        }
        r
    }
}

/// Everything computed for one page about to be written: where the file
/// goes (site-relative), its descriptor, and the data its render sees.
pub struct PreparedPage {
    /// The output file's normalized, site-relative path.
    pub path: String,
    /// The resolved template name, when the rule names one.
    pub template: Option<String>,
    /// The page's output descriptor.
    pub output: Output,
    /// The render context assembled from the rule's mappings.
    pub context: Json,
    /// The full template data object.
    pub data: Json,
}

/// Prepares one selected entry for rendering: evaluates the rule's
/// output pattern to a normalized path, resolves the template name,
/// builds the output descriptor under the base URL, assembles the
/// render context and the template data.
pub fn prepare_render(
    h: &handlebars::Handlebars,
    rule: &Rule,
    entry: &Json,
    config: &GeneratorConfig,
    full: &Json,
    compact: &Json,
) -> (r: Result<PreparedPage, GeneratorError>)
    ensures
        r matches Ok(p) ==> {
            &&& p.path@ == normalize_path_spec(p.path@)
            &&& output_spec(config.basename.view_str(), p.path@) matches Some(parts)
                && parts.1 == p.output.path@ && parts.0 == p.output.site_url@ && parts.2
                == p.output.url@
            &&& (rule.context@.len() == 0 ==> p.context@ == entry@)
            &&& (rule.context@.len() > 0 ==> build_context_spec(
                pairs_view(rule.context@),
                entry@,
            ) == Some(p.context@->Obj_0))
            &&& p.data@ == data_spec(
                Some(output_view(p.output)),
                Some(p.context@),
                full@,
                compact@,
            )
            &&& (rule.template is None <==> p.template is None)
        },
{
    // the output path, from the rule's pattern
    let raw_path = match render_template(h, rule.output_pattern.as_str(), entry) {
        Ok(s) => s,
        Err(m) => {
            return Err(GeneratorError::Render(m));
        },
    };
    let path = normalize_path(raw_path.as_str());
    proof {
        lemma_normalize_path_idempotent(raw_path@);
        lemma_normalize_fixed(path@);
    }
    // the template name, when the rule names one
    let template: Option<String> = match &rule.template {
        Some(t) => match render_template(h, t.as_str(), entry) {
            Ok(s) => Some(s),
            Err(m) => {
                return Err(GeneratorError::Render(m));
            },
        },
        None => None,
    };
    // the page's descriptor
    let base_text = config.basename.to_text();
    let output = match Output::new(base_text.as_str(), path.as_str(), match &template {
        Some(t) => Some(t.as_str()),
        None => None,
    }) {
        Ok(o) => o,
        Err(e) => {
            return Err(e);
        },
    };
    // the render context and the data object
    let context = match build_context(rule, entry) {
        Ok(c) => c,
        Err(e) => {
            return Err(e);
        },
    };
    let output_value = output.to_value();
    let data = data_value(Some(&output_value), Some(&context), full, compact);
    Ok(PreparedPage { path, template, output, context, data })
}

/// Whether a render context carries an inline `content` string to
/// render in place of a named template.
pub open spec fn has_inline_content(context: ValView) -> bool {
    context is Obj && (obj_lookup(context->Obj_0, "content"@) matches Some(c) && c is Str)
}

/// Renders a prepared page to its text: through the named template, or
/// — with none named — through the entry's own `content` string, which
/// must then exist: a page with neither fails.
pub fn render_page(h: &handlebars::Handlebars, page: &PreparedPage) -> (r: Result<
    String,
    GeneratorError,
>)
    ensures
        r matches Err(e) ==> e is Render,
        page.template is None && !has_inline_content(page.context@) ==> r is Err,
        r is Ok ==> page.template is Some || has_inline_content(page.context@),
{
    match &page.template {
        Some(t) => match render_registered(h, t.as_str(), &page.data) {
            Ok(s) => Ok(s),
            Err(m) => Err(GeneratorError::Render(m)),
        },
        None => {
            proof {
                reveal_strlit("content");
            }
            let inline = match page.context.get("content") {
                Some(c) => match c.as_str() {
                    Some(s) => s.clone(),
                    None => {
                        return Err(
                            GeneratorError::Render(
                                String::from_str(
                                    "the rule needs a 'template', or a '.content' string in its context",
                                ),
                            ),
                        );
                    },
                },
                None => {
                    return Err(
                        GeneratorError::Render(
                            String::from_str(
                                "the rule needs a 'template', or a '.content' string in its context",
                            ),
                        ),
                    );
                },
            };
            match render_template(h, inline.as_str(), &page.data) {
                Ok(s) => Ok(s),
                Err(m) => Err(GeneratorError::Render(m)),
            }
        },
    }
}

/// The template name a file registers under: its path relative to the
/// template directory — separators read as forward slashes — with the
/// `.hbs` ending removed; nothing for any other file.
pub fn template_name(rel_path: &str) -> (r: Option<String>)
    ensures
        match r {
            Some(name) => name@ + seq!['.', 'h', 'b', 's'] == crate::copy::slashed(rel_path@),
            None => crate::copy::slashed(rel_path@).len() < 4 || crate::copy::slashed(
                rel_path@,
            ).skip(crate::copy::slashed(rel_path@).len() - 4) != seq!['.', 'h', 'b', 's'],
        },
{
    let slashes = crate::copy::to_slashes(rel_path);
    let cs = text::str_chars(slashes.as_str());
    let n = cs.len();
    if n < 4 {
        return None;
    }
    if cs[n - 4] == '.' && cs[n - 3] == 'h' && cs[n - 2] == 'b' && cs[n - 1] == 's' {
        let name = text::chars_string(vstd::slice::slice_subrange(cs.as_slice(), 0, n - 4));
        proof {
            assert(name@ + seq!['.', 'h', 'b', 's'] =~= crate::copy::slashed(rel_path@));
        }
        Some(name)
    } else {
        proof {
            let sl = crate::copy::slashed(rel_path@);
            if sl.skip(sl.len() - 4) == seq!['.', 'h', 'b', 's'] {
                assert(sl.skip(sl.len() - 4)[0] == sl[sl.len() - 4]);
                assert(sl.skip(sl.len() - 4)[1] == sl[sl.len() - 3]);
                assert(sl.skip(sl.len() - 4)[2] == sl[sl.len() - 2]);
                assert(sl.skip(sl.len() - 4)[3] == sl[sl.len() - 1]);
                assert(false);
            }
        }
        None
    }
}

/// Resolves the effective site base: a command-line override wins over
/// the configured base name; a trailing slash is ensured; the result
/// must parse as an absolute URL, a fatal error otherwise.
pub fn resolve_basename(cli_override: Option<&str>, configured: &str) -> (r: Result<
    Url,
    GeneratorError,
>)
    ensures
        ({
            let chosen = with_trailing_slash(
                match cli_override {
                    Some(b) => b@,
                    None => configured@,
                },
            );
            match r {
                Ok(u) => parses_as_url(chosen) && url_parse_of(chosen) == Some(
                    (u.prefix@, u.path@, u.suffix@),
                ) && u.wf(),
                Err(_) => !parses_as_url(chosen),
            }
        }),
{
    let chosen: &str = match cli_override {
        Some(b) => b,
        None => configured,
    };
    let with_slash = ensure_trailing_slash(chosen);
    crate::helper::url::parse_url(with_slash.as_str())
}

} // verus!
