//! The rule configuration and the rule engine: a rule selects entries
//! of the content tree — by a path query or by front-matter layout —
//! and says how each becomes an output file.

use crate::error::GeneratorError;
use vstd::assert_by_contradiction;
use crate::loader::yaml::{parse_yaml_value, yaml_doc_of};
use crate::value::{
    arr_view, clone_pairs, obj_lookup, pairs_view, Json, ValView,
};
use vstd::prelude::*;

verus! {

/// One declarative rule: how entries are selected, which template they
/// render through, where each lands, and which context fields it sees.
pub struct Rule {
    /// The selector kind: `jsonpath` or `layout`.
    pub selector_type: String,
    /// The query expression, or the layout name to match.
    pub selector: Option<String>,
    /// A template-name expression; absent when the entry's own
    /// `content` field is rendered inline.
    pub template: Option<String>,
    /// The template expression producing the output path.
    pub output_pattern: String,
    /// Named path expressions assembling the render context.
    pub context: Vec<(String, Json)>,
}

/// The site-wide configuration.
pub struct Site {
    /// The default absolute base URL of the site.
    pub basename: String,
}

/// One asset declaration: a directory copied into the output.
pub struct Asset {
    /// The source directory, relative to the site root.
    pub dir: String,
    /// The destination subdirectory under the output, if any.
    pub to: Option<String>,
    /// An optional glob filtering what is copied.
    pub glob: Option<String>,
}

/// The whole render configuration.
pub struct Render {
    /// The site-wide settings.
    pub site: Site,
    /// The rules, in declaration order.
    pub rules: Vec<Rule>,
    /// The asset declarations.
    pub assets: Vec<Asset>,
    /// Per-processor configuration blocks, keyed by processor name.
    pub processors: Vec<(String, Json)>,
}

/// A string field of a configuration object.
pub open spec fn str_field(o: Seq<(Seq<char>, ValView)>, key: Seq<char>) -> Option<Seq<char>> {
    match obj_lookup(o, key) {
        Some(v) => match v {
            ValView::Str(s) => Some(s),
            _ => None,
        },
        _ => None,
    }
}

/// An optional string field: absent or null reads as none, a string as
/// itself; anything else does not read.
pub open spec fn opt_str_field(o: Seq<(Seq<char>, ValView)>, key: Seq<char>) -> Option<
    Option<Seq<char>>,
> {
    match obj_lookup(o, key) {
        None => Some(None),
        Some(v) => match v {
            ValView::Null => Some(None),
            ValView::Str(s) => Some(Some(s)),
            _ => None,
        },
    }
}

/// The view of an optional string.
pub open spec fn opt_str_view(o: Option<String>) -> Option<Seq<char>> {
    match o {
        Some(s) => Some(s@),
        None => None,
    }
}

/// Whether a rule struct reads the given configuration object: required
/// `selectorType` and `outputPattern` strings, optional `selector` and
/// `template` strings, and the `context` object's entries (an absent
/// `context` reading as empty).
pub open spec fn rule_matches(r: Rule, v: ValView) -> bool {
    &&& v is Obj
    &&& str_field(v->Obj_0, "selectorType"@) == Some(r.selector_type@)
    &&& opt_str_field(v->Obj_0, "selector"@) == Some(opt_str_view(r.selector))
    &&& opt_str_field(v->Obj_0, "template"@) == Some(opt_str_view(r.template))
    &&& str_field(v->Obj_0, "outputPattern"@) == Some(r.output_pattern@)
    &&& match obj_lookup(v->Obj_0, "context"@) {
        None => pairs_view(r.context@).len() == 0,
        Some(c) => c matches ValView::Obj(entries) && pairs_view(r.context@) == entries,
    }
}

/// Whether an asset struct reads the given configuration object.
pub open spec fn asset_matches(a: Asset, v: ValView) -> bool {
    &&& v is Obj
    &&& str_field(v->Obj_0, "dir"@) == Some(a.dir@)
    &&& opt_str_field(v->Obj_0, "to"@) == Some(opt_str_view(a.to))
    &&& opt_str_field(v->Obj_0, "glob"@) == Some(opt_str_view(a.glob))
}

/// Whether a render configuration reads the given document: a `site`
/// object with a `basename` string, a `rules` list and an `assets` list
/// read entry by entry, and the `processors` object's entries (absent
/// reading as empty).
pub open spec fn render_matches(r: Render, v: ValView) -> bool {
    &&& v is Obj
    &&& match obj_lookup(v->Obj_0, "site"@) {
        Some(s) => s is Obj && str_field(s->Obj_0, "basename"@) == Some(r.site.basename@),
        None => false,
    }
    &&& match obj_lookup(v->Obj_0, "rules"@) {
        Some(rv) => rv matches ValView::Arr(items) && r.rules@.len() == items.len() && forall|
            i: int,
        |
            0 <= i < items.len() ==> rule_matches(#[trigger] r.rules@[i], items[i]),
        None => false,
    }
    &&& match obj_lookup(v->Obj_0, "assets"@) {
        Some(av) => av matches ValView::Arr(items) && r.assets@.len() == items.len() && forall|
            i: int,
        |
            0 <= i < items.len() ==> asset_matches(#[trigger] r.assets@[i], items[i]),
        None => false,
    }
    &&& match obj_lookup(v->Obj_0, "processors"@) {
        None => pairs_view(r.processors@).len() == 0,
        Some(p) => p matches ValView::Obj(entries) && pairs_view(r.processors@) == entries,
    }
}

/// Whether an object fits as a rule: required `selectorType` and
/// `outputPattern` strings, optional `selector` and `template` strings,
/// and a `context` object when one stands.
pub open spec fn rule_fits(v: ValView) -> bool {
    &&& v is Obj
    &&& str_field(v->Obj_0, "selectorType"@) is Some
    &&& opt_str_field(v->Obj_0, "selector"@) is Some
    &&& opt_str_field(v->Obj_0, "template"@) is Some
    &&& str_field(v->Obj_0, "outputPattern"@) is Some
    &&& match obj_lookup(v->Obj_0, "context"@) {
        None => true,
        Some(c) => c is Obj,
    }
}

/// Whether an object fits as an asset declaration.
pub open spec fn asset_fits(v: ValView) -> bool {
    &&& v is Obj
    &&& str_field(v->Obj_0, "dir"@) is Some
    &&& opt_str_field(v->Obj_0, "to"@) is Some
    &&& opt_str_field(v->Obj_0, "glob"@) is Some
}

/// Whether a document fits as the render configuration.
pub open spec fn render_fits(v: ValView) -> bool {
    &&& v is Obj
    &&& match obj_lookup(v->Obj_0, "site"@) {
        Some(s) => s is Obj && str_field(s->Obj_0, "basename"@) is Some,
        None => false,
    }
    &&& match obj_lookup(v->Obj_0, "rules"@) {
        Some(rv) => match rv {
            ValView::Arr(items) => forall|i: int|
                0 <= i < items.len() ==> rule_fits(#[trigger] items[i]),
            _ => false,
        },
        None => false,
    }
    &&& match obj_lookup(v->Obj_0, "assets"@) {
        Some(av) => match av {
            ValView::Arr(items) => forall|i: int|
                0 <= i < items.len() ==> asset_fits(#[trigger] items[i]),
            _ => false,
        },
        None => false,
    }
    &&& match obj_lookup(v->Obj_0, "processors"@) {
        None => true,
        Some(p) => p is Obj,
    }
}

/// A fitting configuration's rules all fit.
proof fn lemma_render_fits_rule(d: ValView, items: Seq<ValView>, i: int)
    requires
        render_fits(d),
        obj_lookup(d->Obj_0, "rules"@) == Some(ValView::Arr(items)),
        0 <= i < items.len(),
    ensures
        rule_fits(items[i]),
{
    assert(match obj_lookup(d->Obj_0, "rules"@) {
        Some(rv) => match rv {
            ValView::Arr(it) => forall|k: int| 0 <= k < it.len() ==> rule_fits(#[trigger] it[k]),
            _ => false,
        },
        None => false,
    });
    assert(forall|k: int| 0 <= k < items.len() ==> rule_fits(#[trigger] items[k]));
}

/// A fitting configuration's assets all fit.
proof fn lemma_render_fits_asset(d: ValView, items: Seq<ValView>, i: int)
    requires
        render_fits(d),
        obj_lookup(d->Obj_0, "assets"@) == Some(ValView::Arr(items)),
        0 <= i < items.len(),
    ensures
        asset_fits(items[i]),
{
    assert(match obj_lookup(d->Obj_0, "assets"@) {
        Some(av) => match av {
            ValView::Arr(it) => forall|k: int| 0 <= k < it.len() ==> asset_fits(#[trigger] it[k]),
            _ => false,
        },
        None => false,
    });
    assert(forall|k: int| 0 <= k < items.len() ==> asset_fits(#[trigger] items[k]));
}

/// A required string field of a configuration object.
fn get_str_field(v: &Json, key: &str) -> (r: Result<String, GeneratorError>)
    ensures
        r matches Ok(s) ==> v@ is Obj && str_field(v@->Obj_0, key@) == Some(s@),
        r matches Err(e) ==> e is Config && (!(v@ is Obj) || str_field(v@->Obj_0, key@) is None),
{
    match v.get(key) {
        Some(f) => match f.as_str() {
            Some(s) => Ok(s.clone()),
            None => Err(GeneratorError::Config(String::from_str("a field is not a string"))),
        },
        None => Err(GeneratorError::Config(String::from_str("a required field is missing"))),
    }
}

/// An optional string field of a configuration object.
pub(crate) fn get_opt_str_field(v: &Json, key: &str) -> (r: Result<Option<String>, GeneratorError>)
    requires
        v@ is Obj,
    ensures
        r matches Ok(s) ==> opt_str_field(v@->Obj_0, key@) == Some(opt_str_view(s)),
        r matches Err(e) ==> e is Config && opt_str_field(v@->Obj_0, key@) is None,
{
    match v.get(key) {
        Some(f) => match f {
            Json::Null => Ok(None),
            Json::Str(s) => Ok(Some(s.clone())),
            _ => Err(GeneratorError::Config(String::from_str("a field is not a string"))),
        },
        None => Ok(None),
    }
}

/// The entries of an optional object field: absent reads as empty.
fn get_entries_field(v: &Json, key: &str) -> (r: Result<Vec<(String, Json)>, GeneratorError>)
    requires
        v@ is Obj,
    ensures
        r matches Ok(es) ==> match obj_lookup(v@->Obj_0, key@) {
            None => pairs_view(es@).len() == 0,
            Some(c) => c matches ValView::Obj(entries) && pairs_view(es@) == entries,
        },
        r matches Err(e) ==> e is Config && match obj_lookup(v@->Obj_0, key@) {
            None => false,
            Some(c) => !(c is Obj),
        },
{
    match v.get(key) {
        Some(f) => match f.as_object() {
            Some(pairs) => Ok(clone_pairs(pairs)),
            None => Err(GeneratorError::Config(String::from_str("a field is not an object"))),
        },
        None => Ok(Vec::new()),
    }
}

/// Reads one rule from its configuration object.
fn rule_from_value(v: &Json) -> (r: Result<Rule, GeneratorError>)
    ensures
        r matches Ok(rule) ==> rule_matches(rule, v@) && rule_fits(v@),
        r matches Err(e) ==> e is Config && !rule_fits(v@),
{
    let selector_type = match get_str_field(v, "selectorType") {
        Ok(s) => s,
        Err(e) => {
            return Err(e);
        },
    };
    let selector = match get_opt_str_field(v, "selector") {
        Ok(s) => s,
        Err(e) => {
            return Err(e);
        },
    };
    let template = match get_opt_str_field(v, "template") {
        Ok(s) => s,
        Err(e) => {
            return Err(e);
        },
    };
    let output_pattern = match get_str_field(v, "outputPattern") {
        Ok(s) => s,
        Err(e) => {
            return Err(e);
        },
    };
    let context = match get_entries_field(v, "context") {
        Ok(c) => c,
        Err(e) => {
            return Err(e);
        },
    };
    Ok(Rule { selector_type, selector, template, output_pattern, context })
}

/// Reads one asset declaration from its configuration object.
fn asset_from_value(v: &Json) -> (r: Result<Asset, GeneratorError>)
    ensures
        r matches Ok(a) ==> asset_matches(a, v@) && asset_fits(v@),
        r matches Err(e) ==> e is Config && !asset_fits(v@),
{
    let dir = match get_str_field(v, "dir") {
        Ok(s) => s,
        Err(e) => {
            return Err(e);
        },
    };
    let to = match get_opt_str_field(v, "to") {
        Ok(s) => s,
        Err(e) => {
            return Err(e);
        },
    };
    let glob = match get_opt_str_field(v, "glob") {
        Ok(s) => s,
        Err(e) => {
            return Err(e);
        },
    };
    Ok(Asset { dir, to, glob })
}

impl Render {
    /// Reads the render configuration from its YAML text, in canonical
    /// form. Fails when the text is not a YAML document or does not fit
    /// the schema.
    #[verifier::loop_isolation(false)]
    pub fn load(text: &str) -> (r: Result<Render, GeneratorError>)
        ensures
            r matches Ok(cfg) ==> yaml_doc_of(text@) matches Some(d) && render_matches(
                cfg,
                crate::value::canon_spec(d),
            ) && render_fits(crate::value::canon_spec(d)),
            r matches Err(e) ==> (e is Parse || e is Config) && (match yaml_doc_of(text@) {
                Some(d) => !render_fits(crate::value::canon_spec(d)),
                None => true,
            }),
            yaml_doc_of(text@) matches Some(d) && render_fits(crate::value::canon_spec(d))
                ==> r is Ok,
    {
        let raw = match parse_yaml_value(text) {
            Ok(d) => d,
            Err(m) => {
                return Err(GeneratorError::Parse(m));
            },
        };
        let doc = crate::value::canon_value(&raw);
        if !doc.is_object() {
            return Err(GeneratorError::Config(String::from_str("the configuration is no mapping")));
        }
        let site = match doc.get("site") {
            Some(sv) => {
                let basename = match get_str_field(sv, "basename") {
                    Ok(b) => b,
                    Err(e) => {
                        return Err(e);
                    },
                };
                Site { basename }
            },
            None => {
                return Err(GeneratorError::Config(String::from_str("missing 'site' section")));
            },
        };
        let rules: Vec<Rule> = match doc.get("rules") {
            Some(rv) => match rv {
                Json::Arr(items) => {
                    let mut rules: Vec<Rule> = Vec::new();
                    let n = items.len();
                    for i in 0..n
                        invariant
                            n == items@.len(),
                            rules@.len() == i,
                            forall|k: int|
                                0 <= k < i ==> rule_matches(
                                    #[trigger] rules@[k],
                                    arr_view(items@)[k],
                                ),
                            forall|k: int|
                                0 <= k < i ==> rule_fits(#[trigger] arr_view(items@)[k]),
                    {
                        match rule_from_value(&items[i]) {
                            Ok(rule) => {
                                rules.push(rule);
                            },
                            Err(e) => {
                                proof {
                                    assert(!rule_fits(arr_view(items@)[i as int]));
                                    assert(obj_lookup(doc@->Obj_0, "rules"@) == Some(
                                        ValView::Arr(arr_view(items@)),
                                    ));
                                    assert_by_contradiction!(!render_fits(doc@), {
                                        lemma_render_fits_rule(
                                            doc@,
                                            arr_view(items@),
                                            i as int,
                                        );
                                    });
                                }
                                return Err(e);
                            },
                        }
                    }
                    rules
                },
                _ => {
                    return Err(GeneratorError::Config(String::from_str("'rules' is no list")));
                },
            },
            None => {
                return Err(GeneratorError::Config(String::from_str("missing 'rules' list")));
            },
        };
        let assets: Vec<Asset> = match doc.get("assets") {
            Some(av) => match av {
                Json::Arr(items) => {
                    let mut assets: Vec<Asset> = Vec::new();
                    let n = items.len();
                    for i in 0..n
                        invariant
                            n == items@.len(),
                            assets@.len() == i,
                            forall|k: int|
                                0 <= k < i ==> asset_matches(
                                    #[trigger] assets@[k],
                                    arr_view(items@)[k],
                                ),
                            forall|k: int|
                                0 <= k < i ==> asset_fits(#[trigger] arr_view(items@)[k]),
                    {
                        match asset_from_value(&items[i]) {
                            Ok(a) => {
                                assets.push(a);
                            },
                            Err(e) => {
                                proof {
                                    assert(!asset_fits(arr_view(items@)[i as int]));
                                    assert(obj_lookup(doc@->Obj_0, "assets"@) == Some(
                                        ValView::Arr(arr_view(items@)),
                                    ));
                                    assert_by_contradiction!(!render_fits(doc@), {
                                        lemma_render_fits_asset(
                                            doc@,
                                            arr_view(items@),
                                            i as int,
                                        );
                                    });
                                }
                                return Err(e);
                            },
                        }
                    }
                    assets
                },
                _ => {
                    return Err(GeneratorError::Config(String::from_str("'assets' is no list")));
                },
            },
            None => {
                return Err(GeneratorError::Config(String::from_str("missing 'assets' list")));
            },
        };
        let processors = match get_entries_field(&doc, "processors") {
            Ok(p) => p,
            Err(e) => {
                return Err(e);
            },
        };
        let cfg = Render { site, rules, assets, processors };
        proof {
            assert(render_matches(cfg, doc@));
            assert(render_fits(doc@));
        }
        Ok(cfg)
    }
}

/// The values a query-selecting rule renders: the query's matches that
/// are objects, in match order (only structured nodes can be pages).
pub open spec fn keep_objects(s: Seq<ValView>) -> Seq<ValView>
    decreases s.len(),
{
    if s.len() == 0 {
        Seq::empty()
    } else {
        keep_objects(s.drop_last()) + (if s.last() is Obj {
            seq![s.last()]
        } else {
            Seq::empty()
        })
    }
}

/// Selects entries with a path query; only object matches are kept.
pub struct JsonPathProcessor {
    /// The query expression.
    pub path: String,
}

impl JsonPathProcessor {
    /// The entries the rule renders: the query's object matches, in
    /// match order. Fails exactly when the expression is malformed.
    #[verifier::loop_isolation(false)]
    pub fn query(&self, content: &Json) -> (r: Result<Vec<Json>, GeneratorError>)
        ensures
            r matches Ok(v) ==> crate::path::jsonpath_query(content@, self.path@)
                matches Some(s) && arr_view(v@) == keep_objects(s),
            r matches Err(e) ==> crate::path::jsonpath_query(content@, self.path@) is None
                && e is Query,
    {
        let found = match crate::path::values_for_path(content, self.path.as_str()) {
            Ok(v) => v,
            Err(e) => {
                return Err(e);
            },
        };
        let ghost s = arr_view(found@);
        let mut out: Vec<Json> = Vec::new();
        let n = found.len();
        proof {
            assert(arr_view(out@) =~= keep_objects(s.take(0)));
        }
        let mut i: usize = 0;
        while i < n
            invariant
                0 <= i <= n,
                n == found@.len(),
                s == arr_view(found@),
                arr_view(out@) == keep_objects(s.take(i as int)),
            decreases n - i,
        {
            let ghost pre = s.take(i as int);
            let ghost cur = s.take(i + 1);
            proof {
                assert(cur.drop_last() =~= pre);
                assert(cur.last() == s[i as int]);
            }
            if found[i].is_object() {
                let item = found[i].deep_clone();
                out.push(item);
                proof {
                    assert(arr_view(out@) =~= keep_objects(pre) + seq![s[i as int]]);
                }
            } else {
                proof {
                    assert(arr_view(out@) =~= keep_objects(cur));
                }
            }
            i += 1;
        }
        proof {
            assert(s.take(n as int) =~= s);
        }
        Ok(out)
    }
}

/// Selects entries by front-matter layout, walking the whole tree.
pub struct LayoutProcessor {
    /// The layout name to match; with none set, any node carrying a
    /// `layout` field matches.
    pub layout: Option<String>,
}

/// Whether a node's front matter names the wanted layout (or any, when
/// none is wanted).
pub open spec fn is_layout_spec(layout: Option<Seq<char>>, pairs: Seq<(Seq<char>, ValView)>) -> bool {
    match obj_lookup(pairs, "frontMatter"@) {
        Some(fm) => fm matches ValView::Obj(fme) && match obj_lookup(fme, "layout"@) {
            Some(l) => l matches ValView::Str(name) && (match layout {
                Some(required) => required == name,
                None => true,
            }),
            None => false,
        },
        None => false,
    }
}

/// Every node of the tree whose front matter names the wanted layout,
/// in preorder: a matching object first, then its entries in order.
pub open spec fn layout_matches(layout: Option<Seq<char>>, v: ValView) -> Seq<ValView>
    decreases v,
{
    match v {
        ValView::Obj(pairs) => (if is_layout_spec(layout, pairs) {
            seq![v]
        } else {
            Seq::empty()
        }) + layout_in_entries(layout, pairs),
        _ => Seq::empty(),
    }
}

/// The layout matches inside an object's entries, in order.
pub open spec fn layout_in_entries(
    layout: Option<Seq<char>>,
    pairs: Seq<(Seq<char>, ValView)>,
) -> Seq<ValView>
    decreases pairs,
{
    if pairs.len() == 0 {
        Seq::empty()
    } else {
        layout_in_entries(layout, pairs.drop_last()) + layout_matches(layout, pairs.last().1)
    }
}

impl LayoutProcessor {
    /// Whether the node's front matter names this rule's layout.
    pub fn is_layout(&self, item: &Vec<(String, Json)>) -> (r: bool)
        ensures
            r == is_layout_spec(opt_str_view(self.layout), pairs_view(item@)),
    {
        match crate::value::obj_get(item, "frontMatter") {
            Some(fm) => match fm.get("layout") {
                Some(l) => match l.as_str() {
                    Some(name) => match &self.layout {
                        Some(required) => crate::text::str_eq(required.as_str(), name.as_str()),
                        None => true,
                    },
                    None => false,
                },
                None => false,
            },
            None => false,
        }
    }

    /// Collects every node below `current` whose front matter names
    /// this rule's layout, in preorder.
    #[verifier::loop_isolation(false)]
    pub fn find(&self, current: &Json, result: &mut Vec<Json>)
        ensures
            arr_view(final(result)@) == arr_view(old(result)@) + layout_matches(
                opt_str_view(self.layout),
                current@,
            ),
        decreases current,
    {
        let ghost layout = opt_str_view(self.layout);
        match current {
            Json::Obj(pairs) => {
                if self.is_layout(pairs) {
                    let item = current.deep_clone();
                    result.push(item);
                }
                let ghost mid = arr_view(result@);
                let n = pairs.len();
                proof {
                    assert(layout_in_entries(layout, pairs_view(pairs@).take(0)) =~= Seq::<
                        ValView,
                    >::empty());
                    assert(arr_view(result@) =~= mid + layout_in_entries(
                        layout,
                        pairs_view(pairs@).take(0),
                    ));
                }
                let mut i: usize = 0;
                while i < n
                    invariant
                        0 <= i <= n,
                        n == pairs@.len(),
                        arr_view(result@) == mid + layout_in_entries(
                            layout,
                            pairs_view(pairs@).take(i as int),
                        ),
                    decreases n - i,
                {
                    let ghost pre = pairs_view(pairs@).take(i as int);
                    let ghost cur = pairs_view(pairs@).take(i + 1);
                    proof {
                        assert(cur.drop_last() =~= pre);
                        assert(cur.last() == pairs_view(pairs@)[i as int]);
                    }
                    self.find(&pairs[i].1, result);
                    i += 1;
                }
                proof {
                    assert(pairs_view(pairs@).take(n as int) =~= pairs_view(pairs@));
                    assert(arr_view(old(result)@) + layout_matches(layout, current@) =~= mid
                        + layout_in_entries(layout, pairs_view(pairs@)));
                }
            },
            _ => {
                proof {
                    assert(arr_view(result@) =~= arr_view(old(result)@) + layout_matches(
                        layout,
                        current@,
                    ));
                }
            },
        }
    }

    /// The entries the rule renders: every layout match in the tree, in
    /// preorder.
    pub fn query(&self, content: &Json) -> (r: Vec<Json>)
        ensures
            arr_view(r@) == layout_matches(opt_str_view(self.layout), content@),
    {
        let mut result: Vec<Json> = Vec::new();
        self.find(content, &mut result);
        proof {
            assert(arr_view(result@) =~= layout_matches(opt_str_view(self.layout), content@));
        }
        result
    }
}

/// The processor a rule resolves to.
pub enum RuleProcessor {
    /// A path-query selector.
    JsonPath(JsonPathProcessor),
    /// A layout selector.
    Layout(LayoutProcessor),
}

impl Rule {
    /// Resolves the rule's selector: `layout` takes the selector as the
    /// layout name, `jsonpath` demands one as the query. Fails exactly
    /// on a `jsonpath` rule without a selector, or an unknown selector
    /// kind.
    pub fn processor(&self) -> (r: Result<RuleProcessor, GeneratorError>)
        ensures
            r matches Ok(p) ==> match p {
                RuleProcessor::Layout(l) => self.selector_type@ == "layout"@ && opt_str_view(
                    l.layout,
                ) == opt_str_view(self.selector),
                RuleProcessor::JsonPath(j) => self.selector_type@ == "jsonpath"@ && (self.selector
                    matches Some(s) && j.path@ == s@),
            },
            r matches Err(e) ==> e is Config && (self.selector_type@ == "jsonpath"@ ==> self.selector is None)
                && (self.selector_type@ != "layout"@),
    {
        proof {
            reveal_strlit("layout");
            reveal_strlit("jsonpath");
        }
        if crate::text::str_eq(self.selector_type.as_str(), "layout") {
            let layout = match &self.selector {
                Some(s) => Some(s.clone()),
                None => None,
            };
            Ok(RuleProcessor::Layout(LayoutProcessor { layout }))
        } else if crate::text::str_eq(self.selector_type.as_str(), "jsonpath") {
            match &self.selector {
                Some(s) => Ok(RuleProcessor::JsonPath(JsonPathProcessor { path: s.clone() })),
                None => Err(GeneratorError::Config(String::from_str("missing 'selector' value"))),
            }
        } else {
            Err(GeneratorError::Config(String::from_str("unknown selector type")))
        }
    }
}

impl RuleProcessor {
    /// The entries the rule renders, in selection order.
    pub fn query(&self, content: &Json) -> (r: Result<Vec<Json>, GeneratorError>)
        ensures
            r matches Ok(v) ==> match self {
                RuleProcessor::JsonPath(j) => crate::path::jsonpath_query(content@, j.path@)
                    matches Some(s) && arr_view(v@) == keep_objects(s),
                RuleProcessor::Layout(l) => arr_view(v@) == layout_matches(
                    opt_str_view(l.layout),
                    content@,
                ),
            },
            r matches Err(e) ==> e is Query && (self matches RuleProcessor::JsonPath(j)
                && crate::path::jsonpath_query(content@, j.path@) is None),
    {
        match self {
            RuleProcessor::JsonPath(j) => j.query(content),
            RuleProcessor::Layout(l) => Ok(l.query(content)),
        }
    }
}

} // verus!
