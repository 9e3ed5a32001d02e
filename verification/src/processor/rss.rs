//! The RSS processor: a channel header written once, one `<item>` per
//! produced page that matches a configured page rule — the first rule
//! whose `having` predicate holds — and nothing for a page matching
//! none.

use crate::error::GeneratorError;
use crate::generator::{GeneratorConfig, Output};
use crate::helper::time::{
    epoch_to_rfc2822, parse_rfc3339_epoch, RFC2822_MAX_EPOCH, RFC2822_MIN_EPOCH,
};
use crate::helper::url::full_url_for;
use crate::interop::render_template;
use crate::processor::{
    having_matches_spec, having_value_view, value_by_template, xml_close_tag_of,
    xml_write_close_tag, xml_write_decl, xml_write_element, xml_write_empty_tag,
    xml_write_open_tag, Having,
};
use crate::value::{Json, ValView};
use vstd::prelude::*;

verus! {

/// The feed-wide fields, each a template rendered against the whole
/// site's data.
pub struct RssSite {
    /// The channel title expression.
    pub title: Option<String>,
    /// The channel language expression.
    pub language: Option<String>,
    /// The channel description expression.
    pub description: Option<String>,
    /// The syndication update period (`hourly` when unset).
    pub update_period: String,
    /// The syndication update frequency (1 when unset).
    pub update_frequency: u64,
    /// The syndication update base timestamp.
    pub update_base: Option<String>,
}

/// The per-item field expressions of a page rule (or the defaults).
pub struct RssData {
    /// The item title expression; an item must yield a title.
    pub title: Option<String>,
    /// The publication timestamp expression (RFC 3339).
    pub published: Option<String>,
    /// The creator expression.
    pub creator: Option<String>,
    /// The author expression.
    pub author: Option<String>,
    /// The description expression.
    pub description: Option<String>,
    /// The full-content expression.
    pub content: Option<String>,
}

/// One page rule: a structural predicate, and the field expressions for
/// items it admits.
pub struct Page {
    /// The field expressions; missing ones fall back to the defaults.
    pub data: RssData,
    /// The predicate a page's rendered data must satisfy.
    pub having: Having,
}

/// The RSS configuration block.
pub struct RssProcessorConfig {
    /// The feed-wide fields.
    pub site: RssSite,
    /// The page rules, in declaration order; the first match wins.
    pub pages: Vec<Page>,
    /// The fallback field expressions.
    pub defaults: RssData,
}

/// The `having` predicate of each page rule, as path and wanted value.
pub open spec fn pages_having_view(pages: Seq<Page>) -> Seq<(Seq<char>, Option<ValView>)> {
    Seq::new(
        pages.len(),
        |i: int|
            if 0 <= i < pages.len() {
                (pages[i].having.path@, having_value_view(pages[i].having))
            } else {
                (Seq::empty(), None)
            },
    )
}

/// The view of an optional text.
pub open spec fn opt_text(o: Option<String>) -> Option<Seq<char>> {
    match o {
        Some(s) => Some(s@),
        None => None,
    }
}

/// Whether the per-item field expressions read the given object.
pub open spec fn rss_data_matches(d: RssData, v: ValView) -> bool {
    &&& v is Obj
    &&& crate::rules::opt_str_field(v->Obj_0, "title"@) == Some(opt_text(d.title))
    &&& crate::rules::opt_str_field(v->Obj_0, "published"@) == Some(opt_text(d.published))
    &&& crate::rules::opt_str_field(v->Obj_0, "creator"@) == Some(opt_text(d.creator))
    &&& crate::rules::opt_str_field(v->Obj_0, "author"@) == Some(opt_text(d.author))
    &&& crate::rules::opt_str_field(v->Obj_0, "description"@) == Some(opt_text(d.description))
    &&& crate::rules::opt_str_field(v->Obj_0, "content"@) == Some(opt_text(d.content))
}

/// Whether an object fits as per-item field expressions.
pub open spec fn rss_data_fits(v: ValView) -> bool {
    &&& v is Obj
    &&& crate::rules::opt_str_field(v->Obj_0, "title"@) is Some
    &&& crate::rules::opt_str_field(v->Obj_0, "published"@) is Some
    &&& crate::rules::opt_str_field(v->Obj_0, "creator"@) is Some
    &&& crate::rules::opt_str_field(v->Obj_0, "author"@) is Some
    &&& crate::rules::opt_str_field(v->Obj_0, "description"@) is Some
    &&& crate::rules::opt_str_field(v->Obj_0, "content"@) is Some
}

/// Every per-item field expression unset.
pub open spec fn rss_data_empty(d: RssData) -> bool {
    d.title is None && d.published is None && d.creator is None && d.author is None
        && d.description is None && d.content is None
}

/// Whether a `having` predicate reads the given object: a required
/// `path` string, and the wanted value exactly as configured.
pub open spec fn rss_having_matches(h: Having, v: ValView) -> bool {
    &&& v is Obj
    &&& crate::rules::opt_str_field(v->Obj_0, "path"@) == Some(Some(h.path@))
    &&& match crate::value::obj_lookup(v->Obj_0, "value"@) {
        None => h.value is None,
        Some(x) => h.value matches Some(w) && w@ == x,
    }
}

/// Whether an object fits as a `having` predicate.
pub open spec fn rss_having_fits(v: ValView) -> bool {
    &&& v is Obj
    &&& match crate::rules::opt_str_field(v->Obj_0, "path"@) {
        Some(p) => p is Some,
        None => false,
    }
}

/// Whether a page rule reads the given object.
pub open spec fn rss_page_matches(p: Page, v: ValView) -> bool {
    &&& v is Obj
    &&& match crate::value::obj_lookup(v->Obj_0, "data"@) {
        None => rss_data_empty(p.data),
        Some(dv) => rss_data_matches(p.data, dv),
    }
    &&& match crate::value::obj_lookup(v->Obj_0, "having"@) {
        Some(hv) => rss_having_matches(p.having, hv),
        None => false,
    }
}

/// Whether an object fits as a page rule.
pub open spec fn rss_page_fits(v: ValView) -> bool {
    &&& v is Obj
    &&& match crate::value::obj_lookup(v->Obj_0, "data"@) {
        None => true,
        Some(dv) => rss_data_fits(dv),
    }
    &&& match crate::value::obj_lookup(v->Obj_0, "having"@) {
        Some(hv) => rss_having_fits(hv),
        None => false,
    }
}

/// Whether the feed-wide fields read the given object (with the period
/// defaulting to `hourly` and the frequency to 1).
pub open spec fn rss_site_matches(s: RssSite, v: ValView) -> bool {
    &&& v is Obj
    &&& crate::rules::opt_str_field(v->Obj_0, "title"@) == Some(opt_text(s.title))
    &&& crate::rules::opt_str_field(v->Obj_0, "language"@) == Some(opt_text(s.language))
    &&& crate::rules::opt_str_field(v->Obj_0, "description"@) == Some(opt_text(s.description))
    &&& match crate::rules::opt_str_field(v->Obj_0, "updatePeriod"@) {
        Some(p) => match p {
            Some(t) => s.update_period@ == t,
            None => s.update_period@ == "hourly"@,
        },
        None => false,
    }
    &&& match crate::value::obj_lookup(v->Obj_0, "updateFrequency"@) {
        None => s.update_frequency == 1,
        Some(f) => crate::helper::basic::as_u64_spec(f) == Some(s.update_frequency as int),
    }
    &&& crate::rules::opt_str_field(v->Obj_0, "updateBase"@) == Some(opt_text(s.update_base))
}

/// Whether an object fits as the feed-wide fields.
pub open spec fn rss_site_fits(v: ValView) -> bool {
    &&& v is Obj
    &&& crate::rules::opt_str_field(v->Obj_0, "title"@) is Some
    &&& crate::rules::opt_str_field(v->Obj_0, "language"@) is Some
    &&& crate::rules::opt_str_field(v->Obj_0, "description"@) is Some
    &&& crate::rules::opt_str_field(v->Obj_0, "updatePeriod"@) is Some
    &&& match crate::value::obj_lookup(v->Obj_0, "updateFrequency"@) {
        None => true,
        Some(f) => crate::helper::basic::as_u64_spec(f) is Some,
    }
    &&& crate::rules::opt_str_field(v->Obj_0, "updateBase"@) is Some
}

/// The feed-wide fields when no `site` object is configured.
pub open spec fn rss_site_default(s: RssSite) -> bool {
    s.title is None && s.language is None && s.description is None && s.update_period@
        == "hourly"@ && s.update_frequency == 1 && s.update_base is None
}

/// Whether an RSS configuration reads the given block.
pub open spec fn rss_config_matches(c: RssProcessorConfig, v: ValView) -> bool {
    &&& v is Obj
    &&& match crate::value::obj_lookup(v->Obj_0, "site"@) {
        None => rss_site_default(c.site),
        Some(sv) => rss_site_matches(c.site, sv),
    }
    &&& match crate::value::obj_lookup(v->Obj_0, "pages"@) {
        Some(pv) => pv matches ValView::Arr(items) && c.pages@.len() == items.len() && (forall|
            i: int,
        |
            0 <= i < items.len() ==> rss_page_matches(#[trigger] c.pages@[i], items[i])),
        None => false,
    }
    &&& match crate::value::obj_lookup(v->Obj_0, "defaults"@) {
        None => rss_data_empty(c.defaults),
        Some(dv) => rss_data_matches(c.defaults, dv),
    }
}

/// Whether a block fits as an RSS configuration.
pub open spec fn rss_config_fits(v: ValView) -> bool {
    &&& v is Obj
    &&& match crate::value::obj_lookup(v->Obj_0, "site"@) {
        None => true,
        Some(sv) => rss_site_fits(sv),
    }
    &&& match crate::value::obj_lookup(v->Obj_0, "pages"@) {
        Some(pv) => pv matches ValView::Arr(items) && (forall|i: int|
            0 <= i < items.len() ==> rss_page_fits(#[trigger] items[i])),
        None => false,
    }
    &&& match crate::value::obj_lookup(v->Obj_0, "defaults"@) {
        None => true,
        Some(dv) => rss_data_fits(dv),
    }
}

/// One optional indented element line: nothing when the text is absent.
pub open spec fn opt_element_bytes(name: Seq<char>, v: Option<Seq<char>>) -> Seq<u8> {
    match v {
        Some(t) => seq![9u8] + crate::processor::xml_text_element_of(name, t) + seq![10u8],
        None => Seq::empty(),
    }
}

/// The bytes of one feed item: link and guid (the page's location) and
/// the mandatory title, then the optional description, content, author,
/// creator and publication date (RFC 2822), each element on its own
/// indented line.
pub open spec fn rss_item_bytes(
    link: Seq<char>,
    title: Seq<char>,
    description: Option<Seq<char>>,
    content: Option<Seq<char>>,
    author: Option<Seq<char>>,
    creator: Option<Seq<char>>,
    pub_date: Option<int>,
) -> Seq<u8> {
    xml_write_open_bytes() + seq![9u8] + crate::processor::xml_text_element_of("link"@, link)
        + seq![10u8] + seq![9u8] + crate::processor::xml_text_element_of("guid"@, link) + seq![
        10u8,
    ] + seq![9u8] + crate::processor::xml_text_element_of("title"@, title) + seq![10u8]
        + opt_element_bytes("description"@, description) + opt_element_bytes(
        "content:encoded"@,
        content,
    ) + opt_element_bytes("author"@, author) + opt_element_bytes("dc:creator"@, creator) + (
    match pub_date {
        Some(t) => seq![9u8] + crate::processor::xml_text_element_of(
            "pubDate"@,
            crate::helper::time::rfc2822_of(t),
        ) + seq![10u8],
        None => Seq::empty(),
    }) + crate::processor::xml_close_tag_of("item"@) + seq![10u8]
}

/// The opening line of one feed item.
pub open spec fn xml_write_open_bytes() -> Seq<u8> {
    crate::processor::xml_open_tag_of("item"@, Seq::empty()) + seq![10u8]
}

/// The attributes of the feed's root element.
pub open spec fn rss_root_attrs() -> Seq<(Seq<char>, Seq<char>)> {
    seq![
        ("version"@, "2.0"@),
        ("xmlns:atom"@, "http://www.w3.org/2005/Atom"@),
        ("xmlns:content"@, "http://purl.org/rss/1.0/modules/content/"@),
        ("xmlns:dc"@, "http://purl.org/dc/elements/1.1/"@),
        ("xmlns:sy"@, "http://purl.org/rss/1.0/modules/syndication/"@),
    ]
}

/// The bytes the feed document opens with: declaration, `rss` and
/// `channel` opening tags, the site link and the feed's own address,
/// the build date, the generator identifier, the (rendered) channel
/// fields where configured, and the syndication hints.
pub open spec fn rss_header_bytes(
    link: Seq<char>,
    feed: Seq<char>,
    build_date: Seq<char>,
    title: Option<Seq<char>>,
    language: Option<Seq<char>>,
    description: Option<Seq<char>>,
    update_period: Seq<char>,
    update_frequency: int,
    update_base: Option<Seq<char>>,
) -> Seq<u8> {
    crate::processor::xml_decl_of("1.0"@, "UTF-8"@) + seq![10u8]
        + crate::processor::xml_open_tag_of("rss"@, rss_root_attrs()) + seq![10u8]
        + crate::processor::xml_open_tag_of("channel"@, Seq::empty()) + seq![10u8]
        + crate::processor::xml_text_element_of("link"@, link) + seq![10u8]
        + crate::processor::xml_empty_tag_of(
        "atom:link"@,
        seq![("href"@, feed), ("rel"@, "self"@), ("type"@, "application/rss+xml"@)],
    ) + seq![10u8] + crate::processor::xml_text_element_of("lastBuildDate"@, build_date) + seq![
        10u8,
    ] + crate::processor::xml_text_element_of(
        "generator"@,
        "https://github.com/ctron/hagen"@,
    ) + seq![10u8] + (match title {
        Some(t) => crate::processor::xml_text_element_of("title"@, t) + seq![10u8],
        None => Seq::empty(),
    }) + (match language {
        Some(t) => crate::processor::xml_text_element_of("language"@, t) + seq![10u8],
        None => Seq::empty(),
    }) + (match description {
        Some(t) => crate::processor::xml_text_element_of("description"@, t) + seq![10u8],
        None => Seq::empty(),
    }) + crate::processor::xml_text_element_of("sy:updatePeriod"@, update_period) + seq![10u8]
        + crate::processor::xml_text_element_of(
        "sy:updateFrequency"@,
        crate::text::u64_dec(update_frequency),
    ) + seq![10u8] + (match update_base {
        Some(b) => crate::processor::xml_text_element_of("sy:updateBase"@, b) + seq![10u8],
        None => Seq::empty(),
    })
}

/// Whether no page rule's predicate admits the rendered data.
pub open spec fn rss_no_match(pages: Seq<Page>, context: ValView) -> bool {
    forall|k: int|
        0 <= k < pages_having_view(pages).len() ==> having_matches_spec(
            pages_having_view(pages)[k].0,
            pages_having_view(pages)[k].1,
            context,
        ) == Some(false)
}

/// One `<item>` appended for the page: link and guid are the page's
/// path resolved under the base, the title is nonempty.
pub open spec fn rss_item_appended(b: RssContext, a: RssContext, output: Output) -> bool {
    crate::helper::url::full_url_for_spec(
        b.base.prefix@,
        b.base.path@,
        b.base.suffix@,
        output.path@,
    ) matches Some(parts) && exists|
        title: Seq<char>,
        description: Option<Seq<char>>,
        content: Option<Seq<char>>,
        author: Option<Seq<char>>,
        creator: Option<Seq<char>>,
        pd: Option<int>,
    |
        title.len() > 0 && a.out@ == b.out@ + rss_item_bytes(
            crate::helper::url::url_str(parts.0, parts.1, parts.2),
            title,
            description,
            content,
            author,
            creator,
            pd,
        )
}

/// A freshly created feed document: its configuration read from the
/// block, the site base kept, and the channel opened with its header.
pub open spec fn rss_created(
    ctx: RssContext,
    base: crate::helper::url::Url,
    block: ValView,
) -> bool {
    rss_config_matches(ctx.config, block) && ctx.base == base && (
    crate::helper::url::full_url_for_spec(
        base.prefix@,
        base.path@,
        base.suffix@,
        "/"@,
    ) matches Some(lp) && crate::helper::url::full_url_for_spec(
        base.prefix@,
        base.path@,
        base.suffix@,
        "/feed.rss"@,
    ) matches Some(fp) && exists|
        bd: Seq<char>,
        t: Option<Seq<char>>,
        lg: Option<Seq<char>>,
        ds: Option<Seq<char>>,
    |
        ((t is Some) == (ctx.config.site.title is Some) && (lg is Some) == (
        ctx.config.site.language is Some) && (ds is Some) == (ctx.config.site.description is Some)
            && ctx.out@ == rss_header_bytes(
            crate::helper::url::url_str(lp.0, lp.1, lp.2),
            crate::helper::url::url_str(fp.0, fp.1, fp.2),
            bd,
            t,
            lg,
            ds,
            ctx.config.site.update_period@,
            ctx.config.site.update_frequency as int,
            opt_text(ctx.config.site.update_base),
        )))
}

/// The RSS processor: active when the configuration has an `rss` block.
pub struct RssProcessor;

/// The open RSS document of one run.
pub struct RssContext {
    /// The configured page rules and field expressions.
    pub config: RssProcessorConfig,
    /// The site base URL.
    pub base: crate::helper::url::Url,
    /// The document bytes so far.
    pub out: Vec<u8>,
}

/// Reads the per-item field expressions from a configuration object
/// (absent fields read as unset).
fn data_from_value(v: &Json) -> (r: Result<RssData, GeneratorError>)
    requires
        v@ is Obj,
    ensures
        r matches Ok(d) ==> rss_data_matches(d, v@),
        r matches Err(e) ==> e is Config && !rss_data_fits(v@),
{
    let title = match crate::rules::get_opt_str_field(v, "title") {
        Ok(x) => x,
        Err(e) => {
            return Err(e);
        },
    };
    let published = match crate::rules::get_opt_str_field(v, "published") {
        Ok(x) => x,
        Err(e) => {
            return Err(e);
        },
    };
    let creator = match crate::rules::get_opt_str_field(v, "creator") {
        Ok(x) => x,
        Err(e) => {
            return Err(e);
        },
    };
    let author = match crate::rules::get_opt_str_field(v, "author") {
        Ok(x) => x,
        Err(e) => {
            return Err(e);
        },
    };
    let description = match crate::rules::get_opt_str_field(v, "description") {
        Ok(x) => x,
        Err(e) => {
            return Err(e);
        },
    };
    let content = match crate::rules::get_opt_str_field(v, "content") {
        Ok(x) => x,
        Err(e) => {
            return Err(e);
        },
    };
    Ok(RssData { title, published, creator, author, description, content })
}

/// The unset per-item fields.
fn empty_data() -> (r: RssData)
    ensures
        rss_data_empty(r),
{
    RssData {
        title: None,
        published: None,
        creator: None,
        author: None,
        description: None,
        content: None,
    }
}

/// Reads the RSS configuration block.
#[verifier::loop_isolation(false)]
#[verifier::rlimit(100)]
fn config_from_value(v: &Json) -> (r: Result<RssProcessorConfig, GeneratorError>)
    ensures
        r matches Ok(c) ==> rss_config_matches(c, v@) && rss_config_fits(v@),
        r matches Err(e) ==> e is Config && !rss_config_fits(v@),
{
    if !v.is_object() {
        return Err(GeneratorError::Config(String::from_str("the rss block is no mapping")));
    }
    let site = match v.get("site") {
        Some(sv) => {
            if !sv.is_object() {
                return Err(GeneratorError::Config(String::from_str("'site' is no mapping")));
            }
            let title = match crate::rules::get_opt_str_field(sv, "title") {
                Ok(x) => x,
                Err(e) => {
                    return Err(e);
                },
            };
            let language = match crate::rules::get_opt_str_field(sv, "language") {
                Ok(x) => x,
                Err(e) => {
                    return Err(e);
                },
            };
            let description = match crate::rules::get_opt_str_field(sv, "description") {
                Ok(x) => x,
                Err(e) => {
                    return Err(e);
                },
            };
            let update_period = match crate::rules::get_opt_str_field(sv, "updatePeriod") {
                Ok(Some(x)) => x,
                Ok(None) => String::from_str("hourly"),
                Err(e) => {
                    return Err(e);
                },
            };
            let update_frequency: u64 = match sv.get("updateFrequency") {
                Some(f) => match crate::helper::basic::as_u64(f) {
                    Some(n) => n,
                    None => {
                        return Err(
                            GeneratorError::Config(
                                String::from_str("'updateFrequency' is not a count"),
                            ),
                        );
                    },
                },
                None => 1,
            };
            let update_base = match crate::rules::get_opt_str_field(sv, "updateBase") {
                Ok(x) => x,
                Err(e) => {
                    return Err(e);
                },
            };
            let built = RssSite {
                title,
                language,
                description,
                update_period,
                update_frequency,
                update_base,
            };
            proof {
                reveal_strlit("hourly");
                assert(rss_site_matches(built, sv@));
                assert(rss_site_fits(sv@));
            }
            built
        },
        None => {
            let built = RssSite {
                title: None,
                language: None,
                description: None,
                update_period: String::from_str("hourly"),
                update_frequency: 1,
                update_base: None,
            };
            proof {
                assert(rss_site_default(built));
            }
            built
        },
    };
    let pages: Vec<Page> = match v.get("pages") {
        Some(pv) => match pv {
            Json::Arr(items) => {
                let mut pages: Vec<Page> = Vec::new();
                let n = items.len();
                for i in 0..n
                    invariant
                        n == items@.len(),
                        pages@.len() == i,
                        forall|k: int|
                            0 <= k < i ==> rss_page_matches(
                                #[trigger] pages@[k],
                                crate::value::arr_view(items@)[k],
                            ),
                        forall|k: int|
                            0 <= k < i ==> rss_page_fits(
                                #[trigger] crate::value::arr_view(items@)[k],
                            ),
                {
                    let ghost iv = crate::value::arr_view(items@);
                    let item = &items[i];
                    proof {
                        assert(item@ == iv[i as int]);
                    }
                    if !item.is_object() {
                        proof {
                            assert(!rss_page_fits(iv[i as int]));
                        }
                        return Err(
                            GeneratorError::Config(String::from_str("a page rule is no mapping")),
                        );
                    }
                    let data = match item.get("data") {
                        Some(dv) => {
                            if !dv.is_object() {
                                proof {
                                    assert(!rss_data_fits(dv@));
                                    assert(!rss_page_fits(iv[i as int]));
                                }
                                return Err(
                                    GeneratorError::Config(
                                        String::from_str("a page rule's data is no mapping"),
                                    ),
                                );
                            }
                            match data_from_value(dv) {
                                Ok(d) => d,
                                Err(e) => {
                                    proof {
                                        assert(!rss_page_fits(iv[i as int]));
                                    }
                                    return Err(e);
                                },
                            }
                        },
                        None => empty_data(),
                    };
                    let having = match item.get("having") {
                        Some(hv) => {
                            if !hv.is_object() {
                                proof {
                                    assert(!rss_having_fits(hv@));
                                    assert(!rss_page_fits(iv[i as int]));
                                }
                                return Err(
                                    GeneratorError::Config(
                                        String::from_str("a page rule's having is no mapping"),
                                    ),
                                );
                            }
                            let path = match crate::rules::get_opt_str_field(hv, "path") {
                                Ok(Some(p)) => p,
                                Ok(None) => {
                                    proof {
                                        assert(!rss_having_fits(hv@));
                                        assert(!rss_page_fits(iv[i as int]));
                                    }
                                    return Err(
                                        GeneratorError::Config(
                                            String::from_str("a having needs a 'path'"),
                                        ),
                                    );
                                },
                                Err(e) => {
                                    proof {
                                        assert(!rss_having_fits(hv@));
                                        assert(!rss_page_fits(iv[i as int]));
                                    }
                                    return Err(e);
                                },
                            };
                            let value = match hv.get("value") {
                                Some(val) => Some(val.deep_clone()),
                                None => None,
                            };
                            let built = Having { path, value };
                            proof {
                                assert(rss_having_matches(built, hv@));
                                assert(rss_having_fits(hv@));
                            }
                            built
                        },
                        None => {
                            proof {
                                assert(!rss_page_fits(iv[i as int]));
                            }
                            return Err(
                                GeneratorError::Config(
                                    String::from_str("a page rule needs a 'having'"),
                                ),
                            );
                        },
                    };
                    let page = Page { data, having };
                    proof {
                        assert(rss_page_matches(page, iv[i as int]));
                        assert(rss_page_fits(iv[i as int]));
                    }
                    pages.push(page);
                }
                proof {
                    assert(pv@ == ValView::Arr(crate::value::arr_view(items@)));
                }
                pages
            },
            _ => {
                return Err(GeneratorError::Config(String::from_str("'pages' is no list")));
            },
        },
        None => {
            return Err(GeneratorError::Config(String::from_str("missing 'pages' list")));
        },
    };
    let defaults = match v.get("defaults") {
        Some(dv) => {
            if !dv.is_object() {
                return Err(GeneratorError::Config(String::from_str("'defaults' is no mapping")));
            }
            match data_from_value(dv) {
                Ok(d) => d,
                Err(e) => {
                    return Err(e);
                },
            }
        },
        None => empty_data(),
    };
    let cfg = RssProcessorConfig { site, pages, defaults };
    proof {
        assert(rss_config_matches(cfg, v@));
        assert(match crate::value::obj_lookup(v@->Obj_0, "site"@) {
            None => true,
            Some(sv) => rss_site_fits(sv),
        });
        assert(match crate::value::obj_lookup(v@->Obj_0, "pages"@) {
            Some(pv2) => pv2 matches ValView::Arr(items2) && (forall|i: int|
                0 <= i < items2.len() ==> rss_page_fits(#[trigger] items2[i])),
            None => false,
        });
        assert(match crate::value::obj_lookup(v@->Obj_0, "defaults"@) {
            None => true,
            Some(dv) => rss_data_fits(dv),
        });
        assert(rss_config_fits(v@));
    }
    Ok(cfg)
}

impl RssProcessor {
    /// Opens the feed document: the declaration, the `rss` and `channel`
    /// opening tags, the site link, the build date (the present moment),
    /// the generator identifier, and the configured channel fields
    /// rendered against the whole site's data. Fails when the
    /// configuration block does not fit, a channel field does not
    /// render, or the site base has no usable feed URL.
    #[verifier::rlimit(100)]
    pub fn create(
        h: &handlebars::Handlebars,
        data: &Json,
        config: &GeneratorConfig,
        processor_config: &Json,
    ) -> (r: Result<RssContext, GeneratorError>)
        ensures
            !rss_config_fits(processor_config@) ==> r is Err,
            r matches Ok(ctx) ==> rss_created(ctx, config.basename, processor_config@),
            (rss_config_fits(processor_config@) && config.basename.wf() && (
            forall|c2: RssProcessorConfig|
                rss_config_matches(c2, processor_config@) ==> c2.site.title is None
                    && c2.site.language is None && c2.site.description is None)) ==> r is Ok,
    {
        let cfg = match config_from_value(processor_config) {
            Ok(c) => c,
            Err(e) => {
                return Err(e);
            },
        };
        let mut out: Vec<u8> = Vec::new();
        xml_write_decl(&mut out, "1.0", "UTF-8");
        out.push(10u8);
        let mut rss_attrs: Vec<(String, String)> = Vec::new();
        rss_attrs.push((String::from_str("version"), String::from_str("2.0")));
        rss_attrs.push(
            (String::from_str("xmlns:atom"), String::from_str("http://www.w3.org/2005/Atom")),
        );
        rss_attrs.push(
            (
                String::from_str("xmlns:content"),
                String::from_str("http://purl.org/rss/1.0/modules/content/"),
            ),
        );
        rss_attrs.push(
            (String::from_str("xmlns:dc"), String::from_str("http://purl.org/dc/elements/1.1/")),
        );
        rss_attrs.push(
            (
                String::from_str("xmlns:sy"),
                String::from_str("http://purl.org/rss/1.0/modules/syndication/"),
            ),
        );
        proof {
            assert(crate::processor::attrs_view(rss_attrs@) =~= rss_root_attrs());
        }
        xml_write_open_tag(&mut out, "rss", &rss_attrs);
        out.push(10u8);
        let no_attrs: Vec<(String, String)> = Vec::new();
        proof {
            assert(crate::processor::attrs_view(no_attrs@) =~= Seq::<
                (Seq<char>, Seq<char>),
            >::empty());
        }
        xml_write_open_tag(&mut out, "channel", &no_attrs);
        out.push(10u8);
        proof {
            // the two fixed references always resolve: the empty path
            // keeps the base, and `feed.rss` merges onto its path
            reveal_strlit("/");
            reveal_strlit("/feed.rss");
            reveal_strlit("feed.rss");
            assert("/feed.rss"@.skip(1) =~= "feed.rss"@);
            reveal_with_fuel(crate::helper::url::scheme_run, 12);
            reveal_with_fuel(crate::text::first_from, 12);
            assert(crate::helper::url::full_url_for_spec(
                config.basename.prefix@,
                config.basename.path@,
                config.basename.suffix@,
                "/"@,
            ) is Some);
            assert(crate::helper::url::full_url_for_spec(
                config.basename.prefix@,
                config.basename.path@,
                config.basename.suffix@,
                "/feed.rss"@,
            ) is Some);
        }
        // the site's own link
        let link = match full_url_for(&config.basename, "/") {
            Ok(u) => u.to_text(),
            Err(e) => {
                return Err(e);
            },
        };
        xml_write_element(&mut out, "link", link.as_str());
        out.push(10u8);
        // the feed's own address
        let feed_url = match full_url_for(&config.basename, "/feed.rss") {
            Ok(u) => u.to_text(),
            Err(e) => {
                return Err(e);
            },
        };
        let ghost feed_url0 = feed_url@;
        let mut atom_attrs: Vec<(String, String)> = Vec::new();
        atom_attrs.push((String::from_str("href"), feed_url));
        atom_attrs.push((String::from_str("rel"), String::from_str("self")));
        atom_attrs.push((String::from_str("type"), String::from_str("application/rss+xml")));
        proof {
            assert(crate::processor::attrs_view(atom_attrs@) =~= seq![
                ("href"@, feed_url0),
                ("rel"@, "self"@),
                ("type"@, "application/rss+xml"@),
            ]);
        }
        xml_write_empty_tag(&mut out, "atom:link", &atom_attrs);
        out.push(10u8);
        // last build date: the present moment, clamped into the RFC 2822
        // calendar (the formatter covers years 0 through 9999 only)
        let now = crate::helper::time::now_epoch();
        let bounded = if now < RFC2822_MIN_EPOCH {
            RFC2822_MIN_EPOCH
        } else if now > RFC2822_MAX_EPOCH {
            RFC2822_MAX_EPOCH
        } else {
            now
        };
        let build_date = epoch_to_rfc2822(bounded);
        xml_write_element(&mut out, "lastBuildDate", build_date.as_str());
        out.push(10u8);
        xml_write_element(&mut out, "generator", "https://github.com/ctron/hagen");
        out.push(10u8);
        // the configured channel fields
        let ghost mut title_text: Option<Seq<char>> = None;
        match &cfg.site.title {
            Some(t) => match render_template(h, t.as_str(), data) {
                Ok(s) => {
                    xml_write_element(&mut out, "title", s.as_str());
                    out.push(10u8);
                    proof {
                        title_text = Some(s@);
                    }
                },
                Err(m) => {
                    return Err(GeneratorError::Render(m));
                },
            },
            None => {},
        }
        let ghost mut language_text: Option<Seq<char>> = None;
        match &cfg.site.language {
            Some(t) => match render_template(h, t.as_str(), data) {
                Ok(s) => {
                    xml_write_element(&mut out, "language", s.as_str());
                    out.push(10u8);
                    proof {
                        language_text = Some(s@);
                    }
                },
                Err(m) => {
                    return Err(GeneratorError::Render(m));
                },
            },
            None => {},
        }
        let ghost mut description_text: Option<Seq<char>> = None;
        match &cfg.site.description {
            Some(t) => match render_template(h, t.as_str(), data) {
                Ok(s) => {
                    xml_write_element(&mut out, "description", s.as_str());
                    out.push(10u8);
                    proof {
                        description_text = Some(s@);
                    }
                },
                Err(m) => {
                    return Err(GeneratorError::Render(m));
                },
            },
            None => {},
        }
        // syndication hints
        xml_write_element(&mut out, "sy:updatePeriod", cfg.site.update_period.as_str());
        out.push(10u8);
        let freq_text = crate::text::u64_string(cfg.site.update_frequency);
        xml_write_element(&mut out, "sy:updateFrequency", freq_text.as_str());
        out.push(10u8);
        match &cfg.site.update_base {
            Some(b) => {
                xml_write_element(&mut out, "sy:updateBase", b.as_str());
                out.push(10u8);
            },
            None => {},
        }
        let ctx = RssContext { config: cfg, base: config.basename.duplicate(), out };
        proof {
            let lp = crate::helper::url::full_url_for_spec(
                config.basename.prefix@,
                config.basename.path@,
                config.basename.suffix@,
                "/"@,
            )->Some_0;
            let fp = crate::helper::url::full_url_for_spec(
                config.basename.prefix@,
                config.basename.path@,
                config.basename.suffix@,
                "/feed.rss"@,
            )->Some_0;
            assert(ctx.out@ =~= rss_header_bytes(
                crate::helper::url::url_str(lp.0, lp.1, lp.2),
                crate::helper::url::url_str(fp.0, fp.1, fp.2),
                build_date@,
                title_text,
                language_text,
                description_text,
                ctx.config.site.update_period@,
                ctx.config.site.update_frequency as int,
                opt_text(ctx.config.site.update_base),
            ));
        }
        Ok(ctx)
    }
}

impl RssContext {
    /// The first page rule whose predicate matches the rendered data;
    /// none when no rule matches. Fails exactly when a rule that would
    /// be consulted has a malformed path expression.
    #[verifier::loop_isolation(false)]
    pub fn matching_page(&self, context: &Json) -> (r: Result<Option<usize>, GeneratorError>)
        ensures
            ({
                let hs = pages_having_view(self.config.pages@);
                match r {
                    Ok(o) => match o {
                        Some(i) => i < hs.len() && having_matches_spec(
                            hs[i as int].0,
                            hs[i as int].1,
                            context@,
                        ) == Some(true) && forall|k: int|
                            0 <= k < i ==> having_matches_spec(
                                hs[k].0,
                                hs[k].1,
                                context@,
                            ) == Some(false),
                        None => forall|k: int|
                            0 <= k < hs.len() ==> having_matches_spec(
                                hs[k].0,
                                hs[k].1,
                                context@,
                            ) == Some(false),
                    },
                    Err(e) => e is Query && exists|i: int|
                        0 <= i < hs.len() && having_matches_spec(
                            hs[i].0,
                            hs[i].1,
                            context@,
                        ) is None,
                }
            }),
    {
        let ghost hs = pages_having_view(self.config.pages@);
        let n = self.config.pages.len();
        for i in 0..n
            invariant
                n == self.config.pages@.len(),
                hs == pages_having_view(self.config.pages@),
                forall|k: int|
                    0 <= k < i ==> having_matches_spec(hs[k].0, hs[k].1, context@) == Some(
                        false,
                    ),
        {
            match self.config.pages[i].having.matches(context) {
                Ok(true) => {
                    return Ok(Some(i));
                },
                Ok(false) => {},
                Err(e) => {
                    proof {
                        assert(having_matches_spec(
                            hs[i as int].0,
                            hs[i as int].1,
                            context@,
                        ) is None);
                    }
                    return Err(e);
                },
            }
        }
        Ok(None)
    }

    /// One item field: the page rule's expression, or the default one,
    /// rendered and trimmed; empty renders count as absent.
    fn eval_value(
        h: &handlebars::Handlebars,
        context: &Json,
        page_field: &Option<String>,
        default_field: &Option<String>,
    ) -> (r: Result<Option<String>, GeneratorError>)
        ensures
            r matches Ok(o) ==> ((page_field is None && default_field is None) ==> o is None) && (o
                matches Some(s) ==> s@.len() > 0),
            r matches Err(e) ==> e is Render,
    {
        let expr: &String = match (page_field, default_field) {
            (Some(x), _) => x,
            (None, Some(x)) => x,
            (None, None) => {
                return Ok(None);
            },
        };
        match value_by_template(h, context, expr.as_str()) {
            Ok(s) => {
                if s.as_str().unicode_len() == 0 {
                    Ok(None)
                } else {
                    Ok(Some(s))
                }
            },
            Err(e) => Err(e),
        }
    }

    /// Appends one `<item>` for a produced page when the first matching
    /// page rule admits it; a page matching no rule adds nothing, and on
    /// any error nothing is written. The item carries link and guid (the
    /// page's location) and the title — which the matched rule must
    /// yield, a fatal error otherwise — and the optional description,
    /// content, author, creator and publication date (which must be an
    /// RFC 3339 timestamp within the RFC 2822 calendar).
    #[verifier::rlimit(100)]
    pub fn file_created(
        &mut self,
        output: &Output,
        context: &Json,
        h: &handlebars::Handlebars,
    ) -> (r: Result<(), GeneratorError>)
        ensures
            final(self).config == old(self).config,
            final(self).base == old(self).base,
            r matches Err(_) ==> final(self).out@ == old(self).out@,
            rss_no_match(old(self).config.pages@, context@) ==> (r is Ok && final(self).out@
                == old(self).out@),
            ({
                // the first matching rule must yield a title
                let hs = pages_having_view(old(self).config.pages@);
                forall|i: int|
                    #![auto]
                    (0 <= i < hs.len() && having_matches_spec(hs[i].0, hs[i].1, context@) == Some(
                        true,
                    ) && (forall|k: int|
                        0 <= k < i ==> having_matches_spec(hs[k].0, hs[k].1, context@) == Some(
                            false,
                        )) && old(self).config.pages@[i].data.title is None && old(
                        self,
                    ).config.defaults.title is None) ==> r is Err
            }),
            (!rss_no_match(old(self).config.pages@, context@) && r is Ok) ==> rss_item_appended(
                *old(self),
                *final(self),
                *output,
            ),
    {
        let m = match self.matching_page(context) {
            Ok(Some(i)) => i,
            Ok(None) => {
                return Ok(());
            },
            Err(e) => {
                return Err(e);
            },
        };
        let page_data = &self.config.pages[m].data;
        let title = match Self::eval_value(h, context, &page_data.title, &self.config.defaults.title) {
            Ok(Some(t)) => t,
            Ok(None) => {
                return Err(
                    GeneratorError::Render(
                        String::from_str("missing value for 'title' for an RSS item"),
                    ),
                );
            },
            Err(e) => {
                return Err(e);
            },
        };
        let creator = match Self::eval_value(
            h,
            context,
            &page_data.creator,
            &self.config.defaults.creator,
        ) {
            Ok(x) => x,
            Err(e) => {
                return Err(e);
            },
        };
        let author = match Self::eval_value(
            h,
            context,
            &page_data.author,
            &self.config.defaults.author,
        ) {
            Ok(x) => x,
            Err(e) => {
                return Err(e);
            },
        };
        let ghost mut pub_epoch: Option<int> = None;
        let pub_date: Option<String> = match Self::eval_value(
            h,
            context,
            &page_data.published,
            &self.config.defaults.published,
        ) {
            Ok(Some(p)) => match parse_rfc3339_epoch(p.as_str()) {
                Some(e) => {
                    if e < RFC2822_MIN_EPOCH || e > RFC2822_MAX_EPOCH {
                        // an offset can push a year-0 or year-9999 instant
                        // outside the RFC 2822 calendar
                        return Err(
                            GeneratorError::Config(
                                String::from_str(
                                    "the published timestamp lies outside the RFC 2822 calendar",
                                ),
                            ),
                        );
                    }
                    proof {
                        pub_epoch = Some(e as int);
                    }
                    Some(epoch_to_rfc2822(e))
                },
                None => {
                    return Err(
                        GeneratorError::Config(
                            String::from_str("the published value is not an RFC 3339 timestamp"),
                        ),
                    );
                },
            },
            Ok(None) => None,
            Err(e) => {
                return Err(e);
            },
        };
        let description = match Self::eval_value(
            h,
            context,
            &page_data.description,
            &self.config.defaults.description,
        ) {
            Ok(x) => x,
            Err(e) => {
                return Err(e);
            },
        };
        let content = match Self::eval_value(
            h,
            context,
            &page_data.content,
            &self.config.defaults.content,
        ) {
            Ok(x) => x,
            Err(e) => {
                return Err(e);
            },
        };
        // the item's location
        let url = match full_url_for(&self.base, output.path.as_str()) {
            Ok(u) => u.to_text(),
            Err(e) => {
                return Err(e);
            },
        };
        self.write_item(
            url.as_str(),
            title.as_str(),
            &description,
            &content,
            &author,
            &creator,
            &pub_date,
            Ghost(pub_epoch),
        );
        proof {
            let parts = crate::helper::url::full_url_for_spec(
                old(self).base.prefix@,
                old(self).base.path@,
                old(self).base.suffix@,
                output.path@,
            )->Some_0;
            assert(url@ == crate::helper::url::url_str(parts.0, parts.1, parts.2));
            assert(self.out@ == old(self).out@ + rss_item_bytes(
                crate::helper::url::url_str(parts.0, parts.1, parts.2),
                title@,
                opt_text(description),
                opt_text(content),
                opt_text(author),
                opt_text(creator),
                pub_epoch,
            ));
            assert(rss_item_appended(*old(self), *self, *output));
        }
        Ok(())
    }


    /// Appends one optional indented element line.
    fn write_opt_element(&mut self, name: &str, v: &Option<String>)
        ensures
            final(self).config == old(self).config,
            final(self).base == old(self).base,
            final(self).out@ == old(self).out@ + opt_element_bytes(name@, opt_text(*v)),
    {
        match v {
            Some(t) => {
                self.out.push(9u8);
                xml_write_element(&mut self.out, name, t.as_str());
                self.out.push(10u8);
                proof {
                    assert(self.out@ =~= old(self).out@ + opt_element_bytes(name@, opt_text(*v)));
                }
            },
            None => {
                proof {
                    assert(self.out@ =~= old(self).out@ + opt_element_bytes(name@, opt_text(*v)));
                }
            },
        }
    }

    /// Appends one `<item>` element with the given parts.
    #[verifier::rlimit(100)]
    #[verifier::spinoff_prover]
    fn write_item(
        &mut self,
        url: &str,
        title: &str,
        description: &Option<String>,
        content: &Option<String>,
        author: &Option<String>,
        creator: &Option<String>,
        pub_date: &Option<String>,
        Ghost(pub_epoch): Ghost<Option<int>>,
    )
        requires
            (pub_date is Some) == (pub_epoch is Some),
            pub_date matches Some(p) ==> p@ == crate::helper::time::rfc2822_of(
                pub_epoch->Some_0,
            ),
        ensures
            final(self).config == old(self).config,
            final(self).base == old(self).base,
            final(self).out@ == old(self).out@ + rss_item_bytes(
                url@,
                title@,
                opt_text(*description),
                opt_text(*content),
                opt_text(*author),
                opt_text(*creator),
                pub_epoch,
            ),
    {
        let no_attrs: Vec<(String, String)> = Vec::new();
        proof {
            assert(crate::processor::attrs_view(no_attrs@) =~= Seq::<
                (Seq<char>, Seq<char>),
            >::empty());
        }
        let ghost base = old(self).out@;
        xml_write_open_tag(&mut self.out, "item", &no_attrs);
        self.out.push(10u8);
        self.out.push(9u8);
        xml_write_element(&mut self.out, "link", url);
        self.out.push(10u8);
        let ghost step1 = base + xml_write_open_bytes() + seq![9u8]
            + crate::processor::xml_text_element_of("link"@, url@) + seq![10u8];
        proof {
            assert(self.out@ =~= step1);
        }
        self.out.push(9u8);
        xml_write_element(&mut self.out, "guid", url);
        self.out.push(10u8);
        self.out.push(9u8);
        xml_write_element(&mut self.out, "title", title);
        self.out.push(10u8);
        let ghost step2 = step1 + seq![9u8] + crate::processor::xml_text_element_of("guid"@, url@)
            + seq![10u8] + seq![9u8] + crate::processor::xml_text_element_of("title"@, title@)
            + seq![10u8];
        proof {
            assert(self.out@ =~= step2);
        }
        self.write_opt_element("description", description);
        self.write_opt_element("content:encoded", content);
        let ghost step3 = step2 + opt_element_bytes("description"@, opt_text(*description))
            + opt_element_bytes("content:encoded"@, opt_text(*content));
        proof {
            assert(self.out@ =~= step3);
        }
        self.write_opt_element("author", author);
        self.write_opt_element("dc:creator", creator);
        let ghost step4 = step3 + opt_element_bytes("author"@, opt_text(*author))
            + opt_element_bytes("dc:creator"@, opt_text(*creator));
        proof {
            assert(self.out@ =~= step4);
        }
        self.write_opt_element("pubDate", pub_date);
        xml_write_close_tag(&mut self.out, "item");
        self.out.push(10u8);
        let ghost step5 = step4 + (match pub_epoch {
            Some(t) => seq![9u8] + crate::processor::xml_text_element_of(
                "pubDate"@,
                crate::helper::time::rfc2822_of(t),
            ) + seq![10u8],
            None => Seq::empty(),
        }) + crate::processor::xml_close_tag_of("item"@) + seq![10u8];
        proof {
            assert(opt_element_bytes("pubDate"@, opt_text(*pub_date)) =~= (match pub_epoch {
                Some(t) => seq![9u8] + crate::processor::xml_text_element_of(
                    "pubDate"@,
                    crate::helper::time::rfc2822_of(t),
                ) + seq![10u8],
                None => Seq::<u8>::empty(),
            }));
            assert(self.out@ =~= step5);
            assert(step5 =~= base + rss_item_bytes(
                url@,
                title@,
                opt_text(*description),
                opt_text(*content),
                opt_text(*author),
                opt_text(*creator),
                pub_epoch,
            ));
        }
    }

    /// Closes the `channel` and `rss` elements.
    pub fn complete(&mut self)
        ensures
            final(self).out@ == old(self).out@ + xml_close_tag_of("channel"@) + seq![10u8]
                + xml_close_tag_of("rss"@) + seq![10u8],
    {
        xml_write_close_tag(&mut self.out, "channel");
        self.out.push(10u8);
        xml_write_close_tag(&mut self.out, "rss");
        self.out.push(10u8);
        proof {
            assert(self.out@ =~= old(self).out@ + xml_close_tag_of("channel"@) + seq![10u8]
                + xml_close_tag_of("rss"@) + seq![10u8]);
        }
    }
}

} // verus!
