//! The feed processors: observers that see every produced page and
//! accumulate an XML document (sitemap, RSS feed) over the whole run,
//! closed exactly once at the end. Each document grows in a byte
//! buffer; writing the finished buffer to disk happens outside.

use crate::error::GeneratorError;
use crate::generator::{GeneratorConfig, Output};
use crate::interop::render_template;
use crate::text;
use crate::value::{obj_lookup, Json, ValView};
use vstd::prelude::*;

pub mod rss;
pub mod sitemap;

verus! {

/// The bytes of one XML element holding escaped text:
/// `<name>text</name>` with the text's markup characters escaped.
pub uninterp spec fn xml_text_element_of(name: Seq<char>, value: Seq<char>) -> Seq<u8>;

/// Relies on `quick_xml`'s `Writer` with `BytesStart`, `BytesText` and
/// `BytesEnd`: writes one element with the value as escaped text; the
/// bytes depend on the name and the value alone.
#[verifier::external_body]
pub fn xml_write_element(out: &mut Vec<u8>, name: &str, value: &str)
    ensures
        final(out)@ == old(out)@ + xml_text_element_of(name@, value@),
{
    let mut w = quick_xml::Writer::new(&mut *out);
    let _ = w.write_event(quick_xml::events::Event::Start(quick_xml::events::BytesStart::new(
        name,
    )));
    let _ = w.write_event(quick_xml::events::Event::Text(quick_xml::events::BytesText::new(
        value,
    )));
    let _ = w.write_event(quick_xml::events::Event::End(quick_xml::events::BytesEnd::new(name)));
}

/// The bytes of one XML document declaration for a version and an
/// encoding.
pub uninterp spec fn xml_decl_of(version: Seq<char>, encoding: Seq<char>) -> Seq<u8>;

/// Relies on `quick_xml`'s `BytesDecl`: writes the document
/// declaration; the bytes depend on the version and encoding alone.
#[verifier::external_body]
pub fn xml_write_decl(out: &mut Vec<u8>, version: &str, encoding: &str)
    ensures
        final(out)@ == old(out)@ + xml_decl_of(version@, encoding@),
{
    let mut w = quick_xml::Writer::new(&mut *out);
    let _ = w.write_event(quick_xml::events::Event::Decl(quick_xml::events::BytesDecl::new(
        version,
        Some(encoding),
        None,
    )));
}

/// The bytes of one XML opening tag with the given attributes.
pub uninterp spec fn xml_open_tag_of(name: Seq<char>, attrs: Seq<(Seq<char>, Seq<char>)>) -> Seq<
    u8,
>;

/// The views of attribute pairs.
pub open spec fn attrs_view(attrs: Seq<(String, String)>) -> Seq<(Seq<char>, Seq<char>)> {
    Seq::new(
        attrs.len(),
        |i: int|
            if 0 <= i < attrs.len() {
                (attrs[i].0@, attrs[i].1@)
            } else {
                (Seq::empty(), Seq::empty())
            },
    )
}

/// Relies on `quick_xml`'s `BytesStart::with_attributes`: writes one
/// opening tag; the bytes depend on the name and the attributes alone.
#[verifier::external_body]
pub fn xml_write_open_tag(out: &mut Vec<u8>, name: &str, attrs: &Vec<(String, String)>)
    ensures
        final(out)@ == old(out)@ + xml_open_tag_of(name@, attrs_view(attrs@)),
{
    let mut w = quick_xml::Writer::new(&mut *out);
    let start = quick_xml::events::BytesStart::new(name).with_attributes(
        attrs.iter().map(|kv| (kv.0.as_str(), kv.1.as_str())),
    );
    let _ = w.write_event(quick_xml::events::Event::Start(start));
}

/// The bytes of one XML closing tag.
pub uninterp spec fn xml_close_tag_of(name: Seq<char>) -> Seq<u8>;

/// Relies on `quick_xml`'s `BytesEnd`: writes one closing tag; the
/// bytes depend on the name alone.
#[verifier::external_body]
pub fn xml_write_close_tag(out: &mut Vec<u8>, name: &str)
    ensures
        final(out)@ == old(out)@ + xml_close_tag_of(name@),
{
    let mut w = quick_xml::Writer::new(&mut *out);
    let _ = w.write_event(quick_xml::events::Event::End(quick_xml::events::BytesEnd::new(name)));
}

/// The bytes of one empty XML element with the given attributes.
pub uninterp spec fn xml_empty_tag_of(name: Seq<char>, attrs: Seq<(Seq<char>, Seq<char>)>) -> Seq<
    u8,
>;

/// Relies on `quick_xml`'s `BytesStart::with_attributes` written as an
/// empty element; the bytes depend on the name and attributes alone.
#[verifier::external_body]
pub fn xml_write_empty_tag(out: &mut Vec<u8>, name: &str, attrs: &Vec<(String, String)>)
    ensures
        final(out)@ == old(out)@ + xml_empty_tag_of(name@, attrs_view(attrs@)),
{
    let mut w = quick_xml::Writer::new(&mut *out);
    let start = quick_xml::events::BytesStart::new(name).with_attributes(
        attrs.iter().map(|kv| (kv.0.as_str(), kv.1.as_str())),
    );
    let _ = w.write_event(quick_xml::events::Event::Empty(start));
}

/// Renders a template expression against a context and trims the
/// result — how every configured field expression is evaluated.
pub fn value_by_template(h: &handlebars::Handlebars, context: &Json, template: &str) -> (r: Result<
    String,
    GeneratorError,
>)
    ensures
        r matches Err(e) ==> e is Render,
{
    match render_template(h, template, context) {
        Ok(s) => {
            let cs = text::str_chars(s.as_str());
            let t = text::trim_chars(&cs);
            Ok(text::chars_string(t.as_slice()))
        },
        Err(m) => Err(GeneratorError::Render(m)),
    }
}

/// A structural predicate on a page's rendered data: a path expression,
/// and optionally the value it must hold.
pub struct Having {
    /// The path expression tested against the data.
    pub path: String,
    /// The value the field must equal, when one is required.
    pub value: Option<Json>,
}

/// Whether a `having` predicate matches: its field is present (the
/// query's first match), and equals the required value when one is set.
/// Nothing when the path expression is refused or malformed.
pub open spec fn having_matches_spec(
    path: Seq<char>,
    value: Option<ValView>,
    context: ValView,
) -> Option<bool> {
    match crate::path::jsonpath_query(context, path) {
        None => None,
        Some(found) => Some(
            found.len() > 0 && (match value {
                Some(v) => v == found[0],
                None => true,
            }),
        ),
    }
}

/// The view of a `having` predicate's required value.
pub open spec fn having_value_view(h: Having) -> Option<ValView> {
    match h.value {
        Some(v) => Some(v@),
        None => None,
    }
}

impl Having {
    /// Whether the predicate matches the rendered data. Fails exactly
    /// when the path expression is malformed.
    pub fn matches(&self, context: &Json) -> (r: Result<bool, GeneratorError>)
        ensures
            r matches Ok(b) ==> having_matches_spec(self.path@, having_value_view(*self), context@)
                == Some(b),
            r matches Err(e) ==> having_matches_spec(
                self.path@,
                having_value_view(*self),
                context@,
            ) is None && e is Query,
    {
        match crate::path::first_value_for_path(context, self.path.as_str()) {
            Ok(found) => match (&self.value, found) {
                (Some(v1), Some(v2)) => Ok(crate::value::value_eq(v1, &v2)),
                (None, Some(_)) => Ok(true),
                (_, None) => Ok(false),
            },
            Err(e) => Err(e),
        }
    }
}

/// One open feed document per active processor, fed every produced
/// page, closed exactly once at the end.
pub struct ProcessorSession {
    /// The sitemap accumulator, when a `sitemap` block is configured.
    pub sitemap: Option<sitemap::SitemapContext>,
    /// The RSS accumulator, when an `rss` block is configured.
    pub rss: Option<rss::RssContext>,
}

impl ProcessorSession {
    /// Opens one document per processor that has a configuration block
    /// under its name: `sitemap` and `rss`. A processor without a block
    /// stays inactive for the run; one whose creation fails fails the
    /// whole session, and a sitemap-only session cannot fail when its
    /// block fits.
    pub fn new(
        h: &handlebars::Handlebars,
        data: &Json,
        config: &GeneratorConfig,
        processor_configs: &Vec<(String, Json)>,
    ) -> (r: Result<ProcessorSession, GeneratorError>)
        ensures
            r matches Ok(s) ==> {
                &&& match obj_lookup(
                    crate::value::pairs_view(processor_configs@),
                    "sitemap"@,
                ) {
                    Some(block) => s.sitemap matches Some(ctx) && sitemap::sitemap_created(
                        ctx,
                        config.basename,
                        block,
                    ),
                    None => s.sitemap is None,
                }
                &&& match obj_lookup(crate::value::pairs_view(processor_configs@), "rss"@) {
                    Some(block) => s.rss matches Some(ctx) && rss::rss_created(
                        ctx,
                        config.basename,
                        block,
                    ),
                    None => s.rss is None,
                }
            },
            r is Err ==> (match obj_lookup(
                crate::value::pairs_view(processor_configs@),
                "sitemap"@,
            ) {
                Some(block) => !sitemap::sitemap_block_fits(block),
                None => false,
            }) || obj_lookup(crate::value::pairs_view(processor_configs@), "rss"@) is Some,
            (obj_lookup(crate::value::pairs_view(processor_configs@), "rss"@) is None && (
            match obj_lookup(crate::value::pairs_view(processor_configs@), "sitemap"@) {
                Some(block) => sitemap::sitemap_block_fits(block),
                None => true,
            })) ==> r is Ok,
    {
        let sm = match crate::value::obj_get(processor_configs, "sitemap") {
            Some(block) => match sitemap::SitemapProcessor::create(config, block) {
                Ok(ctx) => Some(ctx),
                Err(e) => {
                    return Err(e);
                },
            },
            None => None,
        };
        let rs = match crate::value::obj_get(processor_configs, "rss") {
            Some(block) => match rss::RssProcessor::create(h, data, config, block) {
                Ok(ctx) => Some(ctx),
                Err(e) => {
                    return Err(e);
                },
            },
            None => None,
        };
        Ok(ProcessorSession { sitemap: sm, rss: rs })
    }

    /// Tells every active processor that a page was produced, in a
    /// fixed order: the sitemap first, then the RSS feed; the first
    /// error is returned and the feed is not consulted after a sitemap
    /// error.
    pub fn file_created(
        &mut self,
        output: &Output,
        context: &Json,
        h: &handlebars::Handlebars,
    ) -> (r: Result<(), GeneratorError>)
        ensures
            (final(self).sitemap is Some) == (old(self).sitemap is Some),
            (final(self).rss is Some) == (old(self).rss is Some),
            match (old(self).sitemap, final(self).sitemap) {
                (Some(b), Some(a)) => a.config == b.config && a.base == b.base && (r is Ok
                    ==> sitemap::sitemap_appended(b, a, *output)),
                (None, None) => true,
                _ => false,
            },
            match (old(self).rss, final(self).rss) {
                (Some(b), Some(a)) => a.config == b.config && a.base == b.base && (r is Ok
                    ==> (if rss::rss_no_match(b.config.pages@, context@) {
                    a.out@ == b.out@
                } else {
                    rss::rss_item_appended(b, a, *output)
                })),
                (None, None) => true,
                _ => false,
            },
            // a failing step leaves everything after it untouched, and
            // nothing half-written behind
            r is Err ==> (match (old(self).rss, final(self).rss) {
                (Some(b), Some(a)) => a.out@ == b.out@ || (match (
                    old(self).sitemap,
                    final(self).sitemap,
                ) {
                    (Some(sb), Some(sa)) => sitemap::sitemap_appended(sb, sa, *output),
                    (None, None) => true,
                    _ => false,
                }),
                (None, None) => true,
                _ => false,
            }) && (match (old(self).sitemap, final(self).sitemap) {
                (Some(sb), Some(sa)) => sa.out@ == sb.out@ || sitemap::sitemap_appended(
                    sb,
                    sa,
                    *output,
                ),
                (None, None) => true,
                _ => false,
            }),
    {
        match &mut self.sitemap {
            Some(ctx) => {
                let res = ctx.file_created(output, context, h);
                match res {
                    Ok(()) => {},
                    Err(e) => {
                        return Err(e);
                    },
                }
            },
            None => {},
        }
        match &mut self.rss {
            Some(ctx) => {
                let res = ctx.file_created(output, context, h);
                match res {
                    Ok(()) => {},
                    Err(e) => {
                        return Err(e);
                    },
                }
            },
            None => {},
        }
        Ok(())
    }

    /// Closes every open document, in the same fixed order.
    pub fn complete(&mut self) -> (r: Result<(), GeneratorError>)
        ensures
            r is Ok,
            match (old(self).sitemap, final(self).sitemap) {
                (Some(before), Some(after)) => after.out@ == before.out@ + xml_close_tag_of(
                    "urlset"@,
                ),
                (None, None) => true,
                _ => false,
            },
            match (old(self).rss, final(self).rss) {
                (Some(before), Some(after)) => after.out@ == before.out@ + xml_close_tag_of(
                    "channel"@,
                ) + seq![10u8] + xml_close_tag_of("rss"@) + seq![10u8],
                (None, None) => true,
                _ => false,
            },
    {
        match &mut self.sitemap {
            Some(ctx) => {
                ctx.complete();
            },
            None => {},
        }
        match &mut self.rss {
            Some(ctx) => {
                ctx.complete();
            },
            None => {},
        }
        Ok(())
    }
}

} // verus!
