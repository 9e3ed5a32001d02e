//! The sitemap processor: one `<url>` entry per produced page, with an
//! optional last-modified date, change frequency and priority read from
//! configured field expressions.

use crate::error::GeneratorError;
use crate::generator::{GeneratorConfig, Output};
use crate::helper::time::{parse_rfc3339_epoch, rfc3339_secs_of};
use crate::helper::url::full_url_for;
use crate::processor::{
    value_by_template, xml_close_tag_of, xml_open_tag_of, xml_text_element_of,
    xml_write_close_tag, xml_write_decl, xml_write_element, xml_write_open_tag,
};
use crate::value::Json;
use vstd::prelude::*;

verus! {

/// How often a page is expected to change, as the sitemap format
/// enumerates it.
pub enum ChangeFrequency {
    Always,
    Hourly,
    Daily,
    Weekly,
    Monthly,
    Yearly,
    Never,
}

/// The text of each change frequency.
pub open spec fn change_frequency_text(f: ChangeFrequency) -> Seq<char> {
    match f {
        ChangeFrequency::Always => "always"@,
        ChangeFrequency::Hourly => "hourly"@,
        ChangeFrequency::Daily => "daily"@,
        ChangeFrequency::Weekly => "weekly"@,
        ChangeFrequency::Monthly => "monthly"@,
        ChangeFrequency::Yearly => "yearly"@,
        ChangeFrequency::Never => "never"@,
    }
}

/// Whether a text names a change frequency.
pub open spec fn is_change_frequency_text(s: Seq<char>) -> bool {
    s == "always"@ || s == "hourly"@ || s == "daily"@ || s == "weekly"@ || s == "monthly"@ || s
        == "yearly"@ || s == "never"@
}

/// The frequency a text names (meaningful on the seven texts).
pub open spec fn frequency_of_text(s: Seq<char>) -> ChangeFrequency {
    if s == "always"@ {
        ChangeFrequency::Always
    } else if s == "hourly"@ {
        ChangeFrequency::Hourly
    } else if s == "daily"@ {
        ChangeFrequency::Daily
    } else if s == "weekly"@ {
        ChangeFrequency::Weekly
    } else if s == "monthly"@ {
        ChangeFrequency::Monthly
    } else if s == "yearly"@ {
        ChangeFrequency::Yearly
    } else {
        ChangeFrequency::Never
    }
}

impl ChangeFrequency {
    /// Reads a change frequency from its text. Fails exactly on any
    /// other text: an unreadable frequency is a fatal configuration
    /// error.
    pub fn from_text(s: &str) -> (r: Result<ChangeFrequency, GeneratorError>)
        ensures
            r matches Ok(f) ==> is_change_frequency_text(s@) && change_frequency_text(f) == s@
                && f == frequency_of_text(s@),
            r matches Err(e) ==> !is_change_frequency_text(s@) && e is Config,
    {
        proof {
            reveal_strlit("always");
            reveal_strlit("hourly");
            reveal_strlit("daily");
            reveal_strlit("weekly");
            reveal_strlit("monthly");
            reveal_strlit("yearly");
            reveal_strlit("never");
        }
        if crate::text::str_eq(s, "always") {
            Ok(ChangeFrequency::Always)
        } else if crate::text::str_eq(s, "hourly") {
            Ok(ChangeFrequency::Hourly)
        } else if crate::text::str_eq(s, "daily") {
            Ok(ChangeFrequency::Daily)
        } else if crate::text::str_eq(s, "weekly") {
            Ok(ChangeFrequency::Weekly)
        } else if crate::text::str_eq(s, "monthly") {
            Ok(ChangeFrequency::Monthly)
        } else if crate::text::str_eq(s, "yearly") {
            Ok(ChangeFrequency::Yearly)
        } else if crate::text::str_eq(s, "never") {
            Ok(ChangeFrequency::Never)
        } else {
            Err(GeneratorError::Config(String::from_str("not a change frequency")))
        }
    }

    /// The frequency's text.
    pub fn text(&self) -> (r: &'static str)
        ensures
            r@ == change_frequency_text(*self),
    {
        match self {
            ChangeFrequency::Always => "always",
            ChangeFrequency::Hourly => "hourly",
            ChangeFrequency::Daily => "daily",
            ChangeFrequency::Weekly => "weekly",
            ChangeFrequency::Monthly => "monthly",
            ChangeFrequency::Yearly => "yearly",
            ChangeFrequency::Never => "never",
        }
    }
}

/// Whether a text spells a decimal number: an optional sign, digits
/// with at most one point (at least one digit), and an optional
/// exponent part.
pub open spec fn is_numeric_text(s: Seq<char>) -> bool {
    let b = if s.len() > 0 && (s[0] == '+' || s[0] == '-') {
        s.skip(1)
    } else {
        s
    };
    let ee = first_exp_idx(b);
    mantissa_ok(b.take(ee)) && exponent_ok(b.skip(ee))
}

/// The first exponent marker's index, or the length.
pub open spec fn first_exp_idx(b: Seq<char>) -> int {
    let i = crate::text::first_from(b, 'e', 0);
    let j = crate::text::first_from(b, 'E', 0);
    if i < j {
        i
    } else {
        j
    }
}

/// Digits with at most one point among them, at least one digit.
pub open spec fn mantissa_ok(m: Seq<char>) -> bool {
    let di = crate::text::first_from(m, '.', 0);
    if di == m.len() {
        crate::value::digits_only(m) && m.len() > 0
    } else {
        crate::value::digits_only(m.take(di)) && crate::value::digits_only(m.skip(di + 1)) && (di
            > 0 || m.len() - di - 1 > 0)
    }
}

/// An empty exponent part, or a marker, an optional sign, and digits.
pub open spec fn exponent_ok(ex: Seq<char>) -> bool {
    if ex.len() == 0 {
        true
    } else {
        let t = if ex.len() > 1 && (ex[1] == '+' || ex[1] == '-') {
            ex.skip(2)
        } else {
            ex.skip(1)
        };
        crate::value::digits_only(t) && t.len() > 0
    }
}

/// Whether every character of the slice is a digit.
#[verifier::loop_isolation(false)]
fn digits_only_exec(m: &[char]) -> (r: bool)
    ensures
        r == crate::value::digits_only(m@),
{
    let n = m.len();
    for i in 0..n
        invariant
            n == m@.len(),
            forall|k: int| 0 <= k < i ==> '0' <= #[trigger] m@[k] && m@[k] <= '9',
    {
        let c = m[i];
        let cv = c as u32;
        proof {
            vstd::utf8::char_u32_cast(c, cv);
        }
        if cv < '0' as u32 || cv > '9' as u32 {
            proof {
                if '0' <= c && c <= '9' {
                    assert(('0' as u32) <= cv && cv <= ('9' as u32));
                }
            }
            return false;
        }
        proof {
            assert('0' <= c && c <= '9') by {
                if c < '0' || c > '9' {
                    assert(cv < ('0' as u32) || cv > ('9' as u32));
                }
            }
        }
    }
    true
}

/// Whether the text spells a decimal number.
#[verifier::loop_isolation(false)]
#[verifier::rlimit(50)]
fn is_numeric(s: &str) -> (r: bool)
    ensures
        r == is_numeric_text(s@),
{
    let cs = crate::text::str_chars(s);
    let n = cs.len();
    let start: usize = if n > 0 && (cs[0] == '+' || cs[0] == '-') {
        1
    } else {
        0
    };
    let b = vstd::slice::slice_to_vec(vstd::slice::slice_subrange(cs.as_slice(), start, n));
    proof {
        if start == 1 {
            assert(b@ =~= s@.skip(1));
        } else {
            assert(b@ =~= s@);
        }
    }
    let ei = crate::text::find_char_from(&b, 0, 'e');
    let ej = crate::text::find_char_from(&b, 0, 'E');
    let ee = if ei < ej {
        ei
    } else {
        ej
    };
    let m = vstd::slice::slice_subrange(b.as_slice(), 0, ee);
    proof {
        assert(m@ =~= b@.take(ee as int));
    }
    let bn = b.len();
    let di = crate::text::find_char_from(&b, 0, '.');
    let mantissa = if di >= ee {
        proof {
            assert(crate::text::first_from(m@, '.', 0) == m@.len()) by {
                crate::text::lemma_first_from_at(m@, '.', 0, m@.len() as int);
            }
        }
        digits_only_exec(m) && ee > 0
    } else {
        proof {
            assert(crate::text::first_from(m@, '.', 0) == di) by {
                crate::text::lemma_first_from_at(m@, '.', 0, di as int);
            }
        }
        let w = vstd::slice::slice_subrange(b.as_slice(), 0, di);
        let f = vstd::slice::slice_subrange(b.as_slice(), di + 1, ee);
        proof {
            assert(w@ =~= m@.take(di as int));
            assert(f@ =~= m@.skip(di + 1));
        }
        digits_only_exec(w) && digits_only_exec(f) && (di > 0 || ee - di - 1 > 0)
    };
    if !mantissa {
        return false;
    }
    if ee == bn {
        proof {
            assert(b@.skip(ee as int) =~= Seq::<char>::empty());
        }
        return true;
    }
    let tstart: usize = if ee + 1 < bn && (b[ee + 1] == '+' || b[ee + 1] == '-') {
        ee + 2
    } else {
        ee + 1
    };
    let t = vstd::slice::slice_subrange(b.as_slice(), tstart, bn);
    proof {
        let ex = b@.skip(ee as int);
        assert(ex.len() > 0);
        if tstart == ee + 2 {
            assert(ex[1] == b@[ee + 1]);
            assert(t@ =~= ex.skip(2));
        } else {
            if ex.len() > 1 {
                assert(ex[1] == b@[ee + 1]);
            }
            assert(t@ =~= ex.skip(1));
        }
    }
    digits_only_exec(t) && t.len() > 0
}

/// The sitemap's field expressions: each is a template evaluated
/// against the page's rendered data.
pub struct SitemapProcessorConfig {
    /// The expression for the page's last-modified timestamp.
    pub last_mod: Option<String>,
    /// The expression for the page's published timestamp.
    pub published: Option<String>,
    /// The expression for the page's updated timestamp.
    pub updated: Option<String>,
    /// The expression for the page's change frequency.
    pub change_frequency: Option<String>,
    /// The expression for the page's priority.
    pub priority: Option<String>,
}

/// Which timestamp text the entry's `lastmod` uses: an `updated` value
/// when present, else a `published` value, else a `lastMod` value; an
/// empty evaluation counts as absent.
pub open spec fn last_mod_choice_spec(
    updated: Option<Seq<char>>,
    published: Option<Seq<char>>,
    last_mod: Option<Seq<char>>,
) -> Option<Seq<char>> {
    if updated matches Some(u) && u.len() > 0 {
        Some(updated->Some_0)
    } else if published matches Some(p) && p.len() > 0 {
        Some(published->Some_0)
    } else if last_mod matches Some(l) && l.len() > 0 {
        Some(last_mod->Some_0)
    } else {
        None
    }
}

/// The view of an optional string.
pub open spec fn opt_text_view(o: Option<String>) -> Option<Seq<char>> {
    match o {
        Some(s) => Some(s@),
        None => None,
    }
}

/// Picks the timestamp the `lastmod` element uses: `updated` wins over
/// `published`, which wins over the plain last-modified expression;
/// empty evaluations count as absent.
pub fn last_mod_choice(
    updated: Option<String>,
    published: Option<String>,
    last_mod: Option<String>,
) -> (r: Option<String>)
    ensures
        opt_text_view(r) == last_mod_choice_spec(
            opt_text_view(updated),
            opt_text_view(published),
            opt_text_view(last_mod),
        ),
{
    if let Some(u) = &updated {
        if u.as_str().unicode_len() > 0 {
            return updated;
        }
    }
    if let Some(p) = &published {
        if p.as_str().unicode_len() > 0 {
            return published;
        }
    }
    if let Some(l) = &last_mod {
        if l.as_str().unicode_len() > 0 {
            return last_mod;
        }
    }
    None
}

/// Whether a sitemap block fits: an object whose five fields, where
/// present, are strings (or null).
pub open spec fn sitemap_block_fits(v: crate::value::ValView) -> bool {
    &&& v is Obj
    &&& crate::rules::opt_str_field(v->Obj_0, "lastMod"@) is Some
    &&& crate::rules::opt_str_field(v->Obj_0, "published"@) is Some
    &&& crate::rules::opt_str_field(v->Obj_0, "updated"@) is Some
    &&& crate::rules::opt_str_field(v->Obj_0, "changeFrequency"@) is Some
    &&& crate::rules::opt_str_field(v->Obj_0, "priority"@) is Some
}

/// Whether a sitemap configuration reads the given block.
pub open spec fn sitemap_config_matches(
    c: SitemapProcessorConfig,
    v: crate::value::ValView,
) -> bool {
    &&& v is Obj
    &&& crate::rules::opt_str_field(v->Obj_0, "lastMod"@) == Some(opt_text_view(c.last_mod))
    &&& crate::rules::opt_str_field(v->Obj_0, "published"@) == Some(opt_text_view(c.published))
    &&& crate::rules::opt_str_field(v->Obj_0, "updated"@) == Some(opt_text_view(c.updated))
    &&& crate::rules::opt_str_field(v->Obj_0, "changeFrequency"@) == Some(
        opt_text_view(c.change_frequency),
    )
    &&& crate::rules::opt_str_field(v->Obj_0, "priority"@) == Some(opt_text_view(c.priority))
}

/// The bytes the sitemap document opens with: the declaration and the
/// `urlset` tag with its namespace, each on its own line.
pub open spec fn sitemap_header_bytes() -> Seq<u8> {
    crate::processor::xml_decl_of("1.0"@, "UTF-8"@) + seq![10u8] + xml_open_tag_of(
        "urlset"@,
        seq![("xmlns"@, "http://www.sitemaps.org/schemas/sitemap/0.9"@)],
    ) + seq![10u8]
}

/// The sitemap processor: active when the configuration has a `sitemap`
/// block.
pub struct SitemapProcessor;

/// The bytes one sitemap entry adds: a `<url>` element holding the
/// location, then the optional last-modified date, change frequency and
/// priority, each element on its own indented line.
pub open spec fn sitemap_entry_bytes(
    loc: Seq<char>,
    last_mod: Option<int>,
    freq: Option<ChangeFrequency>,
    priority: Option<Seq<char>>,
) -> Seq<u8> {
    xml_open_tag_of("url"@, Seq::empty()) + seq![10u8] + seq![9u8] + xml_text_element_of(
        "loc"@,
        loc,
    ) + seq![10u8] + (match last_mod {
        Some(t) => seq![9u8] + xml_text_element_of("lastmod"@, rfc3339_secs_of(t)) + seq![10u8],
        None => Seq::empty(),
    }) + (match freq {
        Some(f) => seq![9u8] + xml_text_element_of("changefreq"@, change_frequency_text(f)) + seq![
            10u8,
        ],
        None => Seq::empty(),
    }) + (match priority {
        Some(p) => seq![9u8] + xml_text_element_of("priority"@, p) + seq![10u8],
        None => Seq::empty(),
    }) + xml_close_tag_of("url"@) + seq![10u8]
}

/// A freshly created sitemap document: its configuration read from the
/// block, the site base kept, and the document opened with its header.
pub open spec fn sitemap_created(
    ctx: SitemapContext,
    base: crate::helper::url::Url,
    block: crate::value::ValView,
) -> bool {
    sitemap_config_matches(ctx.config, block) && ctx.base == base && ctx.out@
        == sitemap_header_bytes()
}

/// One `<url>` entry appended for the page: its location is the page's
/// path resolved under the base, its fields are the evaluated
/// expressions, each check passed.
pub open spec fn sitemap_appended(b: SitemapContext, a: SitemapContext, output: Output) -> bool {
    crate::helper::url::full_url_for_spec(
        b.base.prefix@,
        b.base.path@,
        b.base.suffix@,
        output.path@,
    ) matches Some(parts) && exists|
        u: Option<Seq<char>>,
        p: Option<Seq<char>>,
        l: Option<Seq<char>>,
        ft: Option<Seq<char>>,
        pt: Option<Seq<char>>,
    |
        sitemap_entry_written(
            b.config,
            crate::helper::url::url_str(parts.0, parts.1, parts.2),
            u,
            p,
            l,
            ft,
            pt,
            b.out@,
            a.out@,
        )
}

/// What one appended sitemap entry is, given the rendered field texts:
/// each text present exactly when its expression is configured; the
/// entry's last-modified date is the epoch of the chosen text (`updated`
/// over `published` over `lastMod`), which parsed as RFC 3339; a
/// nonempty frequency text named one of the seven frequencies and is
/// written as parsed; a nonempty priority text was numeric and is
/// written as given.
pub open spec fn sitemap_entry_written(
    cfg: SitemapProcessorConfig,
    loc: Seq<char>,
    u: Option<Seq<char>>,
    p: Option<Seq<char>>,
    l: Option<Seq<char>>,
    ft: Option<Seq<char>>,
    pt: Option<Seq<char>>,
    before: Seq<u8>,
    after: Seq<u8>,
) -> bool {
    &&& (u is Some) == (cfg.updated is Some)
    &&& (p is Some) == (cfg.published is Some)
    &&& (l is Some) == (cfg.last_mod is Some)
    &&& (ft is Some) == (cfg.change_frequency is Some)
    &&& (pt is Some) == (cfg.priority is Some)
    &&& (last_mod_choice_spec(u, p, l) matches Some(t) ==> crate::helper::time::rfc3339_epoch_of(
        t,
    ) is Some)
    &&& match ft {
        Some(f) => f.len() > 0 ==> is_change_frequency_text(f),
        None => true,
    }
    &&& match pt {
        Some(q) => q.len() > 0 ==> is_numeric_text(q),
        None => true,
    }
    &&& after == before + sitemap_entry_bytes(
        loc,
        match last_mod_choice_spec(u, p, l) {
            Some(t) => Some(crate::helper::time::rfc3339_epoch_of(t)->Some_0),
            None => None,
        },
        match ft {
            Some(f) => if f.len() > 0 {
                Some(frequency_of_text(f))
            } else {
                None
            },
            None => None,
        },
        match pt {
            Some(q) => if q.len() > 0 {
                Some(q)
            } else {
                None
            },
            None => None,
        },
    )
}

/// The open sitemap document of one run.
pub struct SitemapContext {
    /// The configured field expressions.
    pub config: SitemapProcessorConfig,
    /// The site base URL.
    pub base: crate::helper::url::Url,
    /// The document bytes so far.
    pub out: Vec<u8>,
}

impl SitemapProcessor {
    /// Opens the sitemap document: the declaration and the `urlset`
    /// opening tag. Fails exactly when the configuration block does not
    /// fit: it must be a mapping whose five fields, where present, are
    /// strings.
    pub fn create(config: &GeneratorConfig, processor_config: &Json) -> (r: Result<
        SitemapContext,
        GeneratorError,
    >)
        ensures
            (r is Ok) == sitemap_block_fits(processor_config@),
            r matches Ok(ctx) ==> sitemap_created(ctx, config.basename, processor_config@),
            r matches Err(e) ==> e is Config,
    {
        if !processor_config.is_object() {
            return Err(GeneratorError::Config(String::from_str("the sitemap block is no mapping")));
        }
        let last_mod = match crate::rules::get_opt_str_field(processor_config, "lastMod") {
            Ok(v) => v,
            Err(e) => {
                return Err(e);
            },
        };
        let published = match crate::rules::get_opt_str_field(processor_config, "published") {
            Ok(v) => v,
            Err(e) => {
                return Err(e);
            },
        };
        let updated = match crate::rules::get_opt_str_field(processor_config, "updated") {
            Ok(v) => v,
            Err(e) => {
                return Err(e);
            },
        };
        let change_frequency = match crate::rules::get_opt_str_field(
            processor_config,
            "changeFrequency",
        ) {
            Ok(v) => v,
            Err(e) => {
                return Err(e);
            },
        };
        let priority = match crate::rules::get_opt_str_field(processor_config, "priority") {
            Ok(v) => v,
            Err(e) => {
                return Err(e);
            },
        };
        let mut out: Vec<u8> = Vec::new();
        xml_write_decl(&mut out, "1.0", "UTF-8");
        out.push(10u8);
        let mut attrs: Vec<(String, String)> = Vec::new();
        attrs.push(
            (
                String::from_str("xmlns"),
                String::from_str("http://www.sitemaps.org/schemas/sitemap/0.9"),
            ),
        );
        xml_write_open_tag(&mut out, "urlset", &attrs);
        out.push(10u8);
        proof {
            assert(crate::processor::attrs_view(attrs@) =~= seq![
                ("xmlns"@, "http://www.sitemaps.org/schemas/sitemap/0.9"@),
            ]);
            assert(out@ =~= sitemap_header_bytes());
        }
        Ok(
            SitemapContext {
                config: SitemapProcessorConfig {
                    last_mod,
                    published,
                    updated,
                    change_frequency,
                    priority,
                },
                base: config.basename.duplicate(),
                out,
            },
        )
    }
}

impl SitemapContext {
    /// Evaluates one optional field expression against the page's data.
    fn eval_expr(
        expr: &Option<String>,
        context: &Json,
        h: &handlebars::Handlebars,
    ) -> (r: Result<Option<String>, GeneratorError>)
        ensures
            r matches Ok(o) ==> (o is Some) == (expr is Some),
            expr is None ==> (r matches Ok(o) && o is None),
            r matches Err(e) ==> e is Render,
    {
        match expr {
            Some(t) => match value_by_template(h, context, t.as_str()) {
                Ok(s) => Ok(Some(s)),
                Err(e) => Err(e),
            },
            None => Ok(None),
        }
    }

    /// Appends one `<url>` entry for a produced page: its location is
    /// the page's path resolved under the site base; the last-modified
    /// date prefers `updated` over `published` over `lastMod` and must
    /// be RFC 3339; a change frequency must name one of the seven
    /// frequencies; a priority must be numeric — each a fatal error
    /// otherwise, and on any error nothing is written.
    pub fn file_created(
        &mut self,
        output: &Output,
        context: &Json,
        h: &handlebars::Handlebars,
    ) -> (r: Result<(), GeneratorError>)
        ensures
            final(self).config == old(self).config,
            final(self).base == old(self).base,
            r matches Err(_) ==> final(self).out@ == old(self).out@,
            crate::helper::url::full_url_for_spec(
                old(self).base.prefix@,
                old(self).base.path@,
                old(self).base.suffix@,
                output.path@,
            ) is None ==> r is Err,
            r is Ok ==> sitemap_appended(*old(self), *final(self), *output),
            (old(self).config.updated is None && old(self).config.published is None && old(
                self,
            ).config.last_mod is None && old(self).config.change_frequency is None && old(
                self,
            ).config.priority is None && crate::helper::url::full_url_for_spec(
                old(self).base.prefix@,
                old(self).base.path@,
                old(self).base.suffix@,
                output.path@,
            ) is Some) ==> r is Ok,
    {
        let loc = match full_url_for(&self.base, output.path.as_str()) {
            Ok(u) => u.to_text(),
            Err(e) => {
                return Err(e);
            },
        };
        let updated = match Self::eval_expr(&self.config.updated, context, h) {
            Ok(v) => v,
            Err(e) => {
                return Err(e);
            },
        };
        let published = match Self::eval_expr(&self.config.published, context, h) {
            Ok(v) => v,
            Err(e) => {
                return Err(e);
            },
        };
        let last_mod_text = match Self::eval_expr(&self.config.last_mod, context, h) {
            Ok(v) => v,
            Err(e) => {
                return Err(e);
            },
        };
        let ghost updated0 = updated;
        let ghost published0 = published;
        let ghost last_mod0 = last_mod_text;
        let chosen = last_mod_choice(updated, published, last_mod_text);
        let last_mod: Option<i64> = match &chosen {
            Some(t) => match parse_rfc3339_epoch(t.as_str()) {
                Some(e) => Some(e),
                None => {
                    return Err(
                        GeneratorError::Config(
                            String::from_str("the last-modified value is not an RFC 3339 timestamp"),
                        ),
                    );
                },
            },
            None => None,
        };
        let freq_text = match Self::eval_expr(&self.config.change_frequency, context, h) {
            Ok(v) => v,
            Err(e) => {
                return Err(e);
            },
        };
        let freq: Option<ChangeFrequency> = match &freq_text {
            Some(s) => {
                if s.as_str().unicode_len() == 0 {
                    None
                } else {
                    match ChangeFrequency::from_text(s.as_str()) {
                        Ok(f) => Some(f),
                        Err(e) => {
                            return Err(e);
                        },
                    }
                }
            },
            None => None,
        };
        let pri_text = match Self::eval_expr(&self.config.priority, context, h) {
            Ok(v) => v,
            Err(e) => {
                return Err(e);
            },
        };
        let priority: Option<String> = match &pri_text {
            Some(s) => {
                if s.as_str().unicode_len() == 0 {
                    None
                } else if is_numeric(s.as_str()) {
                    Some(s.clone())
                } else {
                    return Err(
                        GeneratorError::Config(
                            String::from_str("'priority' must be a numeric value, or unset"),
                        ),
                    );
                }
            },
            None => None,
        };
        self.write_entry(loc.as_str(), last_mod, freq, priority);
        proof {
            let parts = crate::helper::url::full_url_for_spec(
                old(self).base.prefix@,
                old(self).base.path@,
                old(self).base.suffix@,
                output.path@,
            )->Some_0;
            assert(loc@ == crate::helper::url::url_str(parts.0, parts.1, parts.2));
            assert(sitemap_entry_written(
                old(self).config,
                crate::helper::url::url_str(parts.0, parts.1, parts.2),
                opt_text_view(updated0),
                opt_text_view(published0),
                opt_text_view(last_mod0),
                opt_text_view(freq_text),
                opt_text_view(pri_text),
                old(self).out@,
                self.out@,
            ));
        }
        Ok(())
    }

    /// Appends one `<url>` element with the given parts.
    #[verifier::rlimit(50)]
    pub fn write_entry(
        &mut self,
        loc: &str,
        last_mod: Option<i64>,
        freq: Option<ChangeFrequency>,
        priority: Option<String>,
    )
        ensures
            final(self).out@ == old(self).out@ + sitemap_entry_bytes(
                loc@,
                match last_mod {
                    Some(t) => Some(t as int),
                    None => None,
                },
                freq,
                match priority {
                    Some(p) => Some(p@),
                    None => None,
                },
            ),
            final(self).config == old(self).config,
            final(self).base == old(self).base,
    {
        let empty_attrs: Vec<(String, String)> = Vec::new();
        proof {
            assert(crate::processor::attrs_view(empty_attrs@) =~= Seq::<
                (Seq<char>, Seq<char>),
            >::empty());
        }
        xml_write_open_tag(&mut self.out, "url", &empty_attrs);
        self.out.push(10u8);
        self.out.push(9u8);
        xml_write_element(&mut self.out, "loc", loc);
        self.out.push(10u8);
        match &last_mod {
            Some(t) => {
                self.out.push(9u8);
                let text = crate::helper::time::epoch_to_rfc3339_secs(*t);
                xml_write_element(&mut self.out, "lastmod", text.as_str());
                self.out.push(10u8);
            },
            None => {},
        }
        match &freq {
            Some(f) => {
                self.out.push(9u8);
                xml_write_element(&mut self.out, "changefreq", f.text());
                self.out.push(10u8);
            },
            None => {},
        }
        match &priority {
            Some(p) => {
                self.out.push(9u8);
                xml_write_element(&mut self.out, "priority", p.as_str());
                self.out.push(10u8);
            },
            None => {},
        }
        xml_write_close_tag(&mut self.out, "url");
        self.out.push(10u8);
        proof {
            assert(self.out@ =~= old(self).out@ + sitemap_entry_bytes(
                loc@,
                match last_mod {
                    Some(t) => Some(t as int),
                    None => None,
                },
                freq,
                match priority {
                    Some(p) => Some(p@),
                    None => None,
                },
            ));
        }
    }

    /// Closes the `urlset` element.
    pub fn complete(&mut self)
        ensures
            final(self).out@ == old(self).out@ + xml_close_tag_of("urlset"@),
    {
        xml_write_close_tag(&mut self.out, "urlset");
    }
}

} // verus!
