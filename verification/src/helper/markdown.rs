//! The `markdownify` helper's core: rendering Markdown text to HTML on
//! demand, through the CommonMark renderer.

use crate::error::GeneratorError;
use crate::value::{Json, ValView};
use vstd::prelude::*;

verus! {

/// The HTML that the CommonMark renderer produces for the given text.
pub uninterp spec fn markdown_html_of(s: Seq<char>) -> Seq<char>;

/// Relies on `pulldown_cmark::html::push_html` over a parser with every
/// extension enabled: the produced HTML depends on the input text alone.
#[verifier::external_body]
pub(crate) fn render(markdown_input: &str) -> (r: String)
    ensures
        r@ == markdown_html_of(markdown_input@),
{
    let parser = pulldown_cmark::Parser::new_ext(markdown_input, pulldown_cmark::Options::all());
    let mut html_output = String::new();
    pulldown_cmark::html::push_html(&mut html_output, parser);
    html_output
}

/// The `markdownify` helper: writes its string parameter rendered from
/// Markdown to HTML.
#[derive(Clone, Copy)]
pub struct MarkdownifyHelper;

impl MarkdownifyHelper {
    /// The HTML for the helper's parameter. Fails exactly when the
    /// parameter is not a string.
    pub fn html_value(v: &Json) -> (r: Result<String, GeneratorError>)
        ensures
            r matches Ok(h) ==> v@ is Str && h@ == markdown_html_of(v@->Str_0),
            r matches Err(e) ==> !(v@ is Str) && e is Render,
    {
        match v.as_str() {
            Some(s) => Ok(render(s.as_str())),
            None => Err(
                GeneratorError::Render(String::from_str("markdown rendering needs string data")),
            ),
        }
    }
}

} // verus!
