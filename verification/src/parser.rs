//! Converting Markdown with metadata lines into a complete HTML
//! document. The Markdown-to-HTML step itself is done by the
//! pulldown-cmark crate; everything around it is verified.

use vstd::prelude::*;

use crate::document::spec_format;
use crate::metadata::{extract, spec_extract};

verus! {

/// The HTML that pulldown-cmark renders for a Markdown text. The
/// rendering depends on the text alone, so the result carries a name
/// rather than a restatement of the CommonMark specification.
pub uninterp spec fn html_of(s: Seq<char>) -> Seq<char>;

/// Relies on `pulldown_cmark::Parser::new` and
/// `pulldown_cmark::html::push_html`: together they render a Markdown
/// text to HTML, a pure function of the text.
#[verifier::external_body]
fn render_markdown(text: &str) -> (r: String)
    ensures
        r@ == html_of(text@),
{
    let parser = pulldown_cmark::Parser::new(text);
    let mut out = String::new();
    pulldown_cmark::html::push_html(&mut out, parser);
    out
}

/// What `parse` yields: the metadata lines are taken out, the rest is
/// rendered to HTML and wrapped into a document with the metadata in
/// its head.
pub open spec fn spec_parse(t: Seq<char>) -> Seq<char> {
    let e = spec_extract(t);
    spec_format(e.0, html_of(e.1))
}

/// Converts a Markdown text with optional `$[key(value)]` metadata
/// lines into a complete HTML document.
pub fn parse(text: &str) -> (r: String)
    ensures
        r@ == spec_parse(text@),
{
    let (meta, stripped) = extract(text);
    let html = render_markdown(stripped.as_str());
    crate::document::format(meta, html)
}

} // verus!
