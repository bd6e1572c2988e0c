//! Markdown to HTML, left to `pulldown_cmark`.

use vstd::prelude::*;

verus! {

/// The HTML that `pulldown_cmark` writes for the markdown `text`.
pub uninterp spec fn markdown_html(text: Seq<char>) -> Seq<char>;

/// Calls `pulldown_cmark::html::push_html` on `pulldown_cmark::Parser::new`.
/// Trusted: the HTML is a function of the markdown text alone, named
/// `markdown_html`.
#[verifier::external_body]
pub(crate) fn markdown_to_html(text: &str) -> (html: String)
    ensures
        html@ == markdown_html(text@),
{
    let mut html = String::new();
    pulldown_cmark::html::push_html(&mut html, pulldown_cmark::Parser::new(text));
    html
}

} // verus!
