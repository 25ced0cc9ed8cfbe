//! Markdown-to-HTML conversion.
//!
//! The conversion itself is done by the `pulldown_cmark` crate; this module
//! gives its result a name, `html_of`, that the rest of the library's
//! contracts can speak of.

use vstd::prelude::*;

verus! {

/// The HTML fragment that the Markdown converter produces for a given text.
pub uninterp spec fn html_of(md: Seq<char>) -> Seq<char>;

/// Relies on `pulldown_cmark::Parser::new` and `pulldown_cmark::html::push_html`:
/// both walk the input text alone, so the fragment depends on nothing but `text`.
#[verifier::external_body]
pub(crate) fn to_html(text: &str) -> (r: String)
    ensures
        r@ == html_of(text@),
{
    let parser = pulldown_cmark::Parser::new(text);
    let mut out = String::new();
    pulldown_cmark::html::push_html(&mut out, parser);
    out
}

} // verus!
