//! Reading HTML: visible text of a fragment, and the Open Graph image of
//! a page. Both go through scraper; each result is a function of the
//! input document alone and is named so callers' contracts can be exact.

use vstd::prelude::*;

verus! {

/// The visible text of an HTML fragment: the concatenation of its text
/// nodes, with no formatting kept. Depends on the fragment alone.
pub uninterp spec fn text_content(s: Seq<char>) -> Seq<char>;

/// The content of the first `meta[property="og:image"]` tag of an HTML
/// document, if any. Depends on the document alone.
pub uninterp spec fn og_image_of(s: Seq<char>) -> Option<Seq<char>>;

/// Relies on `scraper::Html::parse_fragment` and the `text` traversal of
/// its root element: strips markup by concatenating the fragment's text
/// nodes. [`text_content`] names the result.
#[verifier::external_body]
pub fn html_text(s: &str) -> (r: String)
    ensures
        r@ == text_content(s@),
{
    let html = scraper::Html::parse_fragment(s);
    html.root_element().text().collect::<String>()
}

/// Relies on `scraper::Html::parse_document` and `Selector::parse` with
/// the fixed selector `meta[property="og:image"]`: yields that tag's
/// `content` attribute, first match or none. [`og_image_of`] names the
/// result.
#[verifier::external_body]
pub fn extract_og_image(html: &str) -> (r: Option<String>)
    ensures
        r.deep_view() == og_image_of(html@),
{
    let doc = scraper::Html::parse_document(html);
    let sel = scraper::Selector::parse("meta[property=\"og:image\"]").unwrap();
    doc.select(&sel).next().and_then(|el| el.attr("content")).map(|v| v.to_owned())
}

} // verus!
