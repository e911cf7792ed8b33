//! The trusted boundary to `nipper`.
//!
//! HTML parsing and CSS selection are delegated to `nipper`. What a fixed
//! selector finds in a fixed document is a function of the text alone, so
//! the results carry names that the extractors' contracts can speak of.

use vstd::prelude::*;

verus! {

/// The attribute values of the elements a CSS selector matches in an HTML
/// document, in document order; one entry per element, `None` where the
/// element lacks the attribute.
pub uninterp spec fn selected_attrs(html: Seq<char>, selector: Seq<char>, attr: Seq<char>) -> Seq<
    Option<Seq<char>>,
>;

/// The attribute value of the first element a CSS selector matches, if any.
pub uninterp spec fn selected_attr(html: Seq<char>, selector: Seq<char>, attr: Seq<char>) -> Option<
    Seq<char>,
>;

/// Relies on `nipper::Document::from`, `Matcher::new`,
/// `Document::select_matcher` and `Selection::nodes`/`Node::attr`: parses
/// the document and reads the named attribute of every element the
/// selector matches, in document order. A selector that does not parse
/// matches nothing.
#[verifier::external_body]
pub(crate) fn select_attr_all(html: &str, selector: &str, attr: &str) -> (r: Vec<Option<String>>)
    ensures
        r.deep_view() == selected_attrs(html@, selector@, attr@),
{
    let matcher = match nipper::Matcher::new(selector) {
        Ok(m) => m,
        Err(_) => return Vec::new(),
    };
    let doc = nipper::Document::from(html);
    let sel = doc.select_matcher(&matcher);
    sel.nodes().iter().map(|n| n.attr(attr).map(|t| t.to_string())).collect()
}

/// Relies on `nipper::Document::from`, `Matcher::new`,
/// `Document::select_matcher` and `Selection::attr`: parses the document
/// and reads the named attribute of the first element the selector
/// matches. A selector that does not parse matches nothing.
#[verifier::external_body]
pub(crate) fn select_first_attr(html: &str, selector: &str, attr: &str) -> (r: Option<String>)
    ensures
        r.deep_view() == selected_attr(html@, selector@, attr@),
        r is Some <==> selected_attr(html@, selector@, attr@) is Some,
{
    let matcher = match nipper::Matcher::new(selector) {
        Ok(m) => m,
        Err(_) => return None,
    };
    let doc = nipper::Document::from(html);
    let sel = doc.select_matcher(&matcher);
    sel.attr(attr).map(|t| t.to_string())
}

} // verus!
