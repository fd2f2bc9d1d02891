//! Pages as the extractors see them: the elements that a selector finds, each
//! reduced to its texts and its link.
//!
//! Parsing is the work of the `scraper` crate. This module holds the one call
//! into it and the plain data that the call hands back.

use vstd::prelude::*;

verus! {

/// An element of a parsed page, reduced to what the extractors read.
#[derive(Clone, Debug, PartialEq, Eq)]
pub struct Element {
    /// One entry for each direct child, in order: the child's text where the
    /// child is a text node, `None` where it is anything else.
    pub children: Vec<Option<String>>,
    /// The text nodes below the element, as a depth-first walk meets them.
    pub texts: Vec<String>,
    /// The value of the element's link attribute, where it has one.
    pub link: Option<String>,
}

/// The mathematical value of an [`Element`].
pub struct ElementView {
    pub children: Seq<Option<Seq<char>>>,
    pub texts: Seq<Seq<char>>,
    pub link: Option<Seq<char>>,
}

impl DeepView for Element {
    type V = ElementView;

    open spec fn deep_view(&self) -> ElementView {
        ElementView {
            children: self.children.deep_view(),
            texts: self.texts.deep_view(),
            link: self.link.deep_view(),
        }
    }
}

/// What `scraper` finds in the page `html` for the CSS selector `selector`:
/// the matching elements in the order in which `Html::select` yields them,
/// each with the value of its attribute `link_attribute`; `None` where
/// `selector` is no selector that `scraper` can parse.
pub uninterp spec fn selected_elements(
    html: Seq<char>,
    selector: Seq<char>,
    link_attribute: Seq<char>,
) -> Option<Seq<ElementView>>;

/// Parses `html` with `scraper::Html::parse_document`, parses `selector` with
/// `scraper::Selector::parse`, and walks `Html::select`. Of each element it
/// keeps, unchanged: for every node of `children()` the text that
/// `Node::as_text` gives, the strings of `ElementRef::text`, and what
/// `Element::attr` finds for `link_attribute`.
///
/// Not proved. The contract claims one thing of `scraper`: that the result
/// depends on the three strings alone, so that [`selected_elements`] can name it.
#[verifier::external_body]
pub(crate) fn select_elements(html: &str, selector: &str, link_attribute: &str) -> (found: Option<
    Vec<Element>,
>)
    ensures
        found.deep_view() == selected_elements(html@, selector@, link_attribute@),
{
    let document = scraper::Html::parse_document(html);
    let selector = scraper::Selector::parse(selector).ok()?;
    Some(document.select(&selector).map(|e| Element {
        children: e.children().map(|c| c.value().as_text().map(|t| t.to_string())).collect(),
        texts: e.text().map(String::from).collect(),
        link: e.value().attr(link_attribute).map(String::from),
    }).collect())
}

} // verus!
