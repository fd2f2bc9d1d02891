//! The article extractor: the text of a page's paragraphs.

use crate::html::{select_elements, selected_elements, Element, ElementView};
use crate::text::{join, joined, trim, trimmed};
use vstd::prelude::*;
use vstd::string::StrSliceExecFns;
use vstd::string::StringExecFns;

verus! {

/// The least number of paragraphs that an article page has.
pub const MIN_PARAGRAPHS: usize = 3;

/// The number of characters that the text of an article exceeds.
pub const MIN_CONTENT_CHARS: usize = 300;

/// The text of one paragraph: its text nodes joined by single spaces, trimmed.
pub open spec fn paragraph_text(paragraph: ElementView) -> Seq<char> {
    trimmed(joined(paragraph.texts, " "@))
}

/// The texts of `paragraphs` in order, each followed by one space.
pub open spec fn accumulated(paragraphs: Seq<ElementView>) -> Seq<char>
    decreases paragraphs.len(),
{
    if paragraphs.len() == 0 {
        Seq::empty()
    } else {
        accumulated(paragraphs.drop_last()) + paragraph_text(paragraphs.last()) + " "@
    }
}

/// How many of `count` paragraphs are read under the limit `paragraph_limit`.
pub open spec fn read_count(count: nat, paragraph_limit: nat) -> nat {
    if paragraph_limit < count {
        paragraph_limit
    } else {
        count
    }
}

/// The text gathered from the first `paragraph_limit` of `paragraphs`.
pub open spec fn content_of(paragraphs: Seq<ElementView>, paragraph_limit: nat) -> Seq<char> {
    accumulated(paragraphs.take(read_count(paragraphs.len(), paragraph_limit) as int))
}

/// The article that `paragraphs` make: their gathered text, unless they are
/// too few or the text is too short.
pub open spec fn article_of(paragraphs: Seq<ElementView>, paragraph_limit: nat) -> Option<
    Seq<char>,
> {
    if paragraphs.len() < MIN_PARAGRAPHS || content_of(paragraphs, paragraph_limit).len()
        <= MIN_CONTENT_CHARS {
        None
    } else {
        Some(content_of(paragraphs, paragraph_limit))
    }
}

/// The article of the page `html`: that of its `p` elements; none where the
/// page yields no elements.
pub open spec fn page_article(html: Seq<char>, paragraph_limit: nat) -> Option<Seq<char>> {
    match selected_elements(html, "p"@, "href"@) {
        Some(paragraphs) => article_of(paragraphs, paragraph_limit),
        None => None,
    }
}

/// The text of one paragraph: its text nodes joined by single spaces, trimmed.
pub fn paragraph_text_of(paragraph: &Element) -> (text: String)
    ensures
        text@ == paragraph_text(paragraph.deep_view()),
{
    let whole = join(&paragraph.texts, " ");
    trim(whole.as_str()).to_owned()
}

/// Gathers the text of the first `paragraph_limit` of `paragraphs`, each
/// followed by one space. There is no article where the page has fewer than
/// three paragraphs, whatever the limit, or where the gathered text has no
/// more than 300 characters.
pub fn article_from_paragraphs(paragraphs: &Vec<Element>, paragraph_limit: usize) -> (article:
    Option<String>)
    ensures
        article.deep_view() == article_of(paragraphs.deep_view(), paragraph_limit as nat),
        article is None <==> paragraphs.len() < MIN_PARAGRAPHS || content_of(
            paragraphs.deep_view(),
            paragraph_limit as nat,
        ).len() <= MIN_CONTENT_CHARS,
{
    if paragraphs.len() < MIN_PARAGRAPHS {
        return None;
    }
    let n: usize = if paragraph_limit < paragraphs.len() {
        paragraph_limit
    } else {
        paragraphs.len()
    };
    let mut content = String::new();
    let mut i: usize = 0;
    while i < n
        invariant
            i <= n <= paragraphs.len(),
            content@ == accumulated(paragraphs.deep_view().take(i as int)),
        decreases n - i,
    {
        let text = paragraph_text_of(&paragraphs[i]);
        proof {
            let read = paragraphs.deep_view().take(i + 1);
            assert(read.drop_last() =~= paragraphs.deep_view().take(i as int));
            assert(read.last() == paragraphs@[i as int].deep_view());
        }
        content.append(text.as_str());
        content.append(" ");
        i += 1;
    }
    if content.as_str().unicode_len() > MIN_CONTENT_CHARS {
        Some(content)
    } else {
        None
    }
}

/// The article extractor: the text of the page `html`, gathered from its
/// first `paragraph_limit` paragraphs.
pub fn extract_article(html: &str, paragraph_limit: usize) -> (article: Option<String>)
    ensures
        article.deep_view() == page_article(html@, paragraph_limit as nat),
{
    match select_elements(html, "p", "href") {
        Some(paragraphs) => article_from_paragraphs(&paragraphs, paragraph_limit),
        None => None,
    }
}

} // verus!
