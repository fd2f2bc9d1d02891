//! The link extractor: which anchors of a page become candidates.

use crate::html::{select_elements, selected_elements, Element, ElementView};
use crate::text::{contains, has_substring, starts_with, trim, trimmed, trimmed_is_tight};
use vstd::prelude::*;
use vstd::string::StrSliceExecFns;
use vstd::string::StringExecFns;

verus! {

/// The least number of characters that a title has.
pub const MIN_TITLE_CHARS: usize = 15;

/// A link found on a page: a title and where it leads.
#[derive(Debug, PartialEq, Eq)]
pub struct Candidate {
    /// The anchor's text, trimmed.
    pub title: String,
    /// The anchor's link as the page wrote it.
    pub href: String,
    /// The absolute address that `href` resolves to.
    pub url: String,
}

/// The mathematical value of a [`Candidate`].
pub struct CandidateView {
    pub title: Seq<char>,
    pub href: Seq<char>,
    pub url: Seq<char>,
}

impl DeepView for Candidate {
    type V = CandidateView;

    open spec fn deep_view(&self) -> CandidateView {
        CandidateView { title: self.title@, href: self.href@, url: self.url@ }
    }
}

impl Clone for Candidate {
    fn clone(&self) -> (copy: Candidate)
        ensures
            copy.deep_view() == self.deep_view(),
    {
        Candidate { title: self.title.clone(), href: self.href.clone(), url: self.url.clone() }
    }
}

/// Whether `title` reads like a skip link or a piece of the navigation.
pub open spec fn is_navigation_title(title: Seq<char>) -> bool {
    has_substring(title, "springen"@) || has_substring(title, "navigation"@)
}

/// Whether a trimmed `title` is long enough and no navigation.
pub open spec fn acceptable_title(title: Seq<char>) -> bool {
    title.len() >= MIN_TITLE_CHARS && !is_navigation_title(title)
}

/// The address that `href`, found on the page at `source_url`, leads to.
pub open spec fn resolved_url(source_url: Seq<char>, href: Seq<char>) -> Seq<char> {
    if "http"@.is_prefix_of(href) {
        href
    } else {
        source_url + href
    }
}

/// The text of the first child that is a text node.
pub open spec fn first_text(children: Seq<Option<Seq<char>>>) -> Option<Seq<char>>
    decreases children.len(),
{
    if children.len() == 0 {
        None
    } else if children.first() is Some {
        children.first()
    } else {
        first_text(children.drop_first())
    }
}

/// The candidate that the anchor `anchor` gives, if it gives one.
pub open spec fn candidate_of(anchor: ElementView, source_url: Seq<char>) -> Option<
    CandidateView,
> {
    match (first_text(anchor.children), anchor.link) {
        (Some(text), Some(href)) => if acceptable_title(trimmed(text)) {
            Some(
                CandidateView {
                    title: trimmed(text),
                    href,
                    url: resolved_url(source_url, href),
                },
            )
        } else {
            None
        },
        _ => None,
    }
}

/// [`candidate_of`] for a fixed page address, as a function of the anchor.
pub open spec fn candidate_picker(source_url: Seq<char>) -> spec_fn(ElementView) -> Option<
    CandidateView,
> {
    |anchor: ElementView| candidate_of(anchor, source_url)
}

/// How many of `count` anchors a scan with limit `scan_limit` looks at.
pub open spec fn scanned_count(count: nat, scan_limit: nat) -> nat {
    if scan_limit < count {
        scan_limit
    } else {
        count
    }
}

/// The candidates among the first `scan_limit` of `anchors`, in order.
pub open spec fn links_of(anchors: Seq<ElementView>, source_url: Seq<char>, scan_limit: nat) -> Seq<
    CandidateView,
> {
    anchors.take(scanned_count(anchors.len(), scan_limit) as int).filter_map(
        candidate_picker(source_url),
    )
}

/// The candidates of the page `html`: those of its `a` elements, read with
/// their `href`; none where the page yields no elements.
pub open spec fn page_links(html: Seq<char>, source_url: Seq<char>, scan_limit: nat) -> Seq<
    CandidateView,
> {
    match selected_elements(html, "a"@, "href"@) {
        Some(anchors) => links_of(anchors, source_url, scan_limit),
        None => Seq::empty(),
    }
}

/// Tells whether a trimmed `title` is long enough and no navigation.
pub fn title_is_acceptable(title: &str) -> (ok: bool)
    ensures
        ok == acceptable_title(title@),
{
    title.unicode_len() >= MIN_TITLE_CHARS && !contains(title, "springen") && !contains(
        title,
        "navigation",
    )
}

/// Resolves `href`, found on the page at `source_url`: an `href` that begins
/// with `http` stands as it is, any other is appended to `source_url`.
pub fn resolve_url(source_url: &str, href: &str) -> (url: String)
    ensures
        "http"@.is_prefix_of(href@) ==> url@ == href@,
        !"http"@.is_prefix_of(href@) ==> url@ == source_url@ + href@,
        url@ == resolved_url(source_url@, href@),
{
    if starts_with(href, "http") {
        href.to_owned()
    } else {
        let mut url = source_url.to_owned();
        url.append(href);
        url
    }
}

/// The text of the first of `children` that is a text node.
pub fn first_text_of(children: &Vec<Option<String>>) -> (text: Option<&String>)
    ensures
        text.deep_view() == first_text(children.deep_view()),
{
    let mut i: usize = 0;
    proof {
        assert(children.deep_view().skip(0) =~= children.deep_view());
    }
    while i < children.len()
        invariant
            i <= children.len(),
            first_text(children.deep_view()) == first_text(children.deep_view().skip(i as int)),
        decreases children.len() - i,
    {
        proof {
            assert(children.deep_view().skip(i as int).first() == children@[i as int].deep_view());
            assert(children.deep_view().skip(i as int).drop_first() =~= children.deep_view().skip(
                i + 1,
            ));
        }
        match &children[i] {
            Some(text) => {
                return Some(text);
            },
            None => {},
        }
        i += 1;
    }
    None
}

/// The candidate that `anchor` gives: its first direct text, trimmed, must be
/// an acceptable title, and it must have a link.
pub fn candidate_from(anchor: &Element, source_url: &str) -> (found: Option<Candidate>)
    ensures
        found.deep_view() == candidate_of(anchor.deep_view(), source_url@),
{
    let text = match first_text_of(&anchor.children) {
        Some(text) => text,
        None => {
            return None;
        },
    };
    let title = trim(text.as_str());
    if !title_is_acceptable(title) {
        return None;
    }
    match &anchor.link {
        None => None,
        Some(href) => {
            let url = resolve_url(source_url, href.as_str());
            Some(Candidate { title: title.to_owned(), href: href.clone(), url })
        },
    }
}

/// The candidates among the first `scan_limit` of `anchors`, in their order.
/// The limit counts anchors, not candidates: an anchor behind it is never
/// looked at.
pub fn links_from_elements(anchors: &Vec<Element>, source_url: &str, scan_limit: usize) -> (links:
    Vec<Candidate>)
    ensures
        links.deep_view() == links_of(anchors.deep_view(), source_url@, scan_limit as nat),
{
    let n: usize = if scan_limit < anchors.len() {
        scan_limit
    } else {
        anchors.len()
    };
    let ghost scanned = anchors.deep_view().take(n as int);
    let ghost pick = candidate_picker(source_url@);
    let mut links: Vec<Candidate> = Vec::new();
    let mut i: usize = 0;
    proof {
        assert(links.deep_view() =~= scanned.take(0).filter_map(pick));
    }
    while i < n
        invariant
            i <= n <= anchors.len(),
            scanned == anchors.deep_view().take(n as int),
            pick == candidate_picker(source_url@),
            links.deep_view() == scanned.take(i as int).filter_map(pick),
        decreases n - i,
    {
        let found = candidate_from(&anchors[i], source_url);
        let ghost before = links.deep_view();
        proof {
            scanned.lemma_filter_map_take_succ(pick, i as int);
            assert(scanned[i as int] == anchors@[i as int].deep_view());
        }
        match found {
            Some(candidate) => {
                let ghost added = candidate.deep_view();
                links.push(candidate);
                proof {
                    assert(links.deep_view() =~= before + seq![added]);
                }
            },
            None => {},
        }
        i += 1;
    }
    proof {
        assert(scanned.take(n as int) =~= scanned);
    }
    links
}

/// The link extractor: the candidates of the page `html`, which was fetched
/// from `source_url`, among its first `scan_limit` anchors.
pub fn extract_links(html: &str, source_url: &str, scan_limit: usize) -> (links: Vec<Candidate>)
    ensures
        links.deep_view() == page_links(html@, source_url@, scan_limit as nat),
{
    match select_elements(html, "a", "href") {
        Some(anchors) => links_from_elements(&anchors, source_url, scan_limit),
        None => {
            let links: Vec<Candidate> = Vec::new();
            proof {
                assert(links.deep_view() =~= Seq::<CandidateView>::empty());
            }
            links
        },
    }
}

/// Every candidate of a scan has a title that is trimmed and acceptable, and
/// its address is its link resolved against the page's address.
pub proof fn links_are_sound(anchors: Seq<ElementView>, source_url: Seq<char>, scan_limit: nat)
    ensures
        forall|i: int|
            0 <= i < links_of(anchors, source_url, scan_limit).len() ==> {
                &&& acceptable_title((#[trigger] links_of(anchors, source_url, scan_limit)[i]).title)
                &&& trimmed(links_of(anchors, source_url, scan_limit)[i].title) == links_of(
                    anchors,
                    source_url,
                    scan_limit,
                )[i].title
                &&& links_of(anchors, source_url, scan_limit)[i].url == resolved_url(
                    source_url,
                    links_of(anchors, source_url, scan_limit)[i].href,
                )
            },
{
    let scanned = anchors.take(scanned_count(anchors.len(), scan_limit) as int);
    let pick = candidate_picker(source_url);
    let links = links_of(anchors, source_url, scan_limit);
    assert(links == scanned.filter_map(pick));
    assert forall|i: int| 0 <= i < links.len() implies acceptable_title((#[trigger] links[i]).title)
        && trimmed(links[i].title) == links[i].title && links[i].url == resolved_url(
        source_url,
        links[i].href,
    ) by {
        let link = links[i];
        assert(links.contains(link));
        scanned.lemma_filter_map_contains(pick, link);
        let anchor = choose|t: ElementView| #[trigger] scanned.contains(t) && pick(t) == Some(link);
        assert(candidate_of(anchor, source_url) == Some(link));
        trimmed_is_tight(first_text(anchor.children)->0);
    }
}

/// No candidate of a scan has a title of fewer than 15 characters, and none
/// has a title that holds `springen` or `navigation`, however long it is.
pub proof fn links_pass_title_filters(
    anchors: Seq<ElementView>,
    source_url: Seq<char>,
    scan_limit: nat,
)
    ensures
        forall|i: int|
            0 <= i < links_of(anchors, source_url, scan_limit).len() ==> {
                &&& (#[trigger] links_of(anchors, source_url, scan_limit)[i]).title.len() >= 15
                &&& !has_substring(
                    links_of(anchors, source_url, scan_limit)[i].title,
                    "springen"@,
                )
                &&& !has_substring(
                    links_of(anchors, source_url, scan_limit)[i].title,
                    "navigation"@,
                )
            },
{
    links_are_sound(anchors, source_url, scan_limit);
}

/// The scan limit counts anchors: what stands behind the first `scan_limit`
/// anchors of a page changes nothing, whatever it holds.
pub proof fn links_ignore_anchors_behind_limit(
    anchors: Seq<ElementView>,
    more: Seq<ElementView>,
    source_url: Seq<char>,
    scan_limit: nat,
)
    requires
        scan_limit <= anchors.len(),
    ensures
        links_of(anchors + more, source_url, scan_limit) == links_of(
            anchors,
            source_url,
            scan_limit,
        ),
{
    assert((anchors + more).take(scan_limit as int) =~= anchors.take(scan_limit as int));
}

/// The candidates of a page are sound as those of any scan are.
pub proof fn page_links_are_sound(html: Seq<char>, source_url: Seq<char>, scan_limit: nat)
    ensures
        forall|i: int|
            0 <= i < page_links(html, source_url, scan_limit).len() ==> {
                &&& acceptable_title((#[trigger] page_links(html, source_url, scan_limit)[i]).title)
                &&& trimmed(page_links(html, source_url, scan_limit)[i].title) == page_links(
                    html,
                    source_url,
                    scan_limit,
                )[i].title
                &&& page_links(html, source_url, scan_limit)[i].url == resolved_url(
                    source_url,
                    page_links(html, source_url, scan_limit)[i].href,
                )
            },
{
    match selected_elements(html, "a"@, "href"@) {
        Some(anchors) => {
            links_are_sound(anchors, source_url, scan_limit);
        },
        None => {},
    }
}

} // verus!
