//! The keyword gate: which links are worth a second fetch.

use crate::text::{contains, has_substring};
use vstd::prelude::*;

verus! {

/// What `str::to_lowercase` makes of `s`: its lower-case form by the Unicode
/// tables that the standard library carries.
pub uninterp spec fn lowercased(s: Seq<char>) -> Seq<char>;

/// Calls `str::to_lowercase`.
///
/// Not proved. The contract claims that the result depends on the characters
/// of `s` alone, so that [`lowercased`] can name it.
#[verifier::external_body]
pub(crate) fn to_lowercase(s: &str) -> (lower: String)
    ensures
        lower@ == lowercased(s@),
{
    s.to_lowercase()
}

/// Whether one of the keywords stands in `lowered`.
pub open spec fn mentions_keyword(lowered: Seq<char>) -> bool {
    ||| has_substring(lowered, "artikel"@)
    ||| has_substring(lowered, "nachricht"@)
    ||| has_substring(lowered, "news"@)
    ||| has_substring(lowered, "story"@)
    ||| has_substring(lowered, "deutschland"@)
    ||| has_substring(lowered, "politik"@)
    ||| has_substring(lowered, "wirtschaft"@)
}

/// Whether the keyword gate lets the link `href` through: its lower-case
/// form mentions a keyword.
pub open spec fn gate_passes(href: Seq<char>) -> bool {
    mentions_keyword(lowercased(href))
}

/// Tells whether one of the keywords stands in `lowered`, a link that is
/// already in lower case.
pub fn has_keyword(lowered: &str) -> (found: bool)
    ensures
        found == mentions_keyword(lowered@),
{
    contains(lowered, "artikel") || contains(lowered, "nachricht") || contains(lowered, "news")
        || contains(lowered, "story") || contains(lowered, "deutschland") || contains(
        lowered,
        "politik",
    ) || contains(lowered, "wirtschaft")
}

/// The keyword gate: tells whether the raw link `href`, taken to lower case,
/// mentions a keyword.
pub fn passes_keyword_gate(href: &str) -> (passes: bool)
    ensures
        passes == gate_passes(href@),
{
    let lowered = to_lowercase(href);
    has_keyword(lowered.as_str())
}

} // verus!
