//! Records: what a crawl emits.

use crate::links::{Candidate, CandidateView};
use vstd::prelude::*;

verus! {

/// One emitted news item.
#[derive(Debug, PartialEq, Eq)]
pub struct Record {
    /// The trimmed text of the link that led to the item.
    pub title: String,
    /// The absolute address of the item.
    pub url: String,
    /// The text of the article; empty for a headline.
    pub content: String,
}

/// The mathematical value of a [`Record`].
pub struct RecordView {
    pub title: Seq<char>,
    pub url: Seq<char>,
    pub content: Seq<char>,
}

impl DeepView for Record {
    type V = RecordView;

    open spec fn deep_view(&self) -> RecordView {
        RecordView { title: self.title@, url: self.url@, content: self.content@ }
    }
}

/// The record of a headline: the candidate's title and address, no text.
pub open spec fn headline_record(candidate: CandidateView) -> RecordView {
    RecordView { title: candidate.title, url: candidate.url, content: Seq::empty() }
}

/// The record of an article: the candidate's title and address, and the text
/// gathered from its page.
pub open spec fn article_record(candidate: CandidateView, content: Seq<char>) -> RecordView {
    RecordView { title: candidate.title, url: candidate.url, content }
}

impl Record {
    /// The record of a headline.
    pub fn headline(candidate: &Candidate) -> (record: Record)
        ensures
            record.deep_view() == headline_record(candidate.deep_view()),
    {
        Record {
            title: candidate.title.clone(),
            url: candidate.url.clone(),
            content: String::new(),
        }
    }

    /// The record of an article with the text `content`.
    pub fn article(candidate: &Candidate, content: String) -> (record: Record)
        ensures
            record.deep_view() == article_record(candidate.deep_view(), content@),
    {
        Record { title: candidate.title.clone(), url: candidate.url.clone(), content }
    }
}

impl Clone for Record {
    fn clone(&self) -> (copy: Record)
        ensures
            copy.deep_view() == self.deep_view(),
    {
        Record {
            title: self.title.clone(),
            url: self.url.clone(),
            content: self.content.clone(),
        }
    }
}

} // verus!
