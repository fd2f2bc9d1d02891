//! The crawl: a state machine that turns fetched pages into records.
//!
//! A crawl never touches the network. It names the address it wants next
//! ([`Crawl::pending`]), is handed what came back ([`Crawl::deliver`]: the body,
//! or nothing where the fetch failed), and moves on. A failed fetch or a
//! rejected page costs the source or the candidate it belongs to, never the
//! crawl.

use crate::article::{article_of, extract_article, page_article};
use crate::html::{selected_elements, ElementView};
use crate::keywords::{gate_passes, passes_keyword_gate};
use crate::links::{
    acceptable_title, extract_links, page_links, page_links_are_sound, resolved_url, Candidate,
    CandidateView,
};
use crate::record::{article_record, headline_record, Record, RecordView};
use crate::text::{has_substring, trimmed};
use vstd::prelude::*;
use vstd::string::StringExecFns;

verus! {

/// How many anchors of a source page a headline crawl looks at.
pub const HEADLINE_SCAN_LIMIT: usize = 20;

/// How many anchors of a source page a full-article crawl looks at.
pub const ARTICLE_SCAN_LIMIT: usize = 80;

/// How many paragraphs of an article page are read.
pub const PARAGRAPH_LIMIT: usize = 10;

/// What a crawl collects.
#[derive(Clone, Copy, Debug, PartialEq, Eq)]
pub enum Mode {
    /// A record with empty text for every candidate of every source page.
    Headlines,
    /// A record with text for every gated candidate whose page is an article.
    FullArticles,
}

/// How many anchors of a source page a crawl in `mode` looks at.
pub open spec fn scan_limit(mode: Mode) -> nat {
    match mode {
        Mode::Headlines => HEADLINE_SCAN_LIMIT as nat,
        Mode::FullArticles => ARTICLE_SCAN_LIMIT as nat,
    }
}

/// The keyword gate as a predicate on candidates.
pub open spec fn gate() -> spec_fn(CandidateView) -> bool {
    |candidate: CandidateView| gate_passes(candidate.href)
}

/// Those of `links` that pass the keyword gate, in order.
pub open spec fn gated(links: Seq<CandidateView>) -> Seq<CandidateView> {
    links.filter(gate())
}

/// The headline records of `links`, in order.
pub open spec fn headline_records(links: Seq<CandidateView>) -> Seq<RecordView> {
    links.map_values(|candidate: CandidateView| headline_record(candidate))
}

/// Whether `url` is `href` resolved against one of `sources`.
pub open spec fn came_from(url: Seq<char>, href: Seq<char>, sources: Seq<Seq<char>>) -> bool {
    exists|k: int| 0 <= k < sources.len() && url == #[trigger] resolved_url(sources[k], href)
}

/// Whether `content` is the text of an article page.
pub open spec fn is_article_text(content: Seq<char>) -> bool {
    exists|paragraphs: Seq<ElementView>| #[trigger]
        article_of(paragraphs, PARAGRAPH_LIMIT as nat) == Some(content)
}

/// Whether `candidate` may wait for its page to be fetched: its title is
/// trimmed and acceptable, its link passes the keyword gate, and its address
/// is that link resolved against a source.
pub open spec fn queued_rightly(candidate: CandidateView, sources: Seq<Seq<char>>) -> bool {
    &&& acceptable_title(candidate.title)
    &&& trimmed(candidate.title) == candidate.title
    &&& gate_passes(candidate.href)
    &&& came_from(candidate.url, candidate.href, sources)
}

/// Whether `record` passed every filter of a crawl in `mode` over `sources`:
/// its title is trimmed and acceptable; a headline has no text and the
/// address of a link on a source page; an article has the text of an article
/// page and the address of a link that passed the keyword gate.
pub open spec fn emitted_rightly(record: RecordView, mode: Mode, sources: Seq<Seq<char>>) -> bool {
    &&& acceptable_title(record.title)
    &&& trimmed(record.title) == record.title
    &&& match mode {
        Mode::Headlines => {
            &&& record.content.len() == 0
            &&& exists|href: Seq<char>| #[trigger] came_from(record.url, href, sources)
        },
        Mode::FullArticles => {
            &&& is_article_text(record.content)
            &&& exists|href: Seq<char>|
                gate_passes(href) && #[trigger] came_from(record.url, href, sources)
        },
    }
}

/// The state of a crawl.
///
/// While `next_candidate` is below the length of `candidates`, the crawl
/// waits for the page of that candidate. Else, while `next_source` is below
/// the length of `sources`, it waits for that source page. Else it is done.
pub struct CrawlState {
    pub mode: Mode,
    /// The addresses of the source pages, in the order in which they are read.
    pub sources: Seq<Seq<char>>,
    /// How many source pages have been asked for and answered.
    pub next_source: nat,
    /// The gated candidates of the source page that was read last.
    pub candidates: Seq<CandidateView>,
    /// How many of `candidates` have been asked for and answered.
    pub next_candidate: nat,
    /// The records emitted so far, in the order of their discovery.
    pub records: Seq<RecordView>,
}

impl CrawlState {
    /// The state in which a crawl begins.
    pub open spec fn start(mode: Mode, sources: Seq<Seq<char>>) -> CrawlState {
        CrawlState {
            mode,
            sources,
            next_source: 0,
            candidates: Seq::empty(),
            next_candidate: 0,
            records: Seq::empty(),
        }
    }

    /// Whether the crawl waits for the page of a candidate.
    pub open spec fn awaits_article(self) -> bool {
        self.next_candidate < self.candidates.len()
    }

    /// Whether the crawl waits for a source page.
    pub open spec fn awaits_source(self) -> bool {
        !self.awaits_article() && self.next_source < self.sources.len()
    }

    /// The address that the crawl wants fetched; `None` when it is done.
    pub open spec fn request(self) -> Option<Seq<char>> {
        if self.awaits_article() {
            Some(self.candidates[self.next_candidate as int].url)
        } else if self.awaits_source() {
            Some(self.sources[self.next_source as int])
        } else {
            None
        }
    }

    /// The state after the page of the waiting candidate came back as `body`:
    /// one record more where the page is an article, and the next candidate.
    pub open spec fn after_article(self, body: Option<Seq<char>>) -> CrawlState {
        let candidate = self.candidates[self.next_candidate as int];
        let article = match body {
            Some(html) => page_article(html, PARAGRAPH_LIMIT as nat),
            None => None,
        };
        CrawlState {
            mode: self.mode,
            sources: self.sources,
            next_source: self.next_source,
            candidates: self.candidates,
            next_candidate: self.next_candidate + 1,
            records: match article {
                Some(content) => self.records.push(article_record(candidate, content)),
                None => self.records,
            },
        }
    }

    /// The state after the waiting source page came back as `body`. A headline
    /// crawl emits a record for each of the page's candidates. A full-article
    /// crawl queues those that pass the keyword gate. A failed fetch leaves
    /// nothing but the next source.
    pub open spec fn after_source(self, body: Option<Seq<char>>) -> CrawlState {
        let links = match body {
            Some(html) => page_links(
                html,
                self.sources[self.next_source as int],
                scan_limit(self.mode),
            ),
            None => Seq::empty(),
        };
        CrawlState {
            mode: self.mode,
            sources: self.sources,
            next_source: self.next_source + 1,
            candidates: match self.mode {
                Mode::Headlines => Seq::empty(),
                Mode::FullArticles => gated(links),
            },
            next_candidate: 0,
            records: match self.mode {
                Mode::Headlines => self.records + headline_records(links),
                Mode::FullArticles => self.records,
            },
        }
    }

    /// The state after the requested address came back as `body`; `None`
    /// stands for a fetch that failed. A crawl that is done stays as it is.
    pub open spec fn step(self, body: Option<Seq<char>>) -> CrawlState {
        if self.awaits_article() {
            self.after_article(body)
        } else if self.awaits_source() {
            self.after_source(body)
        } else {
            self
        }
    }

    /// The state in which the crawl ends when every request for an address
    /// `url` is answered by `web(url)`.
    pub open spec fn run(self, web: spec_fn(Seq<char>) -> Option<Seq<char>>) -> CrawlState
        decreases self.sources.len() - self.next_source, self.candidates.len() - self.next_candidate,
    {
        match self.request() {
            Some(url) => self.step(web(url)).run(web),
            None => self,
        }
    }

    /// What holds of every state that a crawl reaches: the counters are in
    /// range, a headline crawl queues nothing, and every queued candidate and
    /// every record passed the filters of the crawl.
    pub open spec fn wf(self) -> bool {
        &&& self.next_source <= self.sources.len()
        &&& self.next_candidate <= self.candidates.len()
        &&& self.mode is Headlines ==> self.candidates.len() == 0
        &&& forall|i: int|
            0 <= i < self.candidates.len() ==> queued_rightly(
                #[trigger] self.candidates[i],
                self.sources,
            )
        &&& forall|i: int|
            0 <= i < self.records.len() ==> emitted_rightly(
                #[trigger] self.records[i],
                self.mode,
                self.sources,
            )
    }
}

/// The records of a whole crawl in `mode` over `sources`, when every request
/// for an address `url` is answered by `web(url)`.
pub open spec fn outcome(
    mode: Mode,
    sources: Seq<Seq<char>>,
    web: spec_fn(Seq<char>) -> Option<Seq<char>>,
) -> Seq<RecordView> {
    CrawlState::start(mode, sources).run(web).records
}

/// The addresses of the two source pages that a crawl reads by default.
pub open spec fn default_source_urls() -> Seq<Seq<char>> {
    seq!["https://www.dw.com/de/themen/s-9077"@, "https://www.tagesschau.de/"@]
}

/// A crawl in progress.
pub struct Crawl {
    mode: Mode,
    sources: Vec<String>,
    next_source: usize,
    candidates: Vec<Candidate>,
    next_candidate: usize,
    records: Vec<Record>,
}

impl View for Crawl {
    type V = CrawlState;

    closed spec fn view(&self) -> CrawlState {
        CrawlState {
            mode: self.mode,
            sources: self.sources.deep_view(),
            next_source: self.next_source as nat,
            candidates: self.candidates.deep_view(),
            next_candidate: self.next_candidate as nat,
            records: self.records.deep_view(),
        }
    }
}

/// The addresses of the two source pages that a crawl reads by default.
pub fn default_sources() -> (sources: Vec<String>)
    ensures
        sources.deep_view() == default_source_urls(),
{
    let mut sources: Vec<String> = Vec::new();
    sources.push(String::from_str("https://www.dw.com/de/themen/s-9077"));
    sources.push(String::from_str("https://www.tagesschau.de/"));
    proof {
        assert(sources.deep_view() =~= default_source_urls());
    }
    sources
}

/// Those of `links` that pass the keyword gate, in order.
pub fn gated_links(links: &Vec<Candidate>) -> (kept: Vec<Candidate>)
    ensures
        kept.deep_view() == gated(links.deep_view()),
{
    let mut kept: Vec<Candidate> = Vec::new();
    let mut i: usize = 0;
    proof {
        reveal(Seq::filter);
        assert(kept.deep_view() =~= gated(links.deep_view().take(0)));
    }
    while i < links.len()
        invariant
            i <= links.len(),
            kept.deep_view() == gated(links.deep_view().take(i as int)),
        decreases links.len() - i,
    {
        let ghost all = links.deep_view();
        let ghost before = kept.deep_view();
        proof {
            assert(all.take(i + 1) =~= all.take(i as int).push(all[i as int]));
            all.take(i as int).lemma_filter_push(all[i as int], gate());
        }
        if passes_keyword_gate(links[i].href.as_str()) {
            kept.push(links[i].clone());
            proof {
                assert(kept.deep_view() =~= before.push(all[i as int]));
            }
        }
        i += 1;
    }
    proof {
        assert(links.deep_view().take(links.len() as int) =~= links.deep_view());
    }
    kept
}

/// Appends the headline record of each of `links` to `records`.
pub fn push_headlines(records: &mut Vec<Record>, links: &Vec<Candidate>)
    ensures
        final(records).deep_view() == old(records).deep_view() + headline_records(
            links.deep_view(),
        ),
{
    let mut i: usize = 0;
    proof {
        assert(records.deep_view() =~= old(records).deep_view() + headline_records(
            links.deep_view().take(0),
        ));
    }
    while i < links.len()
        invariant
            i <= links.len(),
            records.deep_view() == old(records).deep_view() + headline_records(
                links.deep_view().take(i as int),
            ),
        decreases links.len() - i,
    {
        let ghost all = links.deep_view();
        let ghost before = records.deep_view();
        let record = Record::headline(&links[i]);
        records.push(record);
        proof {
            assert(records.deep_view() =~= before.push(headline_record(all[i as int])));
            assert(headline_records(all.take(i + 1)) =~= headline_records(all.take(i as int)).push(
                headline_record(all[i as int]),
            ));
        }
        i += 1;
    }
    proof {
        assert(links.deep_view().take(links.len() as int) =~= links.deep_view());
    }
}

impl Crawl {
    /// A crawl in `mode` that is about to read the first of `sources`.
    pub fn new(mode: Mode, sources: Vec<String>) -> (crawl: Crawl)
        ensures
            crawl@ == CrawlState::start(mode, sources.deep_view()),
            crawl@.wf(),
    {
        let crawl = Crawl {
            mode,
            sources,
            next_source: 0,
            candidates: Vec::new(),
            next_candidate: 0,
            records: Vec::new(),
        };
        proof {
            assert(crawl.candidates.deep_view() =~= Seq::<CandidateView>::empty());
            assert(crawl.records.deep_view() =~= Seq::<RecordView>::empty());
        }
        crawl
    }

    /// A headline crawl over the default sources.
    pub fn headlines() -> (crawl: Crawl)
        ensures
            crawl@ == CrawlState::start(Mode::Headlines, default_source_urls()),
            crawl@.wf(),
    {
        Crawl::new(Mode::Headlines, default_sources())
    }

    /// A full-article crawl over the default sources.
    pub fn full_articles() -> (crawl: Crawl)
        ensures
            crawl@ == CrawlState::start(Mode::FullArticles, default_source_urls()),
            crawl@.wf(),
    {
        Crawl::new(Mode::FullArticles, default_sources())
    }

    /// What the crawl collects.
    pub fn mode(&self) -> (mode: Mode)
        ensures
            mode == self@.mode,
    {
        self.mode
    }

    /// The address that the crawl wants fetched next; `None` when it is done.
    pub fn pending(&self) -> (url: Option<&str>)
        ensures
            url.deep_view() == self@.request(),
    {
        if self.next_candidate < self.candidates.len() {
            Some(self.candidates[self.next_candidate].url.as_str())
        } else if self.next_source < self.sources.len() {
            Some(self.sources[self.next_source].as_str())
        } else {
            None
        }
    }

    /// Tells whether the crawl is done.
    pub fn is_finished(&self) -> (done: bool)
        ensures
            done == (self@.request() is None),
    {
        self.next_candidate >= self.candidates.len() && self.next_source >= self.sources.len()
    }

    /// Hands the crawl what came back for the address it asked for: the body of
    /// the page, or `None` where the fetch failed.
    pub fn deliver(&mut self, body: Option<&str>)
        ensures
            final(self)@ == old(self)@.step(body.deep_view()),
            old(self)@.wf() ==> final(self)@.wf(),
    {
        proof {
            if self@.wf() {
                step_keeps_well_formed(self@, body.deep_view());
            }
        }
        if self.next_candidate < self.candidates.len() {
            let article = match body {
                Some(html) => extract_article(html, PARAGRAPH_LIMIT),
                None => None,
            };
            match article {
                Some(content) => {
                    let ghost before = self.records.deep_view();
                    let record = Record::article(&self.candidates[self.next_candidate], content);
                    let ghost added = record.deep_view();
                    self.records.push(record);
                    proof {
                        assert(self.records.deep_view() =~= before.push(added));
                    }
                },
                None => {},
            }
            self.next_candidate = self.next_candidate + 1;
        } else if self.next_source < self.sources.len() {
            let links = match body {
                Some(html) => {
                    let limit: usize = match self.mode {
                        Mode::Headlines => HEADLINE_SCAN_LIMIT,
                        Mode::FullArticles => ARTICLE_SCAN_LIMIT,
                    };
                    extract_links(html, self.sources[self.next_source].as_str(), limit)
                },
                None => {
                    let none: Vec<Candidate> = Vec::new();
                    proof {
                        assert(none.deep_view() =~= Seq::<CandidateView>::empty());
                    }
                    none
                },
            };
            match self.mode {
                Mode::Headlines => {
                    push_headlines(&mut self.records, &links);
                    self.candidates = Vec::new();
                    proof {
                        assert(self.candidates.deep_view() =~= Seq::<CandidateView>::empty());
                    }
                },
                Mode::FullArticles => {
                    self.candidates = gated_links(&links);
                },
            }
            self.next_candidate = 0;
            self.next_source = self.next_source + 1;
        }
    }

    /// The records emitted so far, in the order of their discovery.
    pub fn records(&self) -> (records: &Vec<Record>)
        ensures
            records.deep_view() == self@.records,
    {
        &self.records
    }

    /// Ends the crawl and hands out its records, in the order of their
    /// discovery.
    pub fn into_records(self) -> (records: Vec<Record>)
        ensures
            records.deep_view() == self@.records,
    {
        self.records
    }
}

/// A crawl begins in a well-formed state.
pub proof fn start_is_well_formed(mode: Mode, sources: Seq<Seq<char>>)
    ensures
        CrawlState::start(mode, sources).wf(),
{
}

/// A step keeps the state well formed, whatever came back.
pub proof fn step_keeps_well_formed(state: CrawlState, body: Option<Seq<char>>)
    requires
        state.wf(),
    ensures
        state.step(body).wf(),
{
    let next = state.step(body);
    if state.awaits_article() {
        let candidate = state.candidates[state.next_candidate as int];
        assert(queued_rightly(candidate, state.sources));
        assert forall|i: int| 0 <= i < next.records.len() implies emitted_rightly(
            #[trigger] next.records[i],
            next.mode,
            next.sources,
        ) by {
            if i < state.records.len() {
                assert(emitted_rightly(state.records[i], state.mode, state.sources));
            } else {
                let html = body->0;
                let paragraphs = selected_elements(html, "p"@, "href"@)->0;
                assert(article_of(paragraphs, PARAGRAPH_LIMIT as nat) == Some(
                    next.records[i].content,
                ));
                assert(came_from(next.records[i].url, candidate.href, next.sources));
            }
        }
    } else if state.awaits_source() {
        let source = state.sources[state.next_source as int];
        let links = match body {
            Some(html) => page_links(html, source, scan_limit(state.mode)),
            None => Seq::empty(),
        };
        if body is Some {
            page_links_are_sound(body->0, source, scan_limit(state.mode));
        }
        assert forall|j: int| 0 <= j < links.len() implies came_from(
            (#[trigger] links[j]).url,
            links[j].href,
            state.sources,
        ) by {
            assert(links[j].url == resolved_url(state.sources[state.next_source as int], links[j].href));
        }
        match state.mode {
            Mode::Headlines => {
                assert forall|i: int| 0 <= i < next.records.len() implies emitted_rightly(
                    #[trigger] next.records[i],
                    next.mode,
                    next.sources,
                ) by {
                    if i < state.records.len() {
                        assert(emitted_rightly(state.records[i], state.mode, state.sources));
                    } else {
                        let link = links[i - state.records.len()];
                        assert(came_from(next.records[i].url, link.href, next.sources));
                    }
                }
            },
            Mode::FullArticles => {
                assert forall|i: int| 0 <= i < next.candidates.len() implies queued_rightly(
                    #[trigger] next.candidates[i],
                    next.sources,
                ) by {
                    let kept = next.candidates[i];
                    links.lemma_filter_pred(gate(), i);
                    links.lemma_filter_contains_rev(gate(), kept);
                    let j = choose|j: int| 0 <= j < links.len() && links[j] == kept;
                    assert(came_from(links[j].url, links[j].href, state.sources));
                }
            },
        }
    }
}

/// Every step but the last brings a crawl nearer to its end: it answers a
/// candidate of the source that is being read, or it goes on to the next
/// source.
pub proof fn step_makes_progress(state: CrawlState, body: Option<Seq<char>>)
    requires
        state.request() is Some,
    ensures
        state.awaits_article() ==> {
            &&& state.step(body).sources.len() - state.step(body).next_source
                == state.sources.len() - state.next_source
            &&& state.step(body).candidates.len() - state.step(body).next_candidate
                < state.candidates.len() - state.next_candidate
        },
        !state.awaits_article() ==> state.step(body).sources.len() - state.step(
            body,
        ).next_source < state.sources.len() - state.next_source,
{
}

/// A crawl that began well formed ends well formed, and ends done.
pub proof fn run_ends_well_formed(state: CrawlState, web: spec_fn(Seq<char>) -> Option<Seq<char>>)
    requires
        state.wf(),
    ensures
        state.run(web).wf(),
        state.run(web).request() is None,
    decreases state.sources.len() - state.next_source, state.candidates.len() - state.next_candidate,
{
    match state.request() {
        Some(url) => {
            step_keeps_well_formed(state, web(url));
            run_ends_well_formed(state.step(web(url)), web);
        },
        None => {},
    }
}

/// No record of a well-formed crawl has a title of fewer than 15 characters,
/// and none has a title that holds `springen` or `navigation`. A headline has
/// no text, an article has more than 300 characters of it.
pub proof fn records_pass_filters(state: CrawlState)
    requires
        state.wf(),
    ensures
        forall|i: int|
            0 <= i < state.records.len() ==> {
                &&& (#[trigger] state.records[i]).title.len() >= 15
                &&& !has_substring(state.records[i].title, "springen"@)
                &&& !has_substring(state.records[i].title, "navigation"@)
                &&& state.mode is Headlines ==> state.records[i].content.len() == 0
                &&& state.mode is FullArticles ==> state.records[i].content.len() > 300
            },
{
    assert forall|i: int| 0 <= i < state.records.len() implies {
        &&& (#[trigger] state.records[i]).title.len() >= 15
        &&& !has_substring(state.records[i].title, "springen"@)
        &&& !has_substring(state.records[i].title, "navigation"@)
        &&& state.mode is Headlines ==> state.records[i].content.len() == 0
        &&& state.mode is FullArticles ==> state.records[i].content.len() > 300
    } by {
        assert(emitted_rightly(state.records[i], state.mode, state.sources));
    }
}

/// Every record of a whole crawl passed the filters of the crawl, whatever
/// the web answered. In particular none has a title of fewer than 15
/// characters, and none a title that holds `springen` or `navigation`.
pub proof fn outcome_passes_filters(
    mode: Mode,
    sources: Seq<Seq<char>>,
    web: spec_fn(Seq<char>) -> Option<Seq<char>>,
)
    ensures
        forall|i: int|
            0 <= i < outcome(mode, sources, web).len() ==> {
                &&& emitted_rightly(#[trigger] outcome(mode, sources, web)[i], mode, sources)
                &&& outcome(mode, sources, web)[i].title.len() >= 15
                &&& !has_substring(outcome(mode, sources, web)[i].title, "springen"@)
                &&& !has_substring(outcome(mode, sources, web)[i].title, "navigation"@)
                &&& mode is Headlines ==> outcome(mode, sources, web)[i].content.len() == 0
                &&& mode is FullArticles ==> outcome(mode, sources, web)[i].content.len() > 300
            },
{
    start_is_well_formed(mode, sources);
    run_ends_well_formed(CrawlState::start(mode, sources), web);
    run_keeps_mode_and_sources(CrawlState::start(mode, sources), web);
    records_pass_filters(CrawlState::start(mode, sources).run(web));
}

/// A crawl never changes its mode or its sources.
pub proof fn run_keeps_mode_and_sources(
    state: CrawlState,
    web: spec_fn(Seq<char>) -> Option<Seq<char>>,
)
    ensures
        state.run(web).mode == state.mode,
        state.run(web).sources == state.sources,
    decreases state.sources.len() - state.next_source, state.candidates.len() - state.next_candidate,
{
    match state.request() {
        Some(url) => {
            run_keeps_mode_and_sources(state.step(web(url)), web);
        },
        None => {},
    }
}

/// A link is fetched only if it passed the keyword gate: the candidate whose
/// page a well-formed crawl asks for has a link that, in lower case, holds a
/// keyword; and a headline crawl asks for source pages only.
pub proof fn only_gated_links_are_fetched(state: CrawlState)
    requires
        state.wf(),
        state.awaits_article(),
    ensures
        state.mode is FullArticles,
        state.request() == Some(state.candidates[state.next_candidate as int].url),
        gate_passes(state.candidates[state.next_candidate as int].href),
{
    assert(queued_rightly(state.candidates[state.next_candidate as int], state.sources));
}

/// What a source page queues in a full-article crawl is what passes the
/// gate among its candidates: a candidate whose link holds no keyword is
/// dropped here, before any fetch.
pub proof fn source_page_queues_gated_links(state: CrawlState, html: Seq<char>)
    requires
        state.awaits_source(),
        state.mode is FullArticles,
    ensures
        state.step(Some(html)).candidates == gated(
            page_links(html, state.sources[state.next_source as int], ARTICLE_SCAN_LIMIT as nat),
        ),
        forall|i: int|
            0 <= i < state.step(Some(html)).candidates.len() ==> gate_passes(
                (#[trigger] state.step(Some(html)).candidates[i]).href,
            ),
        state.step(Some(html)).records == state.records,
{
    let links = page_links(
        html,
        state.sources[state.next_source as int],
        ARTICLE_SCAN_LIMIT as nat,
    );
    assert forall|i: int| 0 <= i < gated(links).len() implies gate_passes(
        (#[trigger] gated(links)[i]).href,
    ) by {
        links.lemma_filter_pred(gate(), i);
    }
}

/// A fetch that failed adds no record.
pub proof fn failed_fetch_adds_no_record(state: CrawlState)
    ensures
        state.step(None).records == state.records,
{
    if state.awaits_source() && state.mode is Headlines {
        assert(state.records + headline_records(Seq::empty()) =~= state.records);
    }
}

/// A page that the article extractor rejects adds no record: its candidate
/// is passed over and the crawl goes on.
pub proof fn rejected_page_adds_no_record(state: CrawlState, html: Seq<char>)
    requires
        state.awaits_article(),
        page_article(html, PARAGRAPH_LIMIT as nat) is None,
    ensures
        state.step(Some(html)).records == state.records,
        state.step(Some(html)).next_candidate == state.next_candidate + 1,
{
}

/// An article page adds exactly one record: the candidate's title and
/// address with the text of the page.
pub proof fn article_page_adds_its_record(state: CrawlState, html: Seq<char>)
    requires
        state.awaits_article(),
        page_article(html, PARAGRAPH_LIMIT as nat) is Some,
    ensures
        state.step(Some(html)).records == state.records.push(
            article_record(
                state.candidates[state.next_candidate as int],
                page_article(html, PARAGRAPH_LIMIT as nat)->0,
            ),
        ),
{
}

/// Where every fetch fails, a crawl adds no record to those it has.
pub proof fn failed_fetches_add_no_record(
    state: CrawlState,
    web: spec_fn(Seq<char>) -> Option<Seq<char>>,
)
    requires
        forall|url: Seq<char>| #[trigger] web(url) is None,
    ensures
        state.run(web).records == state.records,
    decreases state.sources.len() - state.next_source, state.candidates.len() - state.next_candidate,
{
    match state.request() {
        Some(url) => {
            failed_fetch_adds_no_record(state);
            failed_fetches_add_no_record(state.step(web(url)), web);
        },
        None => {},
    }
}

/// Where no address can be reached, a whole crawl emits nothing.
pub proof fn unreachable_web_gives_nothing(
    mode: Mode,
    sources: Seq<Seq<char>>,
    web: spec_fn(Seq<char>) -> Option<Seq<char>>,
)
    requires
        forall|url: Seq<char>| #[trigger] web(url) is None,
    ensures
        outcome(mode, sources, web) == Seq::<RecordView>::empty(),
{
    failed_fetches_add_no_record(CrawlState::start(mode, sources), web);
}

/// The end of a crawl is determined by what the web answers: two webs that
/// answer every address alike lead from one state to one state.
pub proof fn same_answers_same_end(
    state: CrawlState,
    first: spec_fn(Seq<char>) -> Option<Seq<char>>,
    second: spec_fn(Seq<char>) -> Option<Seq<char>>,
)
    requires
        forall|url: Seq<char>| #[trigger] first(url) == second(url),
    ensures
        state.run(first) == state.run(second),
    decreases state.sources.len() - state.next_source, state.candidates.len() - state.next_candidate,
{
    match state.request() {
        Some(url) => {
            same_answers_same_end(state.step(first(url)), first, second);
        },
        None => {},
    }
}

/// Two whole crawls over the same sources, against webs that answer every
/// address alike, give the same records in the same order.
pub proof fn same_answers_same_records(
    mode: Mode,
    sources: Seq<Seq<char>>,
    first: spec_fn(Seq<char>) -> Option<Seq<char>>,
    second: spec_fn(Seq<char>) -> Option<Seq<char>>,
)
    requires
        forall|url: Seq<char>| #[trigger] first(url) == second(url),
    ensures
        outcome(mode, sources, first) == outcome(mode, sources, second),
{
    same_answers_same_end(CrawlState::start(mode, sources), first, second);
}

} // verus!
