//! The crawl policy and the per-domain state of one crawl run.
//!
//! A [`DocCollector`] decides, for each URL that the crawler meets, whether
//! the page is taken: the domain must be on the allow-list, the domain must
//! not have reached its page cap, and the stored copy of the page, if there
//! is one, must be older than the recrawl window. It then builds the
//! document and the index writes of a page that was taken, and counts the
//! page once the writes are done.
//!
//! The per-domain state is kept in a `DashMap`. The map is reached through
//! four small functions whose contracts are stated over [`domain_states`],
//! the name of what the map holds.

use crate::doc_extractor::{
    extracted_from, fits_parser, fresh_extractor, link_texts_of, page_links, DocExtractor,
    DocExtractorView,
};
use crate::extracted_content::{ExtractedContent, ExtractedContentView};
use crate::index::{
    apply_writes, count_url, find_url, lemma_find_url, lemma_write_plan_effect, settled,
    write_plan, write_plan_of, write_views, Document, DocumentView, IndexModel, WriteAction,
};
use crate::text::{join, joined, views};
use crate::urls::{
    canonical_from, canonical_from_parts, links_from, outbound_links, parsed_url, url_parts,
};
use dashmap::DashMap;
use std::time::UNIX_EPOCH;
use vstd::prelude::*;

verus! {

/// Pages that one domain may contribute to a crawl run before it counts as
/// exhausted.
pub const NUM_PAGES_PER_SITE: i32 = 100;

/// Age in milliseconds up to which a stored page counts as fresh: one day.
pub const RE_CRAWL_DURATION: i64 = 1000 * 60 * 60 * 24;

// ---------------------------------------------------------------------------
// The clock
// ---------------------------------------------------------------------------

/// Measures the time since the Unix epoch with `SystemTime::elapsed` on
/// `UNIX_EPOCH`, in whole milliseconds; `None` when the clock stands before
/// the epoch. Nothing is known of the value.
#[verifier::external_body]
fn elapsed_since_epoch() -> Option<u128> {
    UNIX_EPOCH.elapsed().ok().map(|d| d.as_millis())
}

/// The timestamp that stands for `millis` milliseconds since the epoch, or
/// `None` when it does not fit.
pub open spec fn timestamp_of(millis: int) -> Option<i64> {
    if 0 <= millis <= i64::MAX {
        Some(millis as i64)
    } else {
        None
    }
}

/// Turns a count of milliseconds since the epoch into a timestamp.
pub fn timestamp_from_millis(millis: u128) -> (stamp: Option<i64>)
    ensures
        stamp == timestamp_of(millis as int),
{
    if millis <= i64::MAX as u128 {
        Some(millis as i64)
    } else {
        None
    }
}

/// Reads the clock: milliseconds since the Unix epoch, or `None` when the
/// clock stands before the epoch.
pub fn get_epoch_ms() -> (now: Option<u128>) {
    elapsed_since_epoch()
}

// ---------------------------------------------------------------------------
// Per-domain state
// ---------------------------------------------------------------------------

/// What a crawl run keeps for one domain.
#[derive(Debug)]
pub struct DomainState {
    /// Pages of the domain that were stored in this run.
    pub page_count: i32,
    /// The extraction configuration of the domain.
    pub extractor: DocExtractor,
}

/// The mathematical content of a [`DomainState`].
pub struct DomainStateView {
    pub page_count: i32,
    pub extractor: DocExtractorView,
}

impl View for DomainState {
    type V = DomainStateView;

    open spec fn view(&self) -> DomainStateView {
        DomainStateView { page_count: self.page_count, extractor: self.extractor@ }
    }
}

/// The state a domain starts with: no page counted, the fresh configuration.
pub open spec fn fresh_state(domain: Seq<char>) -> DomainStateView {
    DomainStateView { page_count: 0, extractor: fresh_extractor(domain) }
}

/// A page count raised by one; it stays where it is at the largest value.
pub open spec fn counted(page_count: i32) -> i32 {
    if page_count < i32::MAX {
        (page_count + 1) as i32
    } else {
        page_count
    }
}

/// A state with one more page counted.
pub open spec fn counted_state(state: DomainStateView) -> DomainStateView {
    DomainStateView { page_count: counted(state.page_count), extractor: state.extractor }
}

impl DomainState {
    /// The state that `domain` starts with.
    pub fn fresh(domain: &str) -> (state: Self)
        ensures
            state@ == fresh_state(domain@),
    {
        DomainState { page_count: 0, extractor: DocExtractor::for_domain(domain) }
    }

    /// The same state with one more page counted.
    pub fn counted(self) -> (state: Self)
        ensures
            state@ == counted_state(self@),
    {
        let page_count = if self.page_count < i32::MAX {
            self.page_count + 1
        } else {
            self.page_count
        };
        DomainState { page_count, extractor: self.extractor }
    }

    /// A copy of this state.
    pub fn duplicate(&self) -> (copy: Self)
        ensures
            copy@ == self@,
    {
        DomainState { page_count: self.page_count, extractor: self.extractor.duplicate() }
    }
}

#[verifier::external_type_specification]
#[verifier::external_body]
#[verifier::reject_recursive_types(K)]
#[verifier::reject_recursive_types(V)]
#[verifier::reject_recursive_types(S)]
pub struct ExDashMap<K, V, S>(DashMap<K, V, S>);

/// What a map of domain states holds: the state of each domain that has one.
pub uninterp spec fn domain_states(states: DashMap<String, DomainState>) -> Map<
    Seq<char>,
    DomainStateView,
>;

/// The states at the start of a run: no domain has one.
pub open spec fn no_states() -> Map<Seq<char>, DomainStateView> {
    Map::empty()
}

/// `states` with a fresh state for `domain` unless it has one already.
pub open spec fn with_state(states: Map<Seq<char>, DomainStateView>, domain: Seq<char>) -> Map<
    Seq<char>,
    DomainStateView,
> {
    if states.contains_key(domain) {
        states
    } else {
        states.insert(domain, fresh_state(domain))
    }
}

/// `states` with one more page counted for `domain`, if it has a state.
pub open spec fn with_page_counted(
    states: Map<Seq<char>, DomainStateView>,
    domain: Seq<char>,
) -> Map<Seq<char>, DomainStateView> {
    if states.contains_key(domain) {
        states.insert(domain, counted_state(states[domain]))
    } else {
        states
    }
}

/// `DashMap::new` makes a map that holds nothing.
#[verifier::external_body]
fn new_states() -> (created: DashMap<String, DomainState>)
    ensures
        domain_states(created) == no_states(),
{
    DashMap::new()
}

/// `DashMap::entry` followed by `Entry::or_insert_with`: where the map has
/// no state for `domain`, the fresh state is inserted; the map is otherwise
/// unchanged. A copy of the state that the map then holds is returned.
#[verifier::external_body]
fn state_or_create(states: &mut DashMap<String, DomainState>, domain: &str) -> (state: DomainState)
    ensures
        domain_states(*final(states)) == with_state(domain_states(*old(states)), domain@),
        state@ == domain_states(*final(states))[domain@],
{
    states.entry(domain.to_string()).or_insert_with(|| DomainState::fresh(domain)).duplicate()
}

/// `DashMap::alter`: where the map has a state for `domain`, it is replaced
/// by the state with one more page counted; the map is otherwise unchanged.
#[verifier::external_body]
fn state_count_page(states: &mut DashMap<String, DomainState>, domain: &str)
    ensures
        domain_states(*final(states)) == with_page_counted(domain_states(*old(states)), domain@),
{
    states.alter(domain, |_, state| state.counted());
}

/// `DashMap::get`: a copy of the state that the map holds for `domain`, or
/// `None` where it holds none.
#[verifier::external_body]
fn state_of(states: &DashMap<String, DomainState>, domain: &str) -> (state: Option<DomainState>)
    ensures
        match state {
            Some(s) => domain_states(*states).contains_key(domain@) && s@ == domain_states(
                *states,
            )[domain@],
            None => !domain_states(*states).contains_key(domain@),
        },
{
    states.get(domain).map(|s| s.duplicate())
}

/// Pages counted for `domain`; none where the domain has no state yet.
pub open spec fn page_count_in(states: Map<Seq<char>, DomainStateView>, domain: Seq<char>) -> int {
    if states.contains_key(domain) {
        states[domain].page_count as int
    } else {
        0
    }
}

// ---------------------------------------------------------------------------
// Freshness
// ---------------------------------------------------------------------------

/// What the index knows of a page, at the time of a policy check.
#[derive(Clone, Copy, Debug, PartialEq, Eq, Structural)]
pub enum Freshness {
    /// No copy of the page is stored.
    Absent,
    /// The stored copy is no older than the recrawl window.
    Fresh,
    /// The stored copy is older than the recrawl window.
    Stale,
}

/// The freshness of a page whose stored copy, if any, was crawled at
/// `existing`, seen at time `now` with recrawl window `window`.
pub open spec fn freshness_of(existing: Option<i64>, now: int, window: int) -> Freshness {
    match existing {
        None => Freshness::Absent,
        Some(scraped_at) => if now - scraped_at > window {
            Freshness::Stale
        } else {
            Freshness::Fresh
        },
    }
}

/// Decides the freshness of a page from the crawl time of its stored copy.
pub fn freshness(existing: Option<i64>, now_ms: i64, window_ms: i64) -> (state: Freshness)
    ensures
        state == freshness_of(existing, now_ms as int, window_ms as int),
{
    match existing {
        None => Freshness::Absent,
        Some(scraped_at) => {
            let age: i128 = now_ms as i128 - scraped_at as i128;
            if age > window_ms as i128 {
                Freshness::Stale
            } else {
                Freshness::Fresh
            }
        },
    }
}

// ---------------------------------------------------------------------------
// Admission
// ---------------------------------------------------------------------------

/// Why the policy does not take a page.
#[derive(Clone, Copy, Debug, PartialEq, Eq, Structural)]
pub enum Rejection {
    /// The URL is no absolute URL with a host.
    MalformedUrl,
    /// The URL's host is no domain name.
    NoDomain,
    /// The domain is not on the allow-list.
    OffSite,
    /// The domain has reached its page cap in this run.
    Exhausted,
    /// The stored copy of the page is still fresh.
    RecentlyScraped,
}

/// A URL that passed domain admission and the volume cap.
#[derive(Debug)]
pub struct Admission {
    /// The canonical URL, under which the page is looked up and stored.
    pub canonical: String,
    /// The domain the page is counted under.
    pub domain: String,
    /// The extraction configuration of the domain.
    pub extractor: DocExtractor,
}

/// The mathematical content of an [`Admission`].
pub struct AdmissionView {
    pub canonical: Seq<char>,
    pub domain: Seq<char>,
    pub extractor: DocExtractorView,
}

impl View for Admission {
    type V = AdmissionView;

    open spec fn view(&self) -> AdmissionView {
        AdmissionView {
            canonical: self.canonical@,
            domain: self.domain@,
            extractor: self.extractor@,
        }
    }
}

/// The view of an admission or a rejection.
pub open spec fn admission_view(outcome: Result<Admission, Rejection>) -> Result<
    AdmissionView,
    Rejection,
> {
    match outcome {
        Ok(admission) => Ok(admission@),
        Err(rejection) => Err(rejection),
    }
}

/// The domain of `url` if it has one that is on the allow-list.
pub open spec fn admitted_domain(allowed: Seq<Seq<char>>, url: Seq<char>) -> Option<Seq<char>> {
    match parsed_url(url) {
        Some(parts) => match parts.domain {
            Some(domain) => if allowed.contains(domain) {
                Some(domain)
            } else {
                None
            },
            None => None,
        },
        None => None,
    }
}

/// The states after a policy check of `url`: the domain of an admitted URL
/// has a state from then on.
pub open spec fn states_after_check(
    states: Map<Seq<char>, DomainStateView>,
    allowed: Seq<Seq<char>>,
    url: Seq<char>,
) -> Map<Seq<char>, DomainStateView> {
    match admitted_domain(allowed, url) {
        Some(domain) => with_state(states, domain),
        None => states,
    }
}

/// Domain admission and volume cap: a URL is admitted when it parses, its
/// host is a domain on the allow-list, and the domain has not counted more
/// than `cap` pages.
pub open spec fn admission_of(
    states: Map<Seq<char>, DomainStateView>,
    allowed: Seq<Seq<char>>,
    cap: int,
    url: Seq<char>,
) -> Result<AdmissionView, Rejection> {
    match parsed_url(url) {
        None => Err(Rejection::MalformedUrl),
        Some(parts) => match parts.domain {
            None => Err(Rejection::NoDomain),
            Some(domain) => if !allowed.contains(domain) {
                Err(Rejection::OffSite)
            } else if page_count_in(states, domain) > cap {
                Err(Rejection::Exhausted)
            } else {
                match canonical_from(parts) {
                    Ok(canonical) => Ok(
                        AdmissionView {
                            canonical,
                            domain,
                            extractor: with_state(states, domain)[domain].extractor,
                        },
                    ),
                    Err(_) => Err(Rejection::MalformedUrl),
                }
            },
        },
    }
}

/// The whole policy check: admission, then freshness. An admitted page is
/// taken unless its stored copy is fresh; the flag tells whether the page
/// supersedes a stale copy.
pub open spec fn policy_of(
    states: Map<Seq<char>, DomainStateView>,
    allowed: Seq<Seq<char>>,
    cap: int,
    window: int,
    url: Seq<char>,
    existing: Option<i64>,
    now: int,
) -> Result<(AdmissionView, bool), Rejection> {
    match admission_of(states, allowed, cap, url) {
        Err(rejection) => Err(rejection),
        Ok(admission) => match freshness_of(existing, now, window) {
            Freshness::Absent => Ok((admission, false)),
            Freshness::Stale => Ok((admission, true)),
            Freshness::Fresh => Err(Rejection::RecentlyScraped),
        },
    }
}

/// The view of a policy outcome.
pub open spec fn policy_view(outcome: Result<(Admission, bool), Rejection>) -> Result<
    (AdmissionView, bool),
    Rejection,
> {
    match outcome {
        Ok((admission, superseding)) => Ok((admission@, superseding)),
        Err(rejection) => Err(rejection),
    }
}

// ---------------------------------------------------------------------------
// Documents of crawled pages
// ---------------------------------------------------------------------------

/// The document that stores `content`, fetched from `url` at `scraped_at`,
/// under the canonical URL `canonical`. The fetched URL is kept only where
/// it differs from the canonical one.
pub open spec fn document_of(
    content: ExtractedContentView,
    url: Seq<char>,
    canonical: Seq<char>,
    domain: Seq<char>,
    scraped_at: i64,
) -> DocumentView {
    DocumentView {
        title: content.title,
        content: joined(content.content, "\n"@),
        url: canonical,
        url_raw: if url == canonical {
            None
        } else {
            Some(url)
        },
        domain,
        headings: joined(content.headings, "\n"@),
        code_blocks: joined(content.code_blocks, "\n"@),
        api_items: joined(content.api_items, "\n"@),
        scraped_at,
    }
}

/// Builds the document that stores `content`.
pub fn build_document(
    content: &ExtractedContent,
    url: &str,
    canonical: &str,
    domain: &str,
    scraped_at: i64,
) -> (document: Document)
    ensures
        document@ == document_of(content@, url@, canonical@, domain@, scraped_at),
{
    let raw = url.to_owned();
    let key = canonical.to_owned();
    let url_raw = if raw == key {
        None
    } else {
        Some(raw)
    };
    Document {
        title: content.title.clone(),
        content: join(&content.content, "\n"),
        url: key,
        url_raw,
        domain: domain.to_owned(),
        headings: join(&content.headings, "\n"),
        code_blocks: join(&content.code_blocks, "\n"),
        api_items: join(&content.api_items, "\n"),
        scraped_at,
    }
}

/// What the library hands back for a page that was taken.
#[derive(Debug)]
pub struct IndexedPage {
    /// What was extracted from the page.
    pub content: ExtractedContent,
    /// The writes that store the page, to be done in order.
    pub writes: Vec<WriteAction>,
    /// The targets of the links of the page, to be offered to the frontier.
    pub links: Vec<String>,
}

/// Processes a page that the policy took and the HTML parser takes: extracts
/// its content, builds its document under the admission's canonical URL and
/// domain, plans the writes that store it, and lists the targets of its
/// links.
pub fn index_page(
    admission: &Admission,
    url: &str,
    html: &str,
    scraped_at: i64,
    superseding: bool,
) -> (page: IndexedPage)
    requires
        fits_parser(html@),
    ensures
        page.content@ == extracted_from(admission.extractor@, html@),
        write_views(page.writes@) == write_plan_of(
            document_of(
                extracted_from(admission.extractor@, html@),
                url@,
                admission.canonical@,
                admission.domain@,
                scraped_at,
            ),
            superseding,
        ),
        views(page.links@) == links_from(url@, link_texts_of(html@)),
{
    let content = admission.extractor.extract(html);
    let document = build_document(
        &content,
        url,
        admission.canonical.as_str(),
        admission.domain.as_str(),
        scraped_at,
    );
    let writes = write_plan(document, superseding);
    let hrefs = page_links(html);
    let links = outbound_links(url, &hrefs);
    IndexedPage { content, writes, links }
}

// ---------------------------------------------------------------------------
// The collector
// ---------------------------------------------------------------------------

/// The policy state of one crawl run.
pub struct DocCollector {
    allowed_domains: Vec<String>,
    max_pages_per_site: i32,
    recrawl_window_ms: i64,
    states: DashMap<String, DomainState>,
}

impl DocCollector {
    /// The domains that may be crawled.
    pub closed spec fn allowed(&self) -> Seq<Seq<char>> {
        views(self.allowed_domains@)
    }

    /// The page cap of a domain.
    pub closed spec fn cap(&self) -> int {
        self.max_pages_per_site as int
    }

    /// The recrawl window in milliseconds.
    pub closed spec fn window(&self) -> int {
        self.recrawl_window_ms as int
    }

    /// The state of each domain met so far.
    pub closed spec fn states(&self) -> Map<Seq<char>, DomainStateView> {
        domain_states(self.states)
    }

    /// Starts a crawl run over `allowed_domains` with the default limits:
    /// `NUM_PAGES_PER_SITE` pages per domain and a recrawl window of
    /// `RE_CRAWL_DURATION`.
    pub fn new(allowed_domains: Vec<String>) -> (collector: Self)
        ensures
            collector.allowed() == views(allowed_domains@),
            collector.cap() == NUM_PAGES_PER_SITE,
            collector.window() == RE_CRAWL_DURATION,
            collector.states() == no_states(),
    {
        Self::with_limits(allowed_domains, NUM_PAGES_PER_SITE, RE_CRAWL_DURATION)
    }

    /// Starts a crawl run over `allowed_domains` with the given page cap and
    /// recrawl window.
    pub fn with_limits(
        allowed_domains: Vec<String>,
        max_pages_per_site: i32,
        recrawl_window_ms: i64,
    ) -> (collector: Self)
        ensures
            collector.allowed() == views(allowed_domains@),
            collector.cap() == max_pages_per_site,
            collector.window() == recrawl_window_ms,
            collector.states() == no_states(),
    {
        DocCollector {
            allowed_domains,
            max_pages_per_site,
            recrawl_window_ms,
            states: new_states(),
        }
    }

    /// Tells whether `domain` is on the allow-list.
    pub fn is_allowed(&self, domain: &str) -> (allowed: bool)
        ensures
            allowed == self.allowed().contains(domain@),
    {
        let wanted = domain.to_owned();
        let mut i: usize = 0;
        while i < self.allowed_domains.len()
            invariant
                i <= self.allowed_domains.len(),
                wanted@ == domain@,
                forall|j: int| 0 <= j < i ==> self.allowed()[j] != domain@,
            decreases self.allowed_domains.len() - i,
        {
            if self.allowed_domains[i] == wanted {
                assert(self.allowed()[i as int] == domain@);
                return true;
            }
            i += 1;
        }
        false
    }

    /// The number of pages counted for `domain` in this run.
    pub fn page_count(&self, domain: &str) -> (count: i32)
        ensures
            count == page_count_in(self.states(), domain@),
    {
        match state_of(&self.states, domain) {
            Some(state) => state.page_count,
            None => 0,
        }
    }

    /// Checks domain admission and the volume cap for `url`. On the first
    /// admitted URL of a domain the domain's state is created; nothing else
    /// changes.
    pub fn check_admission(&mut self, url: &str) -> (outcome: Result<Admission, Rejection>)
        ensures
            admission_view(outcome) == admission_of(
                old(self).states(),
                old(self).allowed(),
                old(self).cap(),
                url@,
            ),
            final(self).states() == states_after_check(
                old(self).states(),
                old(self).allowed(),
                url@,
            ),
            final(self).allowed() == old(self).allowed(),
            final(self).cap() == old(self).cap(),
            final(self).window() == old(self).window(),
    {
        let parts = match url_parts(url) {
            Some(parts) => parts,
            None => {
                return Err(Rejection::MalformedUrl);
            },
        };
        let domain = match &parts.domain {
            Some(domain) => domain.clone(),
            None => {
                return Err(Rejection::NoDomain);
            },
        };
        if !self.is_allowed(domain.as_str()) {
            return Err(Rejection::OffSite);
        }
        let state = state_or_create(&mut self.states, domain.as_str());
        if state.page_count > self.max_pages_per_site {
            return Err(Rejection::Exhausted);
        }
        match canonical_from_parts(&parts) {
            Ok(canonical) => Ok(Admission { canonical, domain, extractor: state.extractor }),
            Err(_) => Err(Rejection::MalformedUrl),
        }
    }

    /// Decides from the crawl time of the stored copy of a page, `None`
    /// where the index holds no copy, whether the page is crawled now: yes
    /// unless the copy is no older than the recrawl window.
    pub fn should_scrape_url(&self, existing: Option<i64>, now_ms: i64) -> (scrape: bool)
        ensures
            scrape == (freshness_of(existing, now_ms as int, self.window()) != Freshness::Fresh),
    {
        match freshness(existing, now_ms, self.recrawl_window_ms) {
            Freshness::Fresh => false,
            _ => true,
        }
    }

    /// Handles a fetched page whose URL was admitted and whose text the HTML
    /// parser takes, given the crawl time of the copy that the index holds
    /// under the admission's canonical URL. A page whose stored copy is still
    /// fresh is skipped; any other page is extracted, and the writes that
    /// store it delete a stale copy first.
    pub fn scrape(
        &self,
        admission: &Admission,
        url: &str,
        html: &str,
        existing: Option<i64>,
        now_ms: i64,
    ) -> (page: Option<IndexedPage>)
        requires
            fits_parser(html@),
        ensures
            page is Some <==> freshness_of(existing, now_ms as int, self.window())
                != Freshness::Fresh,
            page matches Some(p) ==> {
                &&& p.content@ == extracted_from(admission.extractor@, html@)
                &&& write_views(p.writes@) == write_plan_of(
                    document_of(
                        extracted_from(admission.extractor@, html@),
                        url@,
                        admission.canonical@,
                        admission.domain@,
                        now_ms,
                    ),
                    existing is Some,
                )
                &&& views(p.links@) == links_from(url@, link_texts_of(html@))
            },
    {
        if self.should_scrape_url(existing, now_ms) {
            Some(index_page(admission, url, html, now_ms, existing.is_some()))
        } else {
            None
        }
    }

    /// The whole policy check of `url`, given the crawl time of the copy
    /// that the index holds under the URL's canonical form. A page that is
    /// taken comes with the flag that tells whether it supersedes a stale
    /// copy, which must then be deleted before the new one is inserted.
    pub fn evaluate(&mut self, url: &str, existing: Option<i64>, now_ms: i64) -> (outcome: Result<
        (Admission, bool),
        Rejection,
    >)
        ensures
            policy_view(outcome) == policy_of(
                old(self).states(),
                old(self).allowed(),
                old(self).cap(),
                old(self).window(),
                url@,
                existing,
                now_ms as int,
            ),
            final(self).states() == states_after_check(
                old(self).states(),
                old(self).allowed(),
                url@,
            ),
            final(self).allowed() == old(self).allowed(),
            final(self).cap() == old(self).cap(),
            final(self).window() == old(self).window(),
    {
        match self.check_admission(url) {
            Err(rejection) => Err(rejection),
            Ok(admission) => match freshness(existing, now_ms, self.recrawl_window_ms) {
                Freshness::Absent => Ok((admission, false)),
                Freshness::Stale => Ok((admission, true)),
                Freshness::Fresh => Err(Rejection::RecentlyScraped),
            },
        }
    }

    /// Counts one stored page for `domain`. Called once the writes of a page
    /// are done; a domain without a state is left without one.
    pub fn record_insert(&mut self, domain: &str)
        ensures
            final(self).states() == with_page_counted(old(self).states(), domain@),
            final(self).allowed() == old(self).allowed(),
            final(self).cap() == old(self).cap(),
            final(self).window() == old(self).window(),
    {
        state_count_page(&mut self.states, domain);
    }
}

// ---------------------------------------------------------------------------
// What holds of every crawl run
// ---------------------------------------------------------------------------

/// What happens to the per-domain state during a run.
pub enum CrawlEvent {
    /// The policy checked a URL.
    Checked(Seq<char>),
    /// A page of a domain was stored.
    Inserted(Seq<char>),
}

/// The states after one event.
pub open spec fn states_after_event(
    states: Map<Seq<char>, DomainStateView>,
    allowed: Seq<Seq<char>>,
    event: CrawlEvent,
) -> Map<Seq<char>, DomainStateView> {
    match event {
        CrawlEvent::Checked(url) => states_after_check(states, allowed, url),
        CrawlEvent::Inserted(domain) => with_page_counted(states, domain),
    }
}

/// The states after a sequence of events.
pub open spec fn states_after(
    states: Map<Seq<char>, DomainStateView>,
    allowed: Seq<Seq<char>>,
    events: Seq<CrawlEvent>,
) -> Map<Seq<char>, DomainStateView>
    decreases events.len(),
{
    if events.len() == 0 {
        states
    } else {
        states_after_event(states_after(states, allowed, events.drop_last()), allowed, events.last())
    }
}

/// A page count never falls during a run.
pub proof fn lemma_page_count_never_falls(
    states: Map<Seq<char>, DomainStateView>,
    allowed: Seq<Seq<char>>,
    events: Seq<CrawlEvent>,
    domain: Seq<char>,
)
    ensures
        page_count_in(states_after(states, allowed, events), domain) >= page_count_in(
            states,
            domain,
        ),
    decreases events.len(),
{
    if events.len() > 0 {
        lemma_page_count_never_falls(states, allowed, events.drop_last(), domain);
    }
}

/// Once a domain has counted more pages than the cap, every later policy
/// check of a URL of that domain rejects, whatever was checked or stored in
/// between and whatever the index holds.
pub proof fn lemma_exhausted_domain_stays_rejected(
    states: Map<Seq<char>, DomainStateView>,
    allowed: Seq<Seq<char>>,
    cap: int,
    window: int,
    events: Seq<CrawlEvent>,
    url: Seq<char>,
    existing: Option<i64>,
    now: int,
)
    requires
        parsed_url(url) is Some,
        parsed_url(url).unwrap().domain is Some,
        page_count_in(states, parsed_url(url).unwrap().domain.unwrap()) > cap,
    ensures
        admission_of(states_after(states, allowed, events), allowed, cap, url) is Err,
        policy_of(states_after(states, allowed, events), allowed, cap, window, url, existing, now)
            is Err,
        allowed.contains(parsed_url(url).unwrap().domain.unwrap()) ==> admission_of(
            states_after(states, allowed, events),
            allowed,
            cap,
            url,
        ) == Err::<AdmissionView, Rejection>(Rejection::Exhausted),
{
    lemma_page_count_never_falls(states, allowed, events, parsed_url(url).unwrap().domain.unwrap());
}

/// The recrawl boundary: a copy crawled at `scraped_at` is fresh one
/// millisecond before the window has passed and at the moment it passes, and
/// stale one millisecond after.
pub proof fn lemma_recrawl_boundary(scraped_at: i64, window: int)
    ensures
        freshness_of(Some(scraped_at), scraped_at + window - 1, window) == Freshness::Fresh,
        freshness_of(Some(scraped_at), scraped_at + window, window) == Freshness::Fresh,
        freshness_of(Some(scraped_at), scraped_at + window + 1, window) == Freshness::Stale,
{
}

/// The policy at the recrawl boundary, for a URL that is admitted: one
/// millisecond before the window has passed the check rejects the page as
/// recently scraped; one millisecond after, it takes the page, and the
/// writes of the page delete the old copy before they insert the new one.
pub proof fn lemma_policy_at_recrawl_boundary(
    states: Map<Seq<char>, DomainStateView>,
    allowed: Seq<Seq<char>>,
    cap: int,
    window: int,
    url: Seq<char>,
    scraped_at: i64,
    document: DocumentView,
)
    requires
        admission_of(states, allowed, cap, url) is Ok,
    ensures
        policy_of(states, allowed, cap, window, url, Some(scraped_at), scraped_at + window - 1)
            == Err::<(AdmissionView, bool), Rejection>(Rejection::RecentlyScraped),
        policy_of(states, allowed, cap, window, url, Some(scraped_at), scraped_at + window + 1)
            == Ok::<(AdmissionView, bool), Rejection>(
            (admission_of(states, allowed, cap, url).unwrap(), true),
        ),
        write_plan_of(document, true)[0] == crate::index::WriteActionView::DeleteByUrl(
            document.url,
        ),
        write_plan_of(document, true)[1] == crate::index::WriteActionView::Insert(document),
{
}

/// One crawl of a page on the model of the index: the stored copy is looked
/// up under the document's URL, and the page is written unless the copy is
/// fresh.
pub open spec fn crawl_step(index: IndexModel, document: DocumentView, now: int, window: int)
    -> IndexModel {
    let existing = match find_url(index.visible, document.url) {
        Some(found) => Some(found.scraped_at),
        None => None,
    };
    match freshness_of(existing, now, window) {
        Freshness::Fresh => index,
        Freshness::Absent => apply_writes(index, write_plan_of(document, false)),
        Freshness::Stale => apply_writes(index, write_plan_of(document, true)),
    }
}

/// The index after a sequence of crawls, each of a document at a time.
pub open spec fn crawl_steps(index: IndexModel, crawls: Seq<(DocumentView, int)>, window: int)
    -> IndexModel
    decreases crawls.len(),
{
    if crawls.len() == 0 {
        index
    } else {
        crawl_step(
            crawl_steps(index, crawls.drop_last(), window),
            crawls.last().0,
            crawls.last().1,
            window,
        )
    }
}

/// One crawl keeps the index settled: every write committed, no URL twice.
pub proof fn lemma_crawl_step_keeps_settled(
    index: IndexModel,
    document: DocumentView,
    now: int,
    window: int,
)
    requires
        settled(index),
    ensures
        settled(crawl_step(index, document, now, window)),
{
    let after = crawl_step(index, document, now, window);
    lemma_find_url(index.visible, document.url);
    assert forall|key: Seq<char>| count_url(after.live, key) <= 1 by {
        assert(count_url(index.live, key) <= 1);
        lemma_write_plan_effect(index, document, false, key);
        lemma_write_plan_effect(index, document, true, key);
    }
    lemma_write_plan_effect(index, document, false, document.url);
    lemma_write_plan_effect(index, document, true, document.url);
}

/// After any sequence of crawls on a settled index, a lookup by any URL
/// finds at most one document.
pub proof fn lemma_at_most_one_live_document(
    index: IndexModel,
    crawls: Seq<(DocumentView, int)>,
    window: int,
    key: Seq<char>,
)
    requires
        settled(index),
    ensures
        settled(crawl_steps(index, crawls, window)),
        count_url(crawl_steps(index, crawls, window).visible, key) <= 1,
    decreases crawls.len(),
{
    if crawls.len() > 0 {
        lemma_at_most_one_live_document(index, crawls.drop_last(), window, key);
        lemma_crawl_step_keeps_settled(
            crawl_steps(index, crawls.drop_last(), window),
            crawls.last().0,
            crawls.last().1,
            window,
        );
    }
    assert(count_url(crawl_steps(index, crawls, window).live, key) <= 1);
}

/// Starting from the empty index, after any sequence of crawls a lookup by
/// any URL finds at most one document.
pub proof fn lemma_at_most_one_from_empty_index(
    crawls: Seq<(DocumentView, int)>,
    window: int,
    key: Seq<char>,
)
    ensures
        count_url(
            crawl_steps(
                IndexModel { live: Seq::empty(), visible: Seq::empty() },
                crawls,
                window,
            ).visible,
            key,
        ) <= 1,
{
    let empty = IndexModel { live: Seq::empty(), visible: Seq::empty() };
    assert forall|k: Seq<char>| count_url(empty.live, k) <= 1 by {}
    lemma_at_most_one_live_document(empty, crawls, window, key);
}

} // verus!
