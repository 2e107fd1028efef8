//! The read side: ranked search results, page counts per site, and the
//! paginated list of crawled URLs.
//!
//! The index is read by the driver. It hands the library what it read, or
//! the failure to read, and the library shapes the answer: it validates the
//! query, ranks and truncates the hits, and materialises each hit with its
//! snippet and heading.

use crate::index::{Document, DocumentView};
use crate::ranking::{lemma_ranking_of, positions, rank_order, ranking_of};
use crate::snippet::{generate_heading, generate_snippet, heading_of, snippet_of};
use crate::text::{is_blank, is_blank_text, lines_of, split_lines, views};
use crate::urls::text_view;
use vstd::prelude::*;

verus! {

/// Why a read operation gives no answer.
#[derive(Clone, Copy, Debug, PartialEq, Eq, Structural)]
pub enum SearchError {
    /// The query is empty once surrounding whitespace is removed.
    EmptyQuery,
    /// The index could not be opened or read.
    IndexUnavailable,
}

/// The driver's report that the index could not be opened or read.
#[derive(Debug)]
pub struct IndexFailure {
    /// What the index said.
    pub message: String,
}

/// A field of the index that queries are matched against.
#[derive(Clone, Copy, Debug, PartialEq, Eq, Structural)]
pub enum SearchField {
    Title,
    Content,
    Headings,
    CodeBlocks,
    ApiItems,
}

/// The relevance boost of a field, in tenths: the title counts three times,
/// API items two and a half times, headings and code blocks twice, and the
/// content once.
pub open spec fn boost_tenths_of(field: SearchField) -> u32 {
    match field {
        SearchField::Title => 30,
        SearchField::Content => 10,
        SearchField::Headings => 20,
        SearchField::CodeBlocks => 20,
        SearchField::ApiItems => 25,
    }
}

/// The name of a field in the index schema.
pub open spec fn field_name_of(field: SearchField) -> Seq<char> {
    match field {
        SearchField::Title => "title"@,
        SearchField::Content => "content"@,
        SearchField::Headings => "headings"@,
        SearchField::CodeBlocks => "code_blocks"@,
        SearchField::ApiItems => "api_items"@,
    }
}

impl SearchField {
    /// The relevance boost of the field, in tenths.
    pub fn boost_tenths(&self) -> (boost: u32)
        ensures
            boost == boost_tenths_of(*self),
    {
        match self {
            SearchField::Title => 30,
            SearchField::Content => 10,
            SearchField::Headings => 20,
            SearchField::CodeBlocks => 20,
            SearchField::ApiItems => 25,
        }
    }

    /// The name of the field in the index schema.
    pub fn name(&self) -> (name: &'static str)
        ensures
            name@ == field_name_of(*self),
    {
        match self {
            SearchField::Title => "title",
            SearchField::Content => "content",
            SearchField::Headings => "headings",
            SearchField::CodeBlocks => "code_blocks",
            SearchField::ApiItems => "api_items",
        }
    }
}

/// No field is boosted below the plain content, and none above the title.
pub proof fn lemma_boost_bounds(field: SearchField)
    ensures
        boost_tenths_of(SearchField::Content) <= boost_tenths_of(field) <= boost_tenths_of(
            SearchField::Title,
        ),
{
}

/// One hit of a query, as the index returned it.
#[derive(Debug)]
pub struct IndexHit {
    /// The integer that stands for the relevance score: the bit pattern of
    /// the non-negative score, whose order is the order of the scores.
    pub score_bits: u32,
    /// The stored document.
    pub document: Document,
}

/// The mathematical content of an [`IndexHit`].
pub struct IndexHitView {
    pub score_bits: u32,
    pub document: DocumentView,
}

impl View for IndexHit {
    type V = IndexHitView;

    open spec fn view(&self) -> IndexHitView {
        IndexHitView { score_bits: self.score_bits, document: self.document@ }
    }
}

/// The views of a sequence of hits.
pub open spec fn hit_views(hits: Seq<IndexHit>) -> Seq<IndexHitView> {
    Seq::new(hits.len(), |i: int| hits[i]@)
}

/// One search result.
#[derive(Debug, Clone)]
pub struct SearchResult {
    pub title: String,
    pub url: String,
    /// The excerpt of the content that matches the query best.
    pub content_snippet: String,
    /// The heading that matches the query best, or empty.
    pub heading: String,
    /// The integer that stands for the relevance score.
    pub score_bits: u32,
    /// The API items of the page, one per entry.
    pub api_items: Vec<String>,
    pub scraped_at: i64,
}

/// The mathematical content of a [`SearchResult`].
pub struct SearchResultView {
    pub title: Seq<char>,
    pub url: Seq<char>,
    pub content_snippet: Seq<char>,
    pub heading: Seq<char>,
    pub score_bits: u32,
    pub api_items: Seq<Seq<char>>,
    pub scraped_at: i64,
}

impl View for SearchResult {
    type V = SearchResultView;

    open spec fn view(&self) -> SearchResultView {
        SearchResultView {
            title: self.title@,
            url: self.url@,
            content_snippet: self.content_snippet@,
            heading: self.heading@,
            score_bits: self.score_bits,
            api_items: views(self.api_items@),
            scraped_at: self.scraped_at,
        }
    }
}

/// The views of a sequence of results.
pub open spec fn result_views(results: Seq<SearchResult>) -> Seq<SearchResultView> {
    Seq::new(results.len(), |i: int| results[i]@)
}

/// What the index holds of one page, as far as listings need it.
#[derive(Debug)]
pub struct StoredPage {
    pub url: String,
    pub domain: String,
}

/// The mathematical content of a [`StoredPage`].
pub struct StoredPageView {
    pub url: Seq<char>,
    pub domain: Seq<char>,
}

impl View for StoredPage {
    type V = StoredPageView;

    open spec fn view(&self) -> StoredPageView {
        StoredPageView { url: self.url@, domain: self.domain@ }
    }
}

/// The views of a sequence of stored pages.
pub open spec fn page_views(pages: Seq<StoredPage>) -> Seq<StoredPageView> {
    Seq::new(pages.len(), |i: int| pages[i]@)
}

/// One page of the list of crawled URLs, with the size of the whole list.
#[derive(Debug, Clone)]
pub struct GetCrawledUrlsResult {
    pub urls: Vec<String>,
    pub total: usize,
}

// ---------------------------------------------------------------------------
// Search
// ---------------------------------------------------------------------------

/// The result that a hit is materialised into for `query`.
pub open spec fn result_of(hit: IndexHitView, query: Seq<char>) -> SearchResultView {
    SearchResultView {
        title: hit.document.title,
        url: hit.document.url,
        content_snippet: snippet_of(hit.document.content, query),
        heading: heading_of(hit.document.headings, query),
        score_bits: hit.score_bits,
        api_items: lines_of(hit.document.api_items),
        scraped_at: hit.document.scraped_at,
    }
}

/// The scores of a sequence of hits.
pub open spec fn hit_scores(hits: Seq<IndexHitView>) -> Seq<u32> {
    Seq::new(hits.len(), |i: int| hits[i].score_bits)
}

/// The number of results for `limit` and a number of hits.
pub open spec fn result_count(hits: nat, limit: nat) -> nat {
    if hits <= limit {
        hits
    } else {
        limit
    }
}

/// The results of a query: the hits in ranking order, cut to `limit`, each
/// materialised for the query.
pub open spec fn results_of(hits: Seq<IndexHitView>, query: Seq<char>, limit: nat) -> Seq<
    SearchResultView,
> {
    Seq::new(
        result_count(hits.len(), limit),
        |k: int| result_of(hits[ranking_of(hit_scores(hits))[k]], query),
    )
}

/// The outcome of a search: a blank query is rejected whatever the index
/// said; otherwise a failure of the index is passed on; otherwise the hits
/// give the results.
pub open spec fn search_outcome(
    query: Seq<char>,
    limit: nat,
    reply: Result<Seq<IndexHitView>, ()>,
) -> Result<Seq<SearchResultView>, SearchError> {
    if is_blank_text(query) {
        Err(SearchError::EmptyQuery)
    } else {
        match reply {
            Err(_) => Err(SearchError::IndexUnavailable),
            Ok(hits) => Ok(results_of(hits, query, limit)),
        }
    }
}

/// Materialises one hit for `query`.
pub fn materialize(hit: &IndexHit, query: &str) -> (result: SearchResult)
    ensures
        result@ == result_of(hit@, query@),
{
    SearchResult {
        title: hit.document.title.clone(),
        url: hit.document.url.clone(),
        content_snippet: generate_snippet(hit.document.content.as_str(), query),
        heading: generate_heading(hit.document.headings.as_str(), query),
        score_bits: hit.score_bits,
        api_items: split_lines(hit.document.api_items.as_str()),
        scraped_at: hit.document.scraped_at,
    }
}

/// Ranks `hits` by descending score, keeps the best `limit`, and
/// materialises each for `query`.
pub fn rank_hits(hits: &Vec<IndexHit>, query: &str, limit: usize) -> (results: Vec<SearchResult>)
    ensures
        result_views(results@) == results_of(hit_views(hits@), query@, limit as nat),
{
    let mut scores: Vec<u32> = Vec::new();
    let mut i: usize = 0;
    while i < hits.len()
        invariant
            i <= hits.len(),
            scores@ == hit_scores(hit_views(hits@)).take(i as int),
        decreases hits.len() - i,
    {
        proof {
            assert(scores@.push(hits@[i as int].score_bits) =~= hit_scores(hit_views(hits@)).take(
                i + 1,
            ));
        }
        scores.push(hits[i].score_bits);
        i += 1;
    }
    assert(scores@ =~= hit_scores(hit_views(hits@)));
    let order = rank_order(&scores);
    proof {
        lemma_ranking_of(scores@);
    }
    let count = if hits.len() <= limit {
        hits.len()
    } else {
        limit
    };
    let mut results: Vec<SearchResult> = Vec::new();
    let mut k: usize = 0;
    while k < count
        invariant
            k <= count <= hits.len(),
            order.len() == hits.len(),
            count == result_count(hits.len() as nat, limit as nat),
            positions(order@) == ranking_of(hit_scores(hit_views(hits@))),
            forall|j: int| 0 <= j < order.len() ==> 0 <= #[trigger] positions(order@)[j] < hits.len(),
            result_views(results@) == results_of(hit_views(hits@), query@, limit as nat).take(
                k as int,
            ),
        decreases count - k,
    {
        assert(positions(order@)[k as int] == order@[k as int]);
        let result = materialize(&hits[order[k]], query);
        proof {
            let all = results_of(hit_views(hits@), query@, limit as nat);
            assert(hit_views(hits@)[order@[k as int] as int] == hits@[order@[k as int] as int]@);
            assert(all[k as int] == result@);
            assert(result_views(results@.push(result)) =~= result_views(results@).push(result@));
            assert(all.take(k as int).push(all[k as int]) =~= all.take(k + 1));
        }
        results.push(result);
        k += 1;
    }
    assert(result_views(results@) =~= results_of(hit_views(hits@), query@, limit as nat));
    results
}

/// The mathematical content of what the driver read for a query.
pub open spec fn hits_reply_view(reply: Result<Vec<IndexHit>, IndexFailure>) -> Result<
    Seq<IndexHitView>,
    (),
> {
    match reply {
        Ok(hits) => Ok(hit_views(hits@)),
        Err(_) => Err(()),
    }
}

/// The mathematical content of a search outcome.
pub open spec fn results_outcome_view(outcome: Result<Vec<SearchResult>, SearchError>) -> Result<
    Seq<SearchResultView>,
    SearchError,
> {
    match outcome {
        Ok(results) => Ok(result_views(results@)),
        Err(e) => Err(e),
    }
}

/// The results of a query are in descending order of score, and there are
/// no more of them than the limit and than the hits.
pub proof fn lemma_results_descend(hits: Seq<IndexHitView>, query: Seq<char>, limit: nat)
    ensures
        results_of(hits, query, limit).len() <= limit,
        results_of(hits, query, limit).len() <= hits.len(),
        forall|k1: int, k2: int|
            0 <= k1 < k2 < results_of(hits, query, limit).len() ==> (#[trigger] results_of(
                hits,
                query,
                limit,
            )[k1]).score_bits >= (#[trigger] results_of(hits, query, limit)[k2]).score_bits,
{
    let scores = hit_scores(hits);
    lemma_ranking_of(scores);
    let order = ranking_of(scores);
    let results = results_of(hits, query, limit);
    assert forall|k1: int, k2: int| 0 <= k1 < k2 < results.len() implies (
    #[trigger] results[k1]).score_bits >= (#[trigger] results[k2]).score_bits by {
        assert(0 <= order[k1] < hits.len());
        assert(0 <= order[k2] < hits.len());
        assert(scores[order[k1]] >= scores[order[k2]]);
    }
}

/// Hits that the index returned in descending order of score keep their
/// order: the results are the first hits, each materialised.
pub proof fn lemma_ranked_hits_keep_order(hits: Seq<IndexHitView>, query: Seq<char>, limit: nat)
    requires
        forall|k1: int, k2: int|
            0 <= k1 < k2 < hits.len() ==> hits[k1].score_bits >= hits[k2].score_bits,
    ensures
        results_of(hits, query, limit) == Seq::new(
            result_count(hits.len(), limit),
            |k: int| result_of(hits[k], query),
        ),
{
    let scores = hit_scores(hits);
    crate::ranking::lemma_ranking_of_ranked(scores, scores.len());
    assert(results_of(hits, query, limit) =~= Seq::new(
        result_count(hits.len(), limit),
        |k: int| result_of(hits[k], query),
    ));
}

// ---------------------------------------------------------------------------
// Listings
// ---------------------------------------------------------------------------

/// How many of `pages` belong to `domain`.
pub open spec fn count_domain(pages: Seq<StoredPageView>, domain: Seq<char>) -> nat
    decreases pages.len(),
{
    if pages.len() == 0 {
        0
    } else {
        count_domain(pages.drop_last(), domain) + if pages.last().domain == domain {
            1nat
        } else {
            0nat
        }
    }
}

/// The count of pages of each of `sites`, in the order of `sites`.
pub open spec fn pages_per_site_of(sites: Seq<Seq<char>>, pages: Seq<StoredPageView>) -> Seq<
    (Seq<char>, nat),
> {
    Seq::new(sites.len(), |i: int| (sites[i], count_domain(pages, sites[i])))
}

/// The view of a list of site counts.
pub open spec fn site_count_views(counts: Seq<(String, usize)>) -> Seq<(Seq<char>, nat)> {
    Seq::new(counts.len(), |i: int| (counts[i].0@, counts[i].1 as nat))
}

/// The URLs of the pages that match the optional domain filter, in index
/// order. Without a filter every page matches.
pub open spec fn matching_urls(pages: Seq<StoredPageView>, domain: Option<Seq<char>>) -> Seq<
    Seq<char>,
>
    decreases pages.len(),
{
    if pages.len() == 0 {
        Seq::empty()
    } else {
        let before = matching_urls(pages.drop_last(), domain);
        let matches = match domain {
            Some(d) => pages.last().domain == d,
            None => true,
        };
        if matches {
            before.push(pages.last().url)
        } else {
            before
        }
    }
}

/// The page of `urls` that skips `offset` entries and takes up to `limit`.
pub open spec fn url_page(urls: Seq<Seq<char>>, limit: nat, offset: nat) -> Seq<Seq<char>> {
    let from = if offset <= urls.len() {
        offset
    } else {
        urls.len()
    };
    let to = if from + limit <= urls.len() {
        from + limit
    } else {
        urls.len()
    };
    urls.subrange(from as int, to as int)
}

/// The mathematical content of what the driver read of the stored pages.
pub open spec fn pages_reply_view(reply: Result<Vec<StoredPage>, IndexFailure>) -> Result<
    Seq<StoredPageView>,
    (),
> {
    match reply {
        Ok(pages) => Ok(page_views(pages@)),
        Err(_) => Err(()),
    }
}

/// Counts the `pages` that belong to `domain`.
pub fn count_pages_of(pages: &Vec<StoredPage>, domain: &str) -> (count: usize)
    ensures
        count == count_domain(page_views(pages@), domain@),
{
    let wanted = domain.to_owned();
    let mut count: usize = 0;
    let mut i: usize = 0;
    assert(page_views(pages@).take(0) =~= Seq::empty());
    while i < pages.len()
        invariant
            i <= pages.len(),
            wanted@ == domain@,
            count <= i,
            count == count_domain(page_views(pages@).take(i as int), domain@),
        decreases pages.len() - i,
    {
        proof {
            let next = page_views(pages@).take(i + 1);
            assert(next.drop_last() =~= page_views(pages@).take(i as int));
            assert(next.last() == pages@[i as int]@);
        }
        if pages[i].domain == wanted {
            count += 1;
        }
        i += 1;
    }
    assert(page_views(pages@).take(pages.len() as int) =~= page_views(pages@));
    count
}

/// Lists the URLs of the `pages` that match the optional domain filter.
pub fn urls_matching(pages: &Vec<StoredPage>, domain: &Option<String>) -> (urls: Vec<String>)
    ensures
        views(urls@) == matching_urls(page_views(pages@), text_view(*domain)),
{
    let mut urls: Vec<String> = Vec::new();
    let mut i: usize = 0;
    assert(page_views(pages@).take(0) =~= Seq::empty());
    assert(views(urls@) =~= Seq::<Seq<char>>::empty());
    while i < pages.len()
        invariant
            i <= pages.len(),
            views(urls@) == matching_urls(
                page_views(pages@).take(i as int),
                text_view(*domain),
            ),
        decreases pages.len() - i,
    {
        proof {
            let next = page_views(pages@).take(i + 1);
            assert(next.drop_last() =~= page_views(pages@).take(i as int));
            assert(next.last() == pages@[i as int]@);
        }
        let matches = match domain {
            Some(d) => pages[i].domain == *d,
            None => true,
        };
        if matches {
            let url = pages[i].url.clone();
            proof {
                assert(views(urls@.push(url)) =~= views(urls@).push(url@));
            }
            urls.push(url);
        }
        i += 1;
    }
    assert(page_views(pages@).take(pages.len() as int) =~= page_views(pages@));
    urls
}

/// Cuts the page out of `urls` that skips `offset` entries and takes up to
/// `limit`.
pub fn paginate(urls: &Vec<String>, limit: usize, offset: usize) -> (page: Vec<String>)
    ensures
        views(page@) == url_page(views(urls@), limit as nat, offset as nat),
{
    let from = if offset <= urls.len() {
        offset
    } else {
        urls.len()
    };
    let to = if limit <= urls.len() - from {
        from + limit
    } else {
        urls.len()
    };
    let mut page: Vec<String> = Vec::new();
    let mut i: usize = from;
    assert(views(page@) =~= views(urls@).subrange(from as int, from as int));
    while i < to
        invariant
            from <= i <= to <= urls.len(),
            views(page@) == views(urls@).subrange(from as int, i as int),
        decreases to - i,
    {
        let url = urls[i].clone();
        proof {
            let all = views(urls@);
            assert(views(page@.push(url)) =~= views(page@).push(url@));
            assert(all.subrange(from as int, i as int).push(all[i as int]) =~= all.subrange(
                from as int,
                i + 1,
            ));
        }
        page.push(url);
        i += 1;
    }
    page
}

/// Two neighbouring pages of a list are the one page of twice the size:
/// nothing is listed twice and nothing is left out between them.
pub proof fn lemma_neighbouring_pages(urls: Seq<Seq<char>>, limit: nat, offset: nat)
    ensures
        url_page(urls, limit, offset) + url_page(urls, limit, offset + limit) == url_page(
            urls,
            2 * limit,
            offset,
        ),
{
    assert(url_page(urls, limit, offset) + url_page(urls, limit, offset + limit) =~= url_page(
        urls,
        2 * limit,
        offset,
    ));
}

/// Where no URL is listed twice, two neighbouring pages share no URL.
pub proof fn lemma_neighbouring_pages_disjoint(
    urls: Seq<Seq<char>>,
    limit: nat,
    offset: nat,
    url: Seq<char>,
)
    requires
        forall|i: int, j: int| 0 <= i < j < urls.len() ==> urls[i] != urls[j],
    ensures
        !(url_page(urls, limit, offset).contains(url) && url_page(
            urls,
            limit,
            offset + limit,
        ).contains(url)),
{
    let first = url_page(urls, limit, offset);
    let second = url_page(urls, limit, offset + limit);
    if first.contains(url) && second.contains(url) {
        let i = choose|i: int| 0 <= i < first.len() && first[i] == url;
        let j = choose|j: int| 0 <= j < second.len() && second[j] == url;
        assert(urls[offset + i] == url);
        assert(urls[offset + limit + j] == url);
    }
}

/// With at least four URLs, the first two pages of size two are the first
/// four URLs in index order.
pub proof fn lemma_first_two_pages(urls: Seq<Seq<char>>)
    requires
        urls.len() >= 4,
    ensures
        url_page(urls, 2, 0) + url_page(urls, 2, 2) == urls.take(4),
        url_page(urls, 2, 0).len() == 2,
        url_page(urls, 2, 2).len() == 2,
{
    assert(url_page(urls, 2, 0) + url_page(urls, 2, 2) =~= urls.take(4));
}

// ---------------------------------------------------------------------------
// The searcher
// ---------------------------------------------------------------------------

/// The configuration of the read side: where the index lies, which sites
/// are reported, and which fields queries are matched against.
#[derive(Debug)]
pub struct DocSearcher {
    index_path: String,
    sites: Vec<String>,
    fields: Vec<SearchField>,
}

/// True when the schema has a field of the given name.
pub open spec fn has_field(schema: Seq<Seq<char>>, name: Seq<char>) -> bool {
    schema.contains(name)
}

/// The schema has every field that a stored document is read through.
pub open spec fn schema_usable(schema: Seq<Seq<char>>) -> bool {
    &&& has_field(schema, "title"@)
    &&& has_field(schema, "content"@)
    &&& has_field(schema, "url"@)
    &&& has_field(schema, "domain"@)
    &&& has_field(schema, "headings"@)
    &&& has_field(schema, "scraped_at"@)
}

/// The fields that queries are matched against: title, content and
/// headings, then code blocks and API items where the schema has them.
pub open spec fn query_fields_of(schema: Seq<Seq<char>>) -> Seq<SearchField> {
    seq![SearchField::Title, SearchField::Content, SearchField::Headings] + if has_field(
        schema,
        "code_blocks"@,
    ) {
        seq![SearchField::CodeBlocks]
    } else {
        Seq::empty()
    } + if has_field(schema, "api_items"@) {
        seq![SearchField::ApiItems]
    } else {
        Seq::empty()
    }
}

/// The mathematical content of what the driver read of the schema.
pub open spec fn schema_reply_view(reply: Result<Vec<String>, IndexFailure>) -> Result<
    Seq<Seq<char>>,
    (),
> {
    match reply {
        Ok(names) => Ok(views(names@)),
        Err(_) => Err(()),
    }
}

/// Tells whether `names` holds `name`.
pub fn contains_name(names: &Vec<String>, name: &str) -> (found: bool)
    ensures
        found == views(names@).contains(name@),
{
    let wanted = name.to_owned();
    let mut i: usize = 0;
    while i < names.len()
        invariant
            i <= names.len(),
            wanted@ == name@,
            forall|j: int| 0 <= j < i ==> views(names@)[j] != name@,
        decreases names.len() - i,
    {
        if names[i] == wanted {
            assert(views(names@)[i as int] == name@);
            return true;
        }
        i += 1;
    }
    false
}

impl DocSearcher {
    /// The path of the index directory.
    pub closed spec fn path(&self) -> Seq<char> {
        self.index_path@
    }

    /// The sites that are reported, in configured order.
    pub closed spec fn site_list(&self) -> Seq<Seq<char>> {
        views(self.sites@)
    }

    /// The fields that queries are matched against.
    pub closed spec fn query_fields(&self) -> Seq<SearchField> {
        self.fields@
    }

    /// Sets up the read side for the index at `index_path`, reporting on
    /// `sites`, from the field names of the schema that the driver found
    /// there. Fails with `IndexUnavailable` when the index could not be
    /// opened or its schema lacks a field that documents are read through.
    pub fn new(index_path: String, sites: Vec<String>, schema: Result<Vec<String>, IndexFailure>)
        -> (searcher: Result<Self, SearchError>)
        ensures
            match searcher {
                Ok(s) => {
                    &&& schema_reply_view(schema) is Ok
                    &&& schema_usable(schema_reply_view(schema).unwrap())
                    &&& s.path() == index_path@
                    &&& s.site_list() == views(sites@)
                    &&& s.query_fields() == query_fields_of(schema_reply_view(schema).unwrap())
                },
                Err(e) => {
                    &&& e == SearchError::IndexUnavailable
                    &&& !(schema_reply_view(schema) is Ok && schema_usable(
                        schema_reply_view(schema).unwrap(),
                    ))
                },
            },
    {
        let names = match schema {
            Ok(names) => names,
            Err(_) => {
                return Err(SearchError::IndexUnavailable);
            },
        };
        let usable = contains_name(&names, "title") && contains_name(&names, "content")
            && contains_name(&names, "url") && contains_name(&names, "domain") && contains_name(
            &names,
            "headings",
        ) && contains_name(&names, "scraped_at");
        if !usable {
            return Err(SearchError::IndexUnavailable);
        }
        let mut fields: Vec<SearchField> = Vec::new();
        fields.push(SearchField::Title);
        fields.push(SearchField::Content);
        fields.push(SearchField::Headings);
        if contains_name(&names, "code_blocks") {
            fields.push(SearchField::CodeBlocks);
        }
        if contains_name(&names, "api_items") {
            fields.push(SearchField::ApiItems);
        }
        assert(fields@ =~= query_fields_of(views(names@)));
        Ok(DocSearcher { index_path, sites, fields })
    }

    /// The path of the index directory.
    pub fn index_path(&self) -> (path: &String)
        ensures
            path@ == self.path(),
    {
        &self.index_path
    }

    /// The sites that are reported.
    pub fn sites(&self) -> (sites: &Vec<String>)
        ensures
            views(sites@) == self.site_list(),
    {
        &self.sites
    }

    /// The fields that queries are matched against.
    pub fn fields(&self) -> (fields: &Vec<SearchField>)
        ensures
            fields@ == self.query_fields(),
    {
        &self.fields
    }

    /// Answers a query from the hits that the index returned for it. A query
    /// that is blank is rejected with `EmptyQuery` before the reply is
    /// looked at; a failed read gives `IndexUnavailable`; otherwise the hits
    /// are ranked by descending score, cut to `limit`, and materialised.
    pub fn search(&self, query_str: &str, limit: usize, reply: Result<Vec<IndexHit>, IndexFailure>)
        -> (outcome: Result<Vec<SearchResult>, SearchError>)
        ensures
            results_outcome_view(outcome) == search_outcome(
                query_str@,
                limit as nat,
                hits_reply_view(reply),
            ),
    {
        if is_blank(query_str) {
            return Err(SearchError::EmptyQuery);
        }
        match reply {
            Err(_) => Err(SearchError::IndexUnavailable),
            Ok(hits) => Ok(rank_hits(&hits, query_str, limit)),
        }
    }

    /// Counts the stored pages of each configured site, in configured order;
    /// a site without pages is reported with zero. A failed read gives
    /// `IndexUnavailable`.
    pub fn get_pages_per_site(&self, reply: Result<Vec<StoredPage>, IndexFailure>) -> (outcome:
        Result<Vec<(String, usize)>, SearchError>)
        ensures
            match outcome {
                Ok(counts) => pages_reply_view(reply) is Ok && site_count_views(counts@)
                    == pages_per_site_of(self.site_list(), pages_reply_view(reply).unwrap()),
                Err(e) => e == SearchError::IndexUnavailable && pages_reply_view(reply) is Err,
            },
    {
        let pages = match reply {
            Ok(pages) => pages,
            Err(_) => {
                return Err(SearchError::IndexUnavailable);
            },
        };
        let mut counts: Vec<(String, usize)> = Vec::new();
        let mut i: usize = 0;
        while i < self.sites.len()
            invariant
                i <= self.sites.len(),
                site_count_views(counts@) == pages_per_site_of(
                    self.site_list(),
                    page_views(pages@),
                ).take(i as int),
            decreases self.sites.len() - i,
        {
            let count = count_pages_of(&pages, self.sites[i].as_str());
            let entry = (self.sites[i].clone(), count);
            proof {
                let all = pages_per_site_of(self.site_list(), page_views(pages@));
                assert(all[i as int] == (entry.0@, entry.1 as nat));
                assert(site_count_views(counts@.push(entry)) =~= site_count_views(counts@).push(
                    (entry.0@, entry.1 as nat),
                ));
                assert(all.take(i as int).push(all[i as int]) =~= all.take(i + 1));
            }
            counts.push(entry);
            i += 1;
        }
        assert(site_count_views(counts@) =~= pages_per_site_of(
            self.site_list(),
            page_views(pages@),
        ));
        Ok(counts)
    }

    /// Lists the URLs of the stored pages, of one domain if `domain` is
    /// given, in index order: the page that skips `offset` URLs and takes up
    /// to `limit`, with the number of all matching URLs. A failed read gives
    /// `IndexUnavailable`.
    pub fn get_crawled_urls(
        &self,
        domain: Option<String>,
        limit: usize,
        offset: usize,
        reply: Result<Vec<StoredPage>, IndexFailure>,
    ) -> (outcome: Result<GetCrawledUrlsResult, SearchError>)
        ensures
            match outcome {
                Ok(listing) => {
                    &&& pages_reply_view(reply) is Ok
                    &&& views(listing.urls@) == url_page(
                        matching_urls(pages_reply_view(reply).unwrap(), text_view(domain)),
                        limit as nat,
                        offset as nat,
                    )
                    &&& listing.total == matching_urls(
                        pages_reply_view(reply).unwrap(),
                        text_view(domain),
                    ).len()
                },
                Err(e) => e == SearchError::IndexUnavailable && pages_reply_view(reply) is Err,
            },
    {
        let pages = match reply {
            Ok(pages) => pages,
            Err(_) => {
                return Err(SearchError::IndexUnavailable);
            },
        };
        let matching = urls_matching(&pages, &domain);
        let urls = paginate(&matching, limit, offset);
        Ok(GetCrawledUrlsResult { urls, total: matching.len() })
    }
}

} // verus!
