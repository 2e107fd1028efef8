//! The shapes of the HTTP interface and the rules that fill them: request
//! defaults, query validation, the status of each error, and the responses
//! built from what the searcher returned.
//!
//! Routing, serialisation and the handlers themselves belong to the driver.

use crate::searcher::{GetCrawledUrlsResult, SearchError};
use crate::text::{is_blank, is_blank_text, views};
use vstd::prelude::*;
use vstd::string::StringExecFns;

verus! {

/// Results returned where a request names no limit.
pub const DEFAULT_LIMIT: usize = 10;

/// Results skipped where a request names no offset.
pub const DEFAULT_OFFSET: usize = 0;

/// The status of a request that the client got wrong.
pub const STATUS_BAD_REQUEST: u16 = 400;

/// The status of a request that the server could not serve.
pub const STATUS_INTERNAL_SERVER_ERROR: u16 = 500;

/// The state shared by the handlers. It holds nothing: every handler opens
/// the index by itself.
#[derive(Clone, Copy, Debug, PartialEq, Eq, Structural)]
pub struct ApiState {
}

/// Why a request is answered with an error.
#[derive(Debug)]
pub enum ApiError {
    /// The search could not be carried out.
    SearchError(String),
    /// The query is not acceptable.
    QueryError(String),
    /// Anything else; the cause is not shown to the client.
    Internal(String),
}

/// The mathematical content of an [`ApiError`].
pub enum ApiErrorView {
    SearchError(Seq<char>),
    QueryError(Seq<char>),
    Internal(Seq<char>),
}

impl View for ApiError {
    type V = ApiErrorView;

    open spec fn view(&self) -> ApiErrorView {
        match self {
            ApiError::SearchError(cause) => ApiErrorView::SearchError(cause@),
            ApiError::QueryError(cause) => ApiErrorView::QueryError(cause@),
            ApiError::Internal(cause) => ApiErrorView::Internal(cause@),
        }
    }
}

/// The status that an error is answered with: a bad query is the client's
/// fault, everything else the server's.
pub open spec fn status_of(error: ApiErrorView) -> u16 {
    match error {
        ApiErrorView::QueryError(_) => STATUS_BAD_REQUEST,
        ApiErrorView::SearchError(_) => STATUS_INTERNAL_SERVER_ERROR,
        ApiErrorView::Internal(_) => STATUS_INTERNAL_SERVER_ERROR,
    }
}

/// The message shown to the client: the cause of a search or query error,
/// and a fixed text for an internal error.
pub open spec fn message_of(error: ApiErrorView) -> Seq<char> {
    match error {
        ApiErrorView::SearchError(cause) => cause,
        ApiErrorView::QueryError(cause) => cause,
        ApiErrorView::Internal(_) => "Internal server error"@,
    }
}

/// The description of an error for logs.
pub open spec fn description_of(error: ApiErrorView) -> Seq<char> {
    match error {
        ApiErrorView::SearchError(cause) => "Search error: "@ + cause,
        ApiErrorView::QueryError(cause) => "Invalid query: "@ + cause,
        ApiErrorView::Internal(_) => "Internal server error"@,
    }
}

/// The error that a failed read operation is answered with.
pub open spec fn api_error_of(error: SearchError) -> ApiErrorView {
    match error {
        SearchError::EmptyQuery => ApiErrorView::QueryError("Query cannot be empty"@),
        SearchError::IndexUnavailable => ApiErrorView::SearchError("Index unavailable"@),
    }
}

impl ApiError {
    /// The HTTP status of the error.
    pub fn status_code(&self) -> (status: u16)
        ensures
            status == status_of(self@),
    {
        match self {
            ApiError::QueryError(_) => STATUS_BAD_REQUEST,
            ApiError::SearchError(_) => STATUS_INTERNAL_SERVER_ERROR,
            ApiError::Internal(_) => STATUS_INTERNAL_SERVER_ERROR,
        }
    }

    /// The message shown to the client.
    pub fn message(&self) -> (message: String)
        ensures
            message@ == message_of(self@),
    {
        match self {
            ApiError::SearchError(cause) => cause.clone(),
            ApiError::QueryError(cause) => cause.clone(),
            ApiError::Internal(_) => "Internal server error".to_owned(),
        }
    }

    /// The description of the error for logs.
    pub fn describe(&self) -> (description: String)
        ensures
            description@ == description_of(self@),
    {
        match self {
            ApiError::SearchError(cause) => {
                let mut text = "Search error: ".to_owned();
                text.append(cause.as_str());
                text
            },
            ApiError::QueryError(cause) => {
                let mut text = "Invalid query: ".to_owned();
                text.append(cause.as_str());
                text
            },
            ApiError::Internal(_) => "Internal server error".to_owned(),
        }
    }

    /// Turns the failure of a read operation into the error that answers
    /// the request.
    pub fn from_search_error(error: SearchError) -> (api_error: Self)
        ensures
            api_error@ == api_error_of(error),
    {
        match error {
            SearchError::EmptyQuery => ApiError::QueryError("Query cannot be empty".to_owned()),
            SearchError::IndexUnavailable => ApiError::SearchError("Index unavailable".to_owned()),
        }
    }
}

/// The parameters of a search request.
#[derive(Debug)]
pub struct SearchQuery {
    pub q: String,
}

/// Accepts a search request unless its query is blank.
pub fn validate_query(query: &SearchQuery) -> (outcome: Result<(), ApiError>)
    ensures
        match outcome {
            Ok(_) => !is_blank_text(query.q@),
            Err(e) => is_blank_text(query.q@) && e@ == api_error_of(SearchError::EmptyQuery),
        },
{
    if is_blank(query.q.as_str()) {
        Err(ApiError::from_search_error(SearchError::EmptyQuery))
    } else {
        Ok(())
    }
}

/// One search result as it is sent to the client.
#[derive(Debug)]
pub struct SearchResult {
    pub title: String,
    pub heading: String,
    pub url: String,
    pub snippet: String,
    /// The integer that stands for the relevance score.
    pub score_bits: u32,
    pub scraped_at: i64,
}

/// The mathematical content of a [`SearchResult`].
pub struct SearchResultView {
    pub title: Seq<char>,
    pub heading: Seq<char>,
    pub url: Seq<char>,
    pub snippet: Seq<char>,
    pub score_bits: u32,
    pub scraped_at: i64,
}

impl View for SearchResult {
    type V = SearchResultView;

    open spec fn view(&self) -> SearchResultView {
        SearchResultView {
            title: self.title@,
            heading: self.heading@,
            url: self.url@,
            snippet: self.snippet@,
            score_bits: self.score_bits,
            scraped_at: self.scraped_at,
        }
    }
}

/// The views of a sequence of results.
pub open spec fn result_views(results: Seq<SearchResult>) -> Seq<SearchResultView> {
    Seq::new(results.len(), |i: int| results[i]@)
}

/// The answer to a search request.
#[derive(Debug)]
pub struct SearchResponse {
    pub results: Vec<SearchResult>,
    /// The number of results.
    pub total: usize,
    /// The query as it was received.
    pub query: String,
    /// The time the search took, in microseconds.
    pub took_micros: u64,
}

/// The result sent to the client for a result of the searcher.
pub open spec fn sent_result_of(result: crate::searcher::SearchResultView) -> SearchResultView {
    SearchResultView {
        title: result.title,
        heading: result.heading,
        url: result.url,
        snippet: result.content_snippet,
        score_bits: result.score_bits,
        scraped_at: result.scraped_at,
    }
}

/// The results sent to the client, in the order of the searcher's results.
pub open spec fn sent_results_of(results: Seq<crate::searcher::SearchResultView>) -> Seq<
    SearchResultView,
> {
    Seq::new(results.len(), |i: int| sent_result_of(results[i]))
}

/// Builds the answer to a search request from the searcher's results: the
/// results in the same order, their number, the query, and the time taken.
pub fn search_response(
    query: SearchQuery,
    results: Vec<crate::searcher::SearchResult>,
    took_micros: u64,
) -> (response: SearchResponse)
    ensures
        result_views(response.results@) == sent_results_of(
            crate::searcher::result_views(results@),
        ),
        response.total == results.len(),
        response.query@ == query.q@,
        response.took_micros == took_micros,
{
    let mut sent: Vec<SearchResult> = Vec::new();
    let mut i: usize = 0;
    while i < results.len()
        invariant
            i <= results.len(),
            result_views(sent@) == sent_results_of(crate::searcher::result_views(results@)).take(
                i as int,
            ),
        decreases results.len() - i,
    {
        let result = SearchResult {
            title: results[i].title.clone(),
            heading: results[i].heading.clone(),
            url: results[i].url.clone(),
            snippet: results[i].content_snippet.clone(),
            score_bits: results[i].score_bits,
            scraped_at: results[i].scraped_at,
        };
        proof {
            let all = sent_results_of(crate::searcher::result_views(results@));
            assert(all[i as int] == result@);
            assert(result_views(sent@.push(result)) =~= result_views(sent@).push(result@));
            assert(all.take(i as int).push(all[i as int]) =~= all.take(i + 1));
        }
        sent.push(result);
        i += 1;
    }
    assert(result_views(sent@) =~= sent_results_of(crate::searcher::result_views(results@)));
    SearchResponse { total: results.len(), results: sent, query: query.q, took_micros }
}

/// The number of stored pages of one site.
#[derive(Debug)]
pub struct PagesPerSiteEntry {
    pub domain: String,
    pub count: usize,
}

/// The views of a sequence of entries.
pub open spec fn entry_views(entries: Seq<PagesPerSiteEntry>) -> Seq<(Seq<char>, nat)> {
    Seq::new(entries.len(), |i: int| (entries[i].domain@, entries[i].count as nat))
}

/// Builds the answer to a request for the page counts: one entry per site,
/// in the order of the counts.
pub fn pages_per_site_entries(counts: Vec<(String, usize)>) -> (entries: Vec<PagesPerSiteEntry>)
    ensures
        entry_views(entries@) == crate::searcher::site_count_views(counts@),
{
    let mut entries: Vec<PagesPerSiteEntry> = Vec::new();
    let mut i: usize = 0;
    while i < counts.len()
        invariant
            i <= counts.len(),
            entry_views(entries@) == crate::searcher::site_count_views(counts@).take(i as int),
        decreases counts.len() - i,
    {
        let entry = PagesPerSiteEntry { domain: counts[i].0.clone(), count: counts[i].1 };
        proof {
            let all = crate::searcher::site_count_views(counts@);
            assert(all[i as int] == (entry.domain@, entry.count as nat));
            assert(entry_views(entries@.push(entry)) =~= entry_views(entries@).push(
                (entry.domain@, entry.count as nat),
            ));
            assert(all.take(i as int).push(all[i as int]) =~= all.take(i + 1));
        }
        entries.push(entry);
        i += 1;
    }
    assert(entry_views(entries@) =~= crate::searcher::site_count_views(counts@));
    entries
}

/// The parameters of a request for the crawled URLs.
#[derive(Debug)]
pub struct ScrapedUrlsQuery {
    pub domain: Option<String>,
    pub limit: Option<usize>,
    pub offset: Option<usize>,
}

impl ScrapedUrlsQuery {
    /// The limit of the request, `DEFAULT_LIMIT` where it names none.
    pub fn limit_or_default(&self) -> (limit: usize)
        ensures
            limit == match self.limit {
                Some(l) => l,
                None => DEFAULT_LIMIT,
            },
    {
        match self.limit {
            Some(l) => l,
            None => DEFAULT_LIMIT,
        }
    }

    /// The offset of the request, `DEFAULT_OFFSET` where it names none.
    pub fn offset_or_default(&self) -> (offset: usize)
        ensures
            offset == match self.offset {
                Some(o) => o,
                None => DEFAULT_OFFSET,
            },
    {
        match self.offset {
            Some(o) => o,
            None => DEFAULT_OFFSET,
        }
    }
}

/// The answer to a request for the crawled URLs.
#[derive(Debug)]
pub struct ScrapedUrlsResponse {
    pub urls: Vec<String>,
    pub total: usize,
}

/// Builds the answer to a request for the crawled URLs from the searcher's
/// listing.
pub fn scraped_urls_response(listing: GetCrawledUrlsResult) -> (response: ScrapedUrlsResponse)
    ensures
        views(response.urls@) == views(listing.urls@),
        response.total == listing.total,
{
    ScrapedUrlsResponse { urls: listing.urls, total: listing.total }
}

} // verus!
