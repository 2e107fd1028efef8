//! The core of a documentation search engine: crawl policy, content
//! extraction, the lifecycle of index documents, and ranked search with
//! fuzzy snippets.
//!
//! The library decides and shapes data; it performs no network or disk
//! access. A driver fetches pages, reads and writes the full-text index, and
//! hands the library plain values: the URL and text of a fetched page, the
//! crawl time of a stored copy, the hits of a query. What comes back are
//! decisions and values to act on: whether a page is taken, the writes that
//! store it, the links to enqueue, the results to send.
//!
//! - [`urls`]: canonical URLs, domains, link targets.
//! - [`doc_extractor`], [`extracted_content`]: from HTML text to the record
//!   of a page.
//! - [`doc_collector`]: the crawl policy and the per-domain state of a run.
//! - [`frontier`]: the pages already handed to the crawler.
//! - [`index`]: documents, writes, and what the writes do to an index.
//! - [`orchestrator`]: schema, crawler settings, seeds and batches.
//! - [`searcher`], [`ranking`], [`snippet`]: the read side.
//! - [`api`]: the shapes of the HTTP interface and their rules.
//! - [`text`]: lines, words and joining, shared by all of them.

pub mod api;
pub mod doc_collector;
pub mod doc_extractor;
pub mod extracted_content;
pub mod frontier;
pub mod index;
pub mod orchestrator;
pub mod ranking;
pub mod searcher;
pub mod snippet;
pub mod text;
pub mod urls;
