use docsearch::index::Document;
use docsearch::searcher::{
    contains_name, count_pages_of, materialize, paginate, rank_hits, urls_matching, DocSearcher,
    IndexFailure, IndexHit, SearchError, SearchField, StoredPage,
};

fn strings(items: &[&str]) -> Vec<String> {
    items.iter().map(|s| s.to_string()).collect()
}

fn schema() -> Vec<String> {
    strings(&["title", "content", "url", "url_raw", "domain", "headings", "scraped_at"])
}

fn searcher() -> DocSearcher {
    DocSearcher::new("./index".to_string(), strings(&["docs.rs", "a.com", "empty.org"]), Ok(schema()))
        .unwrap()
}

fn failure() -> IndexFailure {
    IndexFailure { message: "segment missing".to_string() }
}

fn hit(score_bits: u32, url: &str, content: &str) -> IndexHit {
    IndexHit {
        score_bits,
        document: Document {
            title: format!("title of {}", url),
            content: content.to_string(),
            url: url.to_string(),
            url_raw: None,
            domain: "docs.rs".to_string(),
            headings: "Intro\nAsync Runtime".to_string(),
            code_blocks: String::new(),
            api_items: "fn spawn()\nfn block_on()".to_string(),
            scraped_at: 1_735_614_051_069,
        },
    }
}

fn page(url: &str, domain: &str) -> StoredPage {
    StoredPage { url: url.to_string(), domain: domain.to_string() }
}

fn pages() -> Vec<StoredPage> {
    vec![
        page("https://docs.rs/1", "docs.rs"),
        page("https://a.com/1", "a.com"),
        page("https://docs.rs/2", "docs.rs"),
        page("https://docs.rs/3", "docs.rs"),
        page("https://a.com/2", "a.com"),
        page("https://docs.rs/4", "docs.rs"),
        page("https://docs.rs/5", "docs.rs"),
    ]
}

#[test]
fn searcher_reads_its_configuration() {
    let s = searcher();
    assert_eq!(s.index_path(), "./index");
    assert_eq!(s.sites(), &strings(&["docs.rs", "a.com", "empty.org"]));
    assert_eq!(
        s.fields(),
        &vec![SearchField::Title, SearchField::Content, SearchField::Headings]
    );
}

#[test]
fn searcher_matches_optional_fields_where_the_schema_has_them() {
    let mut names = schema();
    names.push("api_items".to_string());
    let s = DocSearcher::new("i".to_string(), vec![], Ok(names.clone())).unwrap();
    assert_eq!(
        s.fields(),
        &vec![
            SearchField::Title,
            SearchField::Content,
            SearchField::Headings,
            SearchField::ApiItems
        ]
    );
    names.push("code_blocks".to_string());
    let s = DocSearcher::new("i".to_string(), vec![], Ok(names)).unwrap();
    assert_eq!(
        s.fields(),
        &vec![
            SearchField::Title,
            SearchField::Content,
            SearchField::Headings,
            SearchField::CodeBlocks,
            SearchField::ApiItems
        ]
    );
}

#[test]
fn searcher_needs_a_usable_index() {
    let unopened = DocSearcher::new("i".to_string(), vec![], Err(failure()));
    assert_eq!(unopened.err(), Some(SearchError::IndexUnavailable));
    for missing in ["title", "content", "url", "domain", "headings", "scraped_at"] {
        let names: Vec<String> = schema().into_iter().filter(|n| n != missing).collect();
        let s = DocSearcher::new("i".to_string(), vec![], Ok(names));
        assert_eq!(s.err(), Some(SearchError::IndexUnavailable));
    }
    let without_raw: Vec<String> = schema().into_iter().filter(|n| n != "url_raw").collect();
    assert!(DocSearcher::new("i".to_string(), vec![], Ok(without_raw)).is_ok());
}

#[test]
fn field_boosts_and_names() {
    assert_eq!(SearchField::Title.boost_tenths(), 30);
    assert_eq!(SearchField::Headings.boost_tenths(), 20);
    assert_eq!(SearchField::ApiItems.boost_tenths(), 25);
    assert_eq!(SearchField::CodeBlocks.boost_tenths(), 20);
    assert_eq!(SearchField::Content.boost_tenths(), 10);
    assert_eq!(SearchField::Title.name(), "title");
    assert_eq!(SearchField::Content.name(), "content");
    assert_eq!(SearchField::Headings.name(), "headings");
    assert_eq!(SearchField::CodeBlocks.name(), "code_blocks");
    assert_eq!(SearchField::ApiItems.name(), "api_items");
}

#[test]
fn empty_query_is_rejected() {
    let s = searcher();
    for query in ["", "   ", "\t\n", "\u{a0}"] {
        let hits = vec![hit(1, "https://docs.rs/tokio", "async runtime")];
        assert_eq!(s.search(query, 10, Ok(hits)).err(), Some(SearchError::EmptyQuery));
        assert_eq!(s.search(query, 10, Err(failure())).err(), Some(SearchError::EmptyQuery));
    }
}

#[test]
fn unreadable_index_gives_no_results() {
    let s = searcher();
    assert_eq!(s.search("async", 10, Err(failure())).err(), Some(SearchError::IndexUnavailable));
}

#[test]
fn results_are_sorted_by_descending_score() {
    let s = searcher();
    let hits = vec![
        hit(10, "https://docs.rs/low", "async low"),
        hit(30, "https://docs.rs/high", "async high"),
        hit(20, "https://docs.rs/mid", "async mid"),
        hit(30, "https://docs.rs/high2", "async high two"),
    ];
    let results = s.search("async", 10, Ok(hits)).unwrap();
    let urls: Vec<&str> = results.iter().map(|r| r.url.as_str()).collect();
    assert_eq!(
        urls,
        vec!["https://docs.rs/high", "https://docs.rs/high2", "https://docs.rs/mid", "https://docs.rs/low"]
    );
    let scores: Vec<u32> = results.iter().map(|r| r.score_bits).collect();
    assert_eq!(scores, vec![30, 30, 20, 10]);
}

#[test]
fn results_are_cut_to_the_limit() {
    let s = searcher();
    let hits = || {
        vec![
            hit(10, "https://docs.rs/low", "async"),
            hit(30, "https://docs.rs/high", "async"),
            hit(20, "https://docs.rs/mid", "async"),
        ]
    };
    let two = s.search("async", 2, Ok(hits())).unwrap();
    assert_eq!(two.len(), 2);
    assert_eq!(two[0].url, "https://docs.rs/high");
    assert_eq!(two[1].url, "https://docs.rs/mid");
    assert_eq!(s.search("async", 0, Ok(hits())).unwrap().len(), 0);
    assert_eq!(s.search("async", 3, Ok(hits())).unwrap().len(), 3);
    assert_eq!(s.search("async", usize::MAX, Ok(hits())).unwrap().len(), 3);
    assert_eq!(s.search("async", 5, Ok(vec![])).unwrap().len(), 0);
}

#[test]
fn search_twice_gives_the_same_order() {
    let s = searcher();
    let hits = || {
        vec![
            hit(7, "https://docs.rs/a", "async a"),
            hit(7, "https://docs.rs/b", "async b"),
            hit(9, "https://docs.rs/c", "async c"),
        ]
    };
    let first: Vec<String> =
        s.search("async", 10, Ok(hits())).unwrap().into_iter().map(|r| r.url).collect();
    let second: Vec<String> =
        s.search("async", 10, Ok(hits())).unwrap().into_iter().map(|r| r.url).collect();
    assert_eq!(first, second);
    assert_eq!(first, strings(&["https://docs.rs/c", "https://docs.rs/a", "https://docs.rs/b"]));
}

#[test]
fn hit_is_materialised_with_snippet_heading_and_api_items() {
    let result = materialize(&hit(77, "https://docs.rs/tokio", "intro\nasync runtime for rust"), "async");
    assert_eq!(result.title, "title of https://docs.rs/tokio");
    assert_eq!(result.url, "https://docs.rs/tokio");
    assert_eq!(result.content_snippet, "...async runtime for rust...");
    assert_eq!(result.heading, "Async Runtime");
    assert_eq!(result.score_bits, 77);
    assert_eq!(result.api_items, strings(&["fn spawn()", "fn block_on()"]));
    assert_eq!(result.scraped_at, 1_735_614_051_069);
}

#[test]
fn rank_hits_orders_and_materialises() {
    let hits = vec![hit(1, "https://docs.rs/a", "zzz"), hit(2, "https://docs.rs/b", "async")];
    let results = rank_hits(&hits, "async", 10);
    assert_eq!(results.len(), 2);
    assert_eq!(results[0].url, "https://docs.rs/b");
    assert_eq!(results[0].content_snippet, "...async...");
    assert_eq!(results[1].url, "https://docs.rs/a");
    assert_eq!(results[1].content_snippet, "zzz...");
}

#[test]
fn pages_per_site_counts_each_configured_site() {
    let s = searcher();
    let counts = s.get_pages_per_site(Ok(pages())).unwrap();
    assert_eq!(
        counts,
        vec![("docs.rs".to_string(), 5), ("a.com".to_string(), 2), ("empty.org".to_string(), 0)]
    );
    let none = s.get_pages_per_site(Ok(vec![])).unwrap();
    assert_eq!(
        none,
        vec![("docs.rs".to_string(), 0), ("a.com".to_string(), 0), ("empty.org".to_string(), 0)]
    );
}

#[test]
fn pages_per_site_of_unreadable_index() {
    assert_eq!(searcher().get_pages_per_site(Err(failure())).err(), Some(SearchError::IndexUnavailable));
}

#[test]
fn count_pages_matches_the_whole_domain() {
    assert_eq!(count_pages_of(&pages(), "docs.rs"), 5);
    assert_eq!(count_pages_of(&pages(), "docs"), 0);
    assert_eq!(count_pages_of(&pages(), "a.com"), 2);
    assert_eq!(count_pages_of(&vec![], "a.com"), 0);
}

#[test]
fn crawled_urls_are_paginated_in_index_order() {
    let s = searcher();
    let first = s.get_crawled_urls(Some("docs.rs".to_string()), 2, 0, Ok(pages())).unwrap();
    let second = s.get_crawled_urls(Some("docs.rs".to_string()), 2, 2, Ok(pages())).unwrap();
    assert_eq!(first.urls, strings(&["https://docs.rs/1", "https://docs.rs/2"]));
    assert_eq!(second.urls, strings(&["https://docs.rs/3", "https://docs.rs/4"]));
    assert_eq!(first.total, 5);
    assert_eq!(second.total, 5);
    for url in &first.urls {
        assert!(!second.urls.contains(url));
    }
    let mut union = first.urls.clone();
    union.extend(second.urls.clone());
    let all = urls_matching(&pages(), &Some("docs.rs".to_string()));
    assert_eq!(union, all[..4].to_vec());
}

#[test]
fn crawled_urls_without_filter_match_every_page() {
    let s = searcher();
    let listing = s.get_crawled_urls(None, 10, 0, Ok(pages())).unwrap();
    assert_eq!(listing.total, 7);
    assert_eq!(listing.urls.len(), 7);
    assert_eq!(listing.urls[1], "https://a.com/1");
    let tail = s.get_crawled_urls(None, 10, 5, Ok(pages())).unwrap();
    assert_eq!(tail.urls, strings(&["https://docs.rs/4", "https://docs.rs/5"]));
    assert_eq!(tail.total, 7);
}

#[test]
fn crawled_urls_beyond_the_end() {
    let s = searcher();
    let beyond = s.get_crawled_urls(Some("a.com".to_string()), 10, 2, Ok(pages())).unwrap();
    assert_eq!(beyond.urls, Vec::<String>::new());
    assert_eq!(beyond.total, 2);
    let far = s.get_crawled_urls(None, usize::MAX, usize::MAX, Ok(pages())).unwrap();
    assert_eq!(far.urls, Vec::<String>::new());
    assert_eq!(far.total, 7);
    let unknown = s.get_crawled_urls(Some("nowhere.org".to_string()), 10, 0, Ok(pages())).unwrap();
    assert_eq!(unknown.urls, Vec::<String>::new());
    assert_eq!(unknown.total, 0);
    let none = s.get_crawled_urls(None, 0, 0, Ok(pages())).unwrap();
    assert_eq!(none.urls, Vec::<String>::new());
    assert_eq!(none.total, 7);
}

#[test]
fn crawled_urls_of_unreadable_index() {
    let outcome = searcher().get_crawled_urls(None, 10, 0, Err(failure()));
    assert_eq!(outcome.err(), Some(SearchError::IndexUnavailable));
}

#[test]
fn paginate_skips_and_takes() {
    let urls = strings(&["a", "b", "c", "d", "e"]);
    assert_eq!(paginate(&urls, 2, 1), strings(&["b", "c"]));
    assert_eq!(paginate(&urls, 10, 3), strings(&["d", "e"]));
    assert_eq!(paginate(&urls, 2, 5), Vec::<String>::new());
    assert_eq!(paginate(&urls, usize::MAX, 1), strings(&["b", "c", "d", "e"]));
}

#[test]
fn contains_name_finds_whole_names() {
    assert!(contains_name(&schema(), "title"));
    assert!(!contains_name(&schema(), "titl"));
    assert!(!contains_name(&vec![], "title"));
}
