use docsearch::doc_collector::{
    build_document, freshness, get_epoch_ms, index_page, timestamp_from_millis, DocCollector,
    DomainState, Freshness, Rejection, NUM_PAGES_PER_SITE, RE_CRAWL_DURATION,
};
use docsearch::extracted_content::ExtractedContent;
use docsearch::index::{write_plan, Document, WriteAction};

fn strings(items: &[&str]) -> Vec<String> {
    items.iter().map(|s| s.to_string()).collect()
}

fn collector() -> DocCollector {
    DocCollector::new(strings(&["docs.rs", "doc.rust-lang.org"]))
}

fn sample_document(url: &str, scraped_at: i64) -> Document {
    Document {
        title: "tokio".to_string(),
        content: "async runtime for rust".to_string(),
        url: url.to_string(),
        url_raw: None,
        domain: "docs.rs".to_string(),
        headings: String::new(),
        code_blocks: String::new(),
        api_items: String::new(),
        scraped_at,
    }
}

#[test]
fn default_limits() {
    assert_eq!(NUM_PAGES_PER_SITE, 100);
    assert_eq!(RE_CRAWL_DURATION, 86_400_000);
}

#[test]
fn clock_reads_a_time_after_the_epoch() {
    let now = get_epoch_ms().unwrap();
    assert!(now > 1_600_000_000_000);
    let stamp = timestamp_from_millis(now).unwrap();
    assert_eq!(stamp as u128, now);
}

#[test]
fn timestamp_from_millis_checks_the_range() {
    assert_eq!(timestamp_from_millis(0), Some(0));
    assert_eq!(timestamp_from_millis(1_735_614_051_069), Some(1_735_614_051_069));
    assert_eq!(timestamp_from_millis(i64::MAX as u128), Some(i64::MAX));
    assert_eq!(timestamp_from_millis(i64::MAX as u128 + 1), None);
    assert_eq!(timestamp_from_millis(u128::MAX), None);
}

#[test]
fn admitted_url_gets_its_canonical_form_and_domain() {
    let mut c = collector();
    let admission = c.check_admission("https://docs.rs/tokio?x=1#y").unwrap();
    assert_eq!(admission.canonical, "https://docs.rs/tokio");
    assert_eq!(admission.domain, "docs.rs");
    assert_eq!(admission.extractor.domain, "docs.rs");
    assert!(admission.extractor.respect_robots_txt);
    assert_eq!(c.page_count("docs.rs"), 0);
}

#[test]
fn off_site_url_is_rejected() {
    let mut c = collector();
    assert_eq!(c.check_admission("https://example.com/").err(), Some(Rejection::OffSite));
    assert_eq!(c.check_admission("https://sub.docs.rs/").err(), Some(Rejection::OffSite));
    assert!(c.is_allowed("docs.rs"));
    assert!(!c.is_allowed("example.com"));
}

#[test]
fn malformed_url_is_rejected() {
    let mut c = collector();
    assert_eq!(c.check_admission("not a url").err(), Some(Rejection::MalformedUrl));
}

#[test]
fn url_without_domain_is_rejected() {
    let mut c = collector();
    assert_eq!(c.check_admission("https://127.0.0.1/").err(), Some(Rejection::NoDomain));
}

#[test]
fn domain_is_exhausted_once_the_count_exceeds_the_cap() {
    let mut c = collector();
    assert!(c.check_admission("https://docs.rs/").is_ok());
    for _ in 0..100 {
        c.record_insert("docs.rs");
    }
    assert_eq!(c.page_count("docs.rs"), 100);
    assert!(c.check_admission("https://docs.rs/still").is_ok());
    c.record_insert("docs.rs");
    assert_eq!(c.page_count("docs.rs"), 101);
    assert_eq!(c.check_admission("https://docs.rs/more").err(), Some(Rejection::Exhausted));
}

#[test]
fn exhausted_domain_stays_rejected() {
    let mut c = DocCollector::with_limits(strings(&["docs.rs", "a.com"]), 1, 1000);
    assert!(c.check_admission("https://docs.rs/").is_ok());
    c.record_insert("docs.rs");
    c.record_insert("docs.rs");
    for url in ["https://docs.rs/a", "https://docs.rs/b?x", "http://docs.rs/c"] {
        assert_eq!(c.check_admission(url).err(), Some(Rejection::Exhausted));
        assert_eq!(c.evaluate(url, None, 5_000).err(), Some(Rejection::Exhausted));
        assert!(c.check_admission("https://a.com/").is_ok());
        c.record_insert("docs.rs");
    }
    assert_eq!(c.page_count("docs.rs"), 5);
    c.record_insert("a.com");
    assert!(c.check_admission("https://a.com/").is_ok());
    c.record_insert("a.com");
    assert_eq!(c.check_admission("https://a.com/").err(), Some(Rejection::Exhausted));
}

#[test]
fn record_insert_counts_only_known_domains() {
    let mut c = collector();
    c.record_insert("docs.rs");
    assert_eq!(c.page_count("docs.rs"), 0);
    assert!(c.check_admission("https://docs.rs/").is_ok());
    c.record_insert("docs.rs");
    assert_eq!(c.page_count("docs.rs"), 1);
    assert_eq!(c.page_count("doc.rust-lang.org"), 0);
}

#[test]
fn domain_state_counts_and_saturates() {
    let state = DomainState::fresh("docs.rs");
    assert_eq!(state.page_count, 0);
    assert_eq!(state.extractor.domain, "docs.rs");
    let counted = state.counted();
    assert_eq!(counted.page_count, 1);
    let copy = counted.duplicate();
    assert_eq!(copy.page_count, 1);
    let full = DomainState { page_count: i32::MAX, extractor: copy.extractor };
    assert_eq!(full.counted().page_count, i32::MAX);
}

#[test]
fn freshness_of_stored_copies() {
    assert_eq!(freshness(None, 1_000, 500), Freshness::Absent);
    assert_eq!(freshness(Some(1_000), 1_400, 500), Freshness::Fresh);
    assert_eq!(freshness(Some(1_000), 1_500, 500), Freshness::Fresh);
    assert_eq!(freshness(Some(1_000), 1_501, 500), Freshness::Stale);
    assert_eq!(freshness(Some(2_000), 1_000, 500), Freshness::Fresh);
}

#[test]
fn freshness_does_not_overflow() {
    assert_eq!(freshness(Some(i64::MIN), i64::MAX, 0), Freshness::Stale);
    assert_eq!(freshness(Some(i64::MAX), i64::MIN, 0), Freshness::Fresh);
    assert_eq!(freshness(Some(i64::MIN), i64::MAX, i64::MAX), Freshness::Stale);
    assert_eq!(freshness(Some(0), i64::MAX, i64::MAX), Freshness::Fresh);
}

#[test]
fn recrawl_boundary() {
    let c = collector();
    let scraped_at: i64 = 1_735_614_051_069;
    assert!(!c.should_scrape_url(Some(scraped_at), scraped_at + RE_CRAWL_DURATION - 1));
    assert!(!c.should_scrape_url(Some(scraped_at), scraped_at + RE_CRAWL_DURATION));
    assert!(c.should_scrape_url(Some(scraped_at), scraped_at + RE_CRAWL_DURATION + 1));
    assert!(c.should_scrape_url(None, scraped_at));
}

#[test]
fn policy_at_the_recrawl_boundary() {
    let mut c = collector();
    let t: i64 = 1_735_614_051_069;
    let url = "https://docs.rs/tokio?page=2";
    assert_eq!(
        c.evaluate(url, Some(t), t + RE_CRAWL_DURATION - 1).err(),
        Some(Rejection::RecentlyScraped)
    );
    let (admission, superseding) = c.evaluate(url, Some(t), t + RE_CRAWL_DURATION + 1).unwrap();
    assert!(superseding);
    assert_eq!(admission.canonical, "https://docs.rs/tokio");
    let (_, fresh_page) = c.evaluate(url, None, t).unwrap();
    assert!(!fresh_page);
}

#[test]
fn superseding_writes_delete_before_they_insert() {
    let writes = write_plan(sample_document("https://docs.rs/tokio", 7), true);
    assert_eq!(writes.len(), 3);
    assert!(matches!(&writes[0], WriteAction::DeleteByUrl(key) if key == "https://docs.rs/tokio"));
    assert!(matches!(&writes[1], WriteAction::Insert(d) if d.url == "https://docs.rs/tokio" && d.scraped_at == 7));
    assert!(matches!(&writes[2], WriteAction::Commit));
}

#[test]
fn first_writes_insert_and_commit() {
    let writes = write_plan(sample_document("https://docs.rs/tokio", 7), false);
    assert_eq!(writes.len(), 2);
    assert!(matches!(&writes[0], WriteAction::Insert(d) if d.title == "tokio"));
    assert!(matches!(&writes[1], WriteAction::Commit));
}

#[test]
fn document_joins_the_extracted_blocks() {
    let content = ExtractedContent {
        title: "Title".to_string(),
        content: strings(&["first block", "second block"]),
        headings: strings(&["H1", "H2", "H3"]),
        code_blocks: strings(&["fn main() {}"]),
        api_items: strings(&[]),
    };
    let d = build_document(
        &content,
        "https://docs.rs/tokio?x=1",
        "https://docs.rs/tokio",
        "docs.rs",
        42,
    );
    assert_eq!(d.title, "Title");
    assert_eq!(d.content, "first block\nsecond block");
    assert_eq!(d.url, "https://docs.rs/tokio");
    assert_eq!(d.url_raw, Some("https://docs.rs/tokio?x=1".to_string()));
    assert_eq!(d.domain, "docs.rs");
    assert_eq!(d.headings, "H1\nH2\nH3");
    assert_eq!(d.code_blocks, "fn main() {}");
    assert_eq!(d.api_items, "");
    assert_eq!(d.scraped_at, 42);
}

#[test]
fn document_keeps_the_raw_url_only_where_it_differs() {
    let content = ExtractedContent {
        title: String::new(),
        content: vec![],
        headings: vec![],
        code_blocks: vec![],
        api_items: vec![],
    };
    let d = build_document(&content, "https://docs.rs/", "https://docs.rs/", "docs.rs", 0);
    assert_eq!(d.url_raw, None);
    assert_eq!(d.content, "");
}

#[test]
fn index_page_extracts_writes_and_links() {
    let mut c = collector();
    let url = "https://docs.rs/tokio/?tab=readme";
    let admission = c.check_admission(url).unwrap();
    let html = "<html><head><title>tokio</title></head><body><h1>Tokio</h1>\
                <p>async runtime</p><a href=\"guide\">g</a><a href=\"https://a.com/\">a</a>\
                <a>none</a></body></html>";
    let page = index_page(&admission, url, html, 99, true);
    assert_eq!(page.content.title, "tokio");
    assert_eq!(page.content.headings, strings(&["Tokio"]));
    assert_eq!(page.content.content, strings(&["Tokio", "async runtime", "g", "a", "none"]));
    assert_eq!(page.writes.len(), 3);
    assert!(matches!(&page.writes[0], WriteAction::DeleteByUrl(k) if k == "https://docs.rs/tokio/"));
    match &page.writes[1] {
        WriteAction::Insert(d) => {
            assert_eq!(d.title, "tokio");
            assert_eq!(d.url, "https://docs.rs/tokio/");
            assert_eq!(d.url_raw, Some(url.to_string()));
            assert_eq!(d.domain, "docs.rs");
            assert_eq!(d.headings, "Tokio");
            assert_eq!(d.content, "Tokio\nasync runtime\ng\na\nnone");
            assert_eq!(d.scraped_at, 99);
        }
        other => panic!("unexpected write {:?}", other),
    }
    assert_eq!(
        page.links,
        strings(&[
            "https://docs.rs/tokio/guide",
            "https://a.com/",
            "https://a.com/",
            "https://docs.rs/tokio/?tab=readme",
        ])
    );
}

#[test]
fn scrape_skips_fresh_pages_and_supersedes_stale_ones() {
    let mut c = collector();
    let url = "https://docs.rs/tokio?x=1";
    let admission = c.check_admission(url).unwrap();
    let html = "<html><head><title>tokio</title></head><body>text</body></html>";
    let t: i64 = 1_735_614_051_069;
    assert!(c.scrape(&admission, url, html, Some(t), t + RE_CRAWL_DURATION).is_none());
    let first = c.scrape(&admission, url, html, None, t).unwrap();
    assert_eq!(first.content.title, "tokio");
    assert_eq!(first.writes.len(), 2);
    assert!(matches!(&first.writes[0], WriteAction::Insert(d) if d.scraped_at == t));
    let later = c.scrape(&admission, url, html, Some(t), t + RE_CRAWL_DURATION + 1).unwrap();
    assert_eq!(later.writes.len(), 3);
    assert!(matches!(&later.writes[0], WriteAction::DeleteByUrl(k) if k == "https://docs.rs/tokio"));
    assert!(
        matches!(&later.writes[1], WriteAction::Insert(d) if d.scraped_at == t + RE_CRAWL_DURATION + 1)
    );
    assert_eq!(later.links, Vec::<String>::new());
}
