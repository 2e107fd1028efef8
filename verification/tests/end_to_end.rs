use docsearch::doc_collector::{DocCollector, Rejection, RE_CRAWL_DURATION};
use docsearch::index::{Document, WriteAction};
use docsearch::orchestrator::{schema_fields, seed_url, FieldKind};
use docsearch::searcher::{DocSearcher, IndexFailure, IndexHit, SearchError, StoredPage};
use tantivy::collector::{DocSetCollector, TopDocs};
use tantivy::query::{AllQuery, QueryParser, TermQuery};
use tantivy::schema::{
    DateOptions, DateTimePrecision, Field, IndexRecordOption, Schema, INDEXED, STORED, STRING, TEXT,
};
use tantivy::{DateTime, DocAddress, Index, IndexWriter, Term};

struct Store {
    index: Index,
    writer: IndexWriter,
}

fn open_store() -> Store {
    let mut builder = Schema::builder();
    for field in schema_fields() {
        match field.kind {
            FieldKind::Text => {
                builder.add_text_field(field.name, TEXT | STORED);
            }
            FieldKind::Raw => {
                builder.add_text_field(field.name, STRING | STORED);
            }
            FieldKind::Date => {
                let options = DateOptions::from(INDEXED)
                    .set_stored()
                    .set_precision(DateTimePrecision::Milliseconds);
                builder.add_date_field(field.name, options);
            }
        }
    }
    let index = Index::create_in_ram(builder.build());
    let writer = index.writer_with_num_threads(1, 15_000_000).unwrap();
    Store { index, writer }
}

fn field(store: &Store, name: &str) -> Field {
    store.index.schema().get_field(name).unwrap()
}

fn text_of(store: &Store, document: &tantivy::Document, name: &str) -> String {
    document.get_first(field(store, name)).and_then(|v| v.as_text()).unwrap_or_default().to_string()
}

fn stored_document(store: &Store, document: &tantivy::Document) -> Document {
    let raw = text_of(store, document, "url_raw");
    Document {
        title: text_of(store, document, "title"),
        content: text_of(store, document, "content"),
        url: text_of(store, document, "url"),
        url_raw: if raw.is_empty() { None } else { Some(raw) },
        domain: text_of(store, document, "domain"),
        headings: text_of(store, document, "headings"),
        code_blocks: text_of(store, document, "code_blocks"),
        api_items: text_of(store, document, "api_items"),
        scraped_at: document
            .get_first(field(store, "scraped_at"))
            .and_then(|v| v.as_date())
            .unwrap()
            .into_timestamp_millis(),
    }
}

fn apply(store: &mut Store, writes: Vec<WriteAction>) {
    for write in writes {
        match write {
            WriteAction::Insert(d) => {
                let mut document = tantivy::Document::default();
                document.add_text(field(store, "title"), &d.title);
                document.add_text(field(store, "content"), &d.content);
                document.add_text(field(store, "url"), &d.url);
                if let Some(raw) = &d.url_raw {
                    document.add_text(field(store, "url_raw"), raw);
                }
                document.add_text(field(store, "domain"), &d.domain);
                document.add_text(field(store, "headings"), &d.headings);
                document.add_text(field(store, "code_blocks"), &d.code_blocks);
                document.add_text(field(store, "api_items"), &d.api_items);
                document.add_date(
                    field(store, "scraped_at"),
                    DateTime::from_timestamp_millis(d.scraped_at),
                );
                store.writer.add_document(document).unwrap();
            }
            WriteAction::DeleteByUrl(key) => {
                store.writer.delete_term(Term::from_field_text(field(store, "url"), &key));
            }
            WriteAction::Commit => {
                store.writer.commit().unwrap();
            }
        }
    }
}

fn lookup(store: &Store, canonical: &str) -> Vec<Document> {
    let searcher = store.index.reader().unwrap().searcher();
    let query = TermQuery::new(
        Term::from_field_text(field(store, "url"), canonical),
        IndexRecordOption::Basic,
    );
    let found = searcher.search(&query, &TopDocs::with_limit(10)).unwrap();
    found.into_iter().map(|(_, a)| stored_document(store, &searcher.doc(a).unwrap())).collect()
}

fn stored_pages(store: &Store) -> Vec<StoredPage> {
    let searcher = store.index.reader().unwrap().searcher();
    let mut addresses: Vec<DocAddress> =
        searcher.search(&AllQuery, &DocSetCollector).unwrap().into_iter().collect();
    addresses.sort();
    addresses
        .into_iter()
        .map(|a| {
            let document = searcher.doc(a).unwrap();
            StoredPage {
                url: text_of(store, &document, "url"),
                domain: text_of(store, &document, "domain"),
            }
        })
        .collect()
}

fn schema_names(store: &Store) -> Vec<String> {
    store.index.schema().fields().map(|(_, entry)| entry.name().to_string()).collect()
}

fn query_hits(
    store: &Store,
    searcher: &DocSearcher,
    query: &str,
    limit: usize,
) -> Result<Vec<IndexHit>, IndexFailure> {
    let fields: Vec<Field> = searcher.fields().iter().map(|f| field(store, f.name())).collect();
    let mut parser = QueryParser::for_index(&store.index, fields);
    for f in searcher.fields() {
        parser.set_field_boost(field(store, f.name()), f.boost_tenths() as f32 / 10.0);
    }
    let parsed =
        parser.parse_query(query).map_err(|e| IndexFailure { message: e.to_string() })?;
    let reader = store.index.reader().unwrap().searcher();
    let top = reader.search(&parsed, &TopDocs::with_limit(limit)).unwrap();
    Ok(top
        .into_iter()
        .map(|(score, a)| IndexHit {
            score_bits: score.to_bits(),
            document: stored_document(store, &reader.doc(a).unwrap()),
        })
        .collect())
}

fn page_html(title: &str, body: &str) -> String {
    format!(
        "<html><head><title>{}</title></head><body><h1>{}</h1> <p>{}</p> \
         <a href=\"/next\">next</a></body></html>",
        title, title, body
    )
}

fn crawl(
    store: &mut Store,
    collector: &mut DocCollector,
    url: &str,
    html: &str,
    now: i64,
) -> Result<Vec<String>, Rejection> {
    let admission = collector.check_admission(url)?;
    let existing = lookup(store, &admission.canonical).first().map(|d| d.scraped_at);
    let page = match collector.scrape(&admission, url, html, existing, now) {
        Some(page) => page,
        None => return Err(Rejection::RecentlyScraped),
    };
    apply(store, page.writes);
    collector.record_insert(&admission.domain);
    Ok(page.links)
}

fn sites() -> Vec<String> {
    vec!["docs.rs".to_string(), "doc.rust-lang.org".to_string()]
}

#[test]
fn seeded_document_is_found_with_its_snippet() {
    let mut store = open_store();
    let seeded = Document {
        title: "tokio".to_string(),
        content: "async runtime for rust".to_string(),
        url: "https://docs.rs/tokio".to_string(),
        url_raw: None,
        domain: "docs.rs".to_string(),
        headings: String::new(),
        code_blocks: String::new(),
        api_items: String::new(),
        scraped_at: 1_735_614_051_069,
    };
    apply(&mut store, vec![WriteAction::Insert(seeded), WriteAction::Commit]);

    let searcher = DocSearcher::new("ram".to_string(), sites(), Ok(schema_names(&store))).unwrap();
    let hits = query_hits(&store, &searcher, "async runtime", 10);
    let results = searcher.search("async runtime", 10, hits).unwrap();
    assert_eq!(results.len(), 1);
    assert_eq!(results[0].url, "https://docs.rs/tokio");
    assert_eq!(results[0].title, "tokio");
    assert!(!results[0].content_snippet.is_empty());
    assert!(results[0].content_snippet.contains("async runtime"));
    assert_eq!(results[0].content_snippet, "...async runtime for rust...");
    assert_eq!(results[0].scraped_at, 1_735_614_051_069);
    assert!(f32::from_bits(results[0].score_bits) > 0.0);

    let counts = searcher.get_pages_per_site(Ok(stored_pages(&store))).unwrap();
    assert_eq!(counts, vec![("docs.rs".to_string(), 1), ("doc.rust-lang.org".to_string(), 0)]);
}

#[test]
fn crawl_stores_one_document_per_canonical_url() {
    let mut store = open_store();
    let mut collector = DocCollector::new(sites());
    let t: i64 = 1_735_614_051_069;

    let links = crawl(&mut store, &mut collector, "https://docs.rs/tokio?x=1", &page_html("tokio", "first"), t)
        .unwrap();
    assert_eq!(links, vec!["https://docs.rs/next".to_string()]);
    assert_eq!(lookup(&store, "https://docs.rs/tokio").len(), 1);

    let again = crawl(&mut store, &mut collector, "https://docs.rs/tokio?x=2", &page_html("tokio", "second"), t + 1);
    assert_eq!(again.err(), Some(Rejection::RecentlyScraped));
    let before = crawl(
        &mut store,
        &mut collector,
        "https://docs.rs/tokio#frag",
        &page_html("tokio", "second"),
        t + RE_CRAWL_DURATION - 1,
    );
    assert_eq!(before.err(), Some(Rejection::RecentlyScraped));
    let found = lookup(&store, "https://docs.rs/tokio");
    assert_eq!(found.len(), 1);
    assert_eq!(found[0].scraped_at, t);
    assert_eq!(found[0].url_raw, Some("https://docs.rs/tokio?x=1".to_string()));

    crawl(
        &mut store,
        &mut collector,
        "https://docs.rs/tokio?x=3",
        &page_html("tokio", "third"),
        t + RE_CRAWL_DURATION + 1,
    )
    .unwrap();
    let found = lookup(&store, "https://docs.rs/tokio");
    assert_eq!(found.len(), 1);
    assert_eq!(found[0].scraped_at, t + RE_CRAWL_DURATION + 1);
    assert_eq!(found[0].url_raw, Some("https://docs.rs/tokio?x=3".to_string()));
    assert_eq!(found[0].content, "tokio\nthird\nnext");
    assert_eq!(stored_pages(&store).len(), 1);
    assert_eq!(collector.page_count("docs.rs"), 2);
}

#[test]
fn crawl_rejects_off_site_and_malformed_urls() {
    let mut store = open_store();
    let mut collector = DocCollector::new(sites());
    let html = page_html("x", "y");
    assert_eq!(
        crawl(&mut store, &mut collector, "https://example.com/", &html, 1).err(),
        Some(Rejection::OffSite)
    );
    assert_eq!(crawl(&mut store, &mut collector, "nope", &html, 1).err(), Some(Rejection::MalformedUrl));
    assert_eq!(stored_pages(&store).len(), 0);
}

#[test]
fn crawl_stops_at_the_page_cap() {
    let mut store = open_store();
    let mut collector = DocCollector::with_limits(sites(), 2, 1000);
    let mut stored = 0;
    for i in 0..6 {
        let url = format!("https://docs.rs/page{}", i);
        if crawl(&mut store, &mut collector, &url, &page_html("p", "body"), 10).is_ok() {
            stored += 1;
        }
    }
    assert_eq!(stored, 3);
    assert_eq!(collector.page_count("docs.rs"), 3);
    assert_eq!(
        crawl(&mut store, &mut collector, "https://docs.rs/late", &page_html("p", "b"), 10).err(),
        Some(Rejection::Exhausted)
    );
    assert!(crawl(&mut store, &mut collector, &seed_url("doc.rust-lang.org"), &page_html("p", "b"), 10)
        .is_ok());
    let searcher = DocSearcher::new("ram".to_string(), sites(), Ok(schema_names(&store))).unwrap();
    let counts = searcher.get_pages_per_site(Ok(stored_pages(&store))).unwrap();
    assert_eq!(counts, vec![("docs.rs".to_string(), 3), ("doc.rust-lang.org".to_string(), 1)]);
}

#[test]
fn title_match_ranks_before_content_match() {
    let mut store = open_store();
    let mut collector = DocCollector::new(sites());
    crawl(&mut store, &mut collector, "https://docs.rs/body", &page_html("other", "spawn"), 5).unwrap();
    crawl(&mut store, &mut collector, "https://docs.rs/title", &page_html("spawn", "other"), 5).unwrap();
    let searcher = DocSearcher::new("ram".to_string(), sites(), Ok(schema_names(&store))).unwrap();
    let results = searcher.search("spawn", 10, query_hits(&store, &searcher, "spawn", 10)).unwrap();
    assert_eq!(results.len(), 2);
    assert_eq!(results[0].url, "https://docs.rs/title");
    assert_eq!(results[1].url, "https://docs.rs/body");
    assert_eq!(results[1].content_snippet, "...spawn...");
    assert_eq!(results[0].content_snippet, "...spawn...");
    assert_eq!(results[0].heading, "spawn");
    assert_eq!(results[1].heading, "");
    assert!(results[0].score_bits >= results[1].score_bits);
    assert!(f32::from_bits(results[0].score_bits) >= f32::from_bits(results[1].score_bits));
    let again = searcher.search("spawn", 10, query_hits(&store, &searcher, "spawn", 10)).unwrap();
    let order: Vec<&str> = results.iter().map(|r| r.url.as_str()).collect();
    let order_again: Vec<&str> = again.iter().map(|r| r.url.as_str()).collect();
    assert_eq!(order, order_again);
    let top = searcher.search("spawn", 1, query_hits(&store, &searcher, "spawn", 1)).unwrap();
    assert_eq!(top.len(), 1);
    assert_eq!(top[0].url, results[0].url);
}

#[test]
fn crawled_urls_are_listed_in_pages() {
    let mut store = open_store();
    let mut collector = DocCollector::new(sites());
    for i in 1..=5 {
        let url = format!("https://docs.rs/p{}", i);
        crawl(&mut store, &mut collector, &url, &page_html("p", "body"), 5).unwrap();
    }
    crawl(&mut store, &mut collector, "https://doc.rust-lang.org/book", &page_html("b", "book"), 5)
        .unwrap();
    let searcher = DocSearcher::new("ram".to_string(), sites(), Ok(schema_names(&store))).unwrap();
    let domain = Some("docs.rs".to_string());
    let first = searcher.get_crawled_urls(domain.clone(), 2, 0, Ok(stored_pages(&store))).unwrap();
    let second = searcher.get_crawled_urls(domain, 2, 2, Ok(stored_pages(&store))).unwrap();
    assert_eq!(first.total, 5);
    assert_eq!(second.total, 5);
    assert_eq!(first.urls.len(), 2);
    assert_eq!(second.urls.len(), 2);
    assert!(first.urls.iter().all(|u| !second.urls.contains(u)));
    let all = searcher.get_crawled_urls(None, 10, 0, Ok(stored_pages(&store))).unwrap();
    assert_eq!(all.total, 6);
}

#[test]
fn empty_query_never_reaches_the_index() {
    let store = open_store();
    let searcher = DocSearcher::new("ram".to_string(), sites(), Ok(schema_names(&store))).unwrap();
    let outcome = searcher.search("   ", 10, Err(IndexFailure { message: "unused".to_string() }));
    assert_eq!(outcome.err(), Some(SearchError::EmptyQuery));
}
