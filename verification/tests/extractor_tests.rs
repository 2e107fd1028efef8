use docsearch::doc_extractor::{
    assemble_content, document_fits, link_texts, page_links, DocExtractor, RedirectPolicy,
    CONTENT_SELECTOR, HEADING_SELECTOR, LINK_ATTRIBUTE, LINK_SELECTOR, MAX_DOCUMENT_BYTES,
    TITLE_SELECTOR,
};

fn strings(items: &[&str]) -> Vec<String> {
    items.iter().map(|s| s.to_string()).collect()
}

const PAGE: &str = "<html><head><title>First</title><title>Second</title></head>\
<body><h1>One</h1><p>para</p><h2>Two</h2><pre class=\"code\">let x = 1;</pre>\
<h3>Three</h3><h4>Four</h4><span class=\"api\">fn spawn()</span>\
<span class=\"api\">fn block_on()</span></body></html>";

#[test]
fn selectors() {
    assert_eq!(TITLE_SELECTOR, "title");
    assert_eq!(CONTENT_SELECTOR, "body > *");
    assert_eq!(HEADING_SELECTOR, "h1, h2, h3");
    assert_eq!(LINK_SELECTOR, "a");
    assert_eq!(LINK_ATTRIBUTE, "href");
}

#[test]
fn new_extractor_has_the_default_configuration() {
    let e = DocExtractor::new("docs.rs").unwrap();
    assert_eq!(e.domain, "docs.rs");
    assert!(e.respect_robots_txt);
    assert_eq!(e.redirect_policy, RedirectPolicy::Strict);
    assert_eq!(e.code_selector, None);
    assert_eq!(e.api_selector, None);
    let copy = e.duplicate();
    assert_eq!(copy.domain, "docs.rs");
}

#[test]
fn extracts_title_content_and_headings() {
    let e = DocExtractor::new("docs.rs").unwrap();
    let content = e.extract_content(PAGE).unwrap();
    assert_eq!(content.title, "First");
    assert_eq!(content.headings, strings(&["One", "Two", "Three"]));
    assert_eq!(
        content.content,
        strings(&[
            "One",
            "para",
            "Two",
            "let x = 1;",
            "Three",
            "Four",
            "fn spawn()",
            "fn block_on()"
        ])
    );
    assert_eq!(content.code_blocks, Vec::<String>::new());
    assert_eq!(content.api_items, Vec::<String>::new());
}

#[test]
fn extracts_code_blocks_and_api_items_where_configured() {
    let e = DocExtractor::new("docs.rs").unwrap().with_code_blocks("pre.code").with_api_items(
        "span.api",
    );
    assert_eq!(e.code_selector, Some("pre.code".to_string()));
    assert_eq!(e.api_selector, Some("span.api".to_string()));
    let content = e.extract_content(PAGE).unwrap();
    assert_eq!(content.code_blocks, strings(&["let x = 1;"]));
    assert_eq!(content.api_items, strings(&["fn spawn()", "fn block_on()"]));
    assert_eq!(content.title, "First");
}

#[test]
fn missing_elements_give_empty_fields() {
    let e = DocExtractor::new("docs.rs").unwrap();
    let content = e.extract_content("<p>just text</p>").unwrap();
    assert_eq!(content.title, "");
    assert_eq!(content.headings, Vec::<String>::new());
    assert_eq!(content.content, strings(&["just text"]));
    let empty = e.extract_content("").unwrap();
    assert_eq!(empty.title, "");
    assert_eq!(empty.headings, Vec::<String>::new());
}

#[test]
fn invalid_selector_gives_no_items() {
    let e = DocExtractor::new("docs.rs").unwrap().with_code_blocks("pre[").with_api_items("");
    let content = e.extract_content(PAGE).unwrap();
    assert_eq!(content.code_blocks, Vec::<String>::new());
    assert_eq!(content.api_items, Vec::<String>::new());
    assert_eq!(content.title, "First");
}

#[test]
fn assemble_content_takes_the_first_title() {
    let content = assemble_content(
        strings(&["a", "b"]),
        strings(&["body"]),
        strings(&["h"]),
        strings(&[]),
        strings(&["api"]),
    );
    assert_eq!(content.title, "a");
    assert_eq!(content.content, strings(&["body"]));
    assert_eq!(content.headings, strings(&["h"]));
    assert_eq!(content.api_items, strings(&["api"]));
    let untitled = assemble_content(vec![], vec![], vec![], vec![], vec![]);
    assert_eq!(untitled.title, "");
}

#[test]
fn page_links_lists_the_targets_in_order() {
    let html = "<body><a href=\"/a\">a</a><a>no target</a><a href=\"https://b.com/\">b</a>\
                <link href=\"style.css\"></body>";
    assert_eq!(page_links(html), strings(&["/a", "", "https://b.com/"]));
    assert_eq!(page_links("<p>no links</p>"), Vec::<String>::new());
}

#[test]
fn link_texts_replace_missing_targets_by_empty_text() {
    let values = Some(vec![Some("x".to_string()), None, Some(String::new())]);
    assert_eq!(link_texts(values), strings(&["x", "", ""]));
    assert_eq!(link_texts(Some(vec![])), Vec::<String>::new());
    assert_eq!(link_texts(None), Vec::<String>::new());
}

#[test]
fn content_has_one_entry_per_top_level_block() {
    let e = DocExtractor::new("docs.rs").unwrap();
    let html = "<html><body><div><p>nested one</p><p>nested two</p></div>loose text\
                <section>second block</section><p></p></body></html>";
    let content = e.extract_content(html).unwrap();
    assert_eq!(content.content, strings(&["nested onenested two", "second block", ""]));
    let bare = e.extract_content("<html><body>only text</body></html>").unwrap();
    assert_eq!(bare.content, Vec::<String>::new());
}

#[test]
fn documents_of_ordinary_size_fit_the_parser() {
    assert_eq!(MAX_DOCUMENT_BYTES as u64, (1u64 << 31) / 3);
    assert!(3 * (MAX_DOCUMENT_BYTES as u64) <= 1u64 << 31);
    assert!(document_fits(""));
    assert!(document_fits(PAGE));
    assert!(document_fits(&"é".repeat(1_000_000)));
}
