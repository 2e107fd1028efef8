use docsearch::urls::{
    canonical_from_parts, domain_from_parts, outbound_links, page_domain, parse_url, url_parts,
    CrawlError, UrlParts,
};

fn strings(items: &[&str]) -> Vec<String> {
    items.iter().map(|s| s.to_string()).collect()
}

#[test]
fn canonical_form_strips_query_and_fragment() {
    assert_eq!(parse_url("https://a.com/p?x=1#y"), Ok("https://a.com/p".to_string()));
    assert_eq!(parse_url("https://a.com/p#y"), Ok("https://a.com/p".to_string()));
    assert_eq!(parse_url("https://a.com/p?x=1"), Ok("https://a.com/p".to_string()));
}

#[test]
fn canonical_form_keeps_scheme_host_and_path() {
    assert_eq!(parse_url("https://docs.rs/tokio"), Ok("https://docs.rs/tokio".to_string()));
    assert_eq!(parse_url("http://docs.rs/a/b/"), Ok("http://docs.rs/a/b/".to_string()));
    assert_eq!(parse_url("HTTPS://EXAMPLE.com/A"), Ok("https://example.com/A".to_string()));
    assert_eq!(parse_url("https://user@a.com:8080/p"), Ok("https://a.com/p".to_string()));
}

#[test]
fn canonical_form_has_a_path() {
    assert_eq!(parse_url("https://example.com"), Ok("https://example.com/".to_string()));
    assert_eq!(parse_url("foo://host"), Ok("foo://host/".to_string()));
}

#[test]
fn canonical_form_of_addresses() {
    assert_eq!(parse_url("http://127.0.0.1/x"), Ok("http://127.0.0.1/x".to_string()));
    assert_eq!(parse_url("http://[::1]/x"), Ok("http://[::1]/x".to_string()));
}

#[test]
fn malformed_urls_are_rejected() {
    assert_eq!(parse_url("not a url"), Err(CrawlError::MalformedUrl));
    assert_eq!(parse_url(""), Err(CrawlError::MalformedUrl));
    assert_eq!(parse_url("/relative/path"), Err(CrawlError::MalformedUrl));
    assert_eq!(parse_url("mailto:rms@example.net"), Err(CrawlError::MalformedUrl));
    assert_eq!(parse_url("data:text/plain,Stuff"), Err(CrawlError::MalformedUrl));
}

#[test]
fn canonicalization_is_idempotent() {
    for url in [
        "https://a.com/p?x=1#y",
        "https://example.com",
        "HTTP://Example.COM:8080/a/../b/./c?q#f",
        "https://docs.rs/tokio/latest/tokio/",
        "http://127.0.0.1/x",
        "http://[::1]:3000/",
        "https://example.com/countries/việt nam",
        "foo://host",
        "ftp://rms@example.com",
    ] {
        let once = parse_url(url).unwrap();
        assert_eq!(parse_url(&once), Ok(once.clone()));
    }
}

#[test]
fn canonical_from_parts_needs_a_host() {
    let parts = UrlParts {
        scheme: "https".to_string(),
        host: Some("a.com".to_string()),
        domain: Some("a.com".to_string()),
        path: "/p".to_string(),
        href: "https://a.com/p?x".to_string(),
    };
    assert_eq!(canonical_from_parts(&parts), Ok("https://a.com/p".to_string()));
    let rootless = UrlParts { path: String::new(), ..parts };
    assert_eq!(canonical_from_parts(&rootless), Ok("https://a.com/".to_string()));
    let hostless = UrlParts { host: None, ..rootless };
    assert_eq!(canonical_from_parts(&hostless), Err(CrawlError::MalformedUrl));
}

#[test]
fn url_parts_are_read_from_the_parser() {
    let parts = url_parts("HTTPS://Docs.RS:443/tokio?x=1#frag").unwrap();
    assert_eq!(parts.scheme, "https");
    assert_eq!(parts.host, Some("docs.rs".to_string()));
    assert_eq!(parts.domain, Some("docs.rs".to_string()));
    assert_eq!(parts.path, "/tokio");
    assert_eq!(parts.href, "https://docs.rs/tokio?x=1#frag");
    assert!(url_parts("nope").is_none());
}

#[test]
fn page_domain_is_the_domain_name() {
    assert_eq!(page_domain("https://docs.rs/tokio"), Ok("docs.rs".to_string()));
    assert_eq!(
        page_domain("https://subdomain.example.com/"),
        Ok("subdomain.example.com".to_string())
    );
}

#[test]
fn page_domain_of_address_is_no_domain() {
    assert_eq!(page_domain("https://127.0.0.1/"), Err(CrawlError::NoDomain));
    assert_eq!(page_domain("mailto:rms@example.net"), Err(CrawlError::NoDomain));
}

#[test]
fn page_domain_of_malformed_url() {
    assert_eq!(page_domain("nope"), Err(CrawlError::MalformedUrl));
}

#[test]
fn domain_from_parts_reads_the_domain() {
    let parts = UrlParts {
        scheme: "https".to_string(),
        host: Some("10.0.0.1".to_string()),
        domain: None,
        path: "/".to_string(),
        href: "https://10.0.0.1/".to_string(),
    };
    assert_eq!(domain_from_parts(&parts), Err(CrawlError::NoDomain));
    let named = UrlParts { domain: Some("a.com".to_string()), ..parts };
    assert_eq!(domain_from_parts(&named), Ok("a.com".to_string()));
}

#[test]
fn outbound_links_reads_each_link_both_ways() {
    let links = outbound_links(
        "https://docs.rs/tokio/",
        &strings(&["https://a.com/x", "guide", "/top", ""]),
    );
    assert_eq!(
        links,
        strings(&[
            "https://a.com/x",
            "https://a.com/x",
            "https://docs.rs/tokio/guide",
            "https://docs.rs/top",
            "https://docs.rs/tokio/",
        ])
    );
}

#[test]
fn outbound_links_resolve_against_the_page_not_the_directory() {
    let links = outbound_links("https://example.net/a/b.html", &strings(&["c.png"]));
    assert_eq!(links, strings(&["https://example.net/a/c.png"]));
}

#[test]
fn outbound_links_of_a_page_without_base() {
    let links = outbound_links("not a url", &strings(&["guide", "https://a.com/"]));
    assert_eq!(links, strings(&["https://a.com/"]));
    assert_eq!(outbound_links("https://a.com/", &strings(&[])), Vec::<String>::new());
}
