//! URL identity: the canonical key under which a page is stored, the domain
//! it is counted under, and the targets of the links it holds.
//!
//! Parsing and reference resolution are done by the `url` crate. What it
//! returns is named by [`parsed_url`] and [`joined_url`]; what is built from
//! its answer is specified exactly.

use crate::text::views;
use url::Url;
use vstd::prelude::*;
use vstd::string::StringExecFns;

verus! {

/// Why a URL cannot take part in the crawl.
#[derive(Clone, Copy, Debug, PartialEq, Eq, Structural)]
pub enum CrawlError {
    /// The text is not an absolute URL with a host.
    MalformedUrl,
    /// The URL's host is an address, not a domain name.
    NoDomain,
}

/// The components of a parsed absolute URL that the crawler reads.
#[derive(Debug)]
pub struct UrlParts {
    /// The scheme, lower-cased, without the colon.
    pub scheme: String,
    /// The host as it is written in a URL, if the URL has one.
    pub host: Option<String>,
    /// The host, if it is a domain name.
    pub domain: Option<String>,
    /// The path, percent-encoded.
    pub path: String,
    /// The whole URL in its normalised spelling.
    pub href: String,
}

/// The mathematical content of [`UrlParts`].
pub struct UrlPartsView {
    pub scheme: Seq<char>,
    pub host: Option<Seq<char>>,
    pub domain: Option<Seq<char>>,
    pub path: Seq<char>,
    pub href: Seq<char>,
}

/// The view of an optional string.
pub open spec fn text_view(text: Option<String>) -> Option<Seq<char>> {
    match text {
        Some(t) => Some(t@),
        None => None,
    }
}

impl View for UrlParts {
    type V = UrlPartsView;

    open spec fn view(&self) -> UrlPartsView {
        UrlPartsView {
            scheme: self.scheme@,
            host: text_view(self.host),
            domain: text_view(self.domain),
            path: self.path@,
            href: self.href@,
        }
    }
}

/// The view of optional URL components.
pub open spec fn parts_view(parts: Option<UrlParts>) -> Option<UrlPartsView> {
    match parts {
        Some(p) => Some(p@),
        None => None,
    }
}

/// The components that `Url::parse` reads from `input`, or `None` when it
/// rejects `input` as an absolute URL.
pub uninterp spec fn parsed_url(input: Seq<char>) -> Option<UrlPartsView>;

/// The URL that `Url::join` resolves `reference` to against the absolute URL
/// `base`, in its normalised spelling, or `None` when `base` is no absolute
/// URL or the reference cannot be resolved.
pub uninterp spec fn joined_url(base: Seq<char>, reference: Seq<char>) -> Option<Seq<char>>;

/// Calls `Url::parse` and copies out, through the accessors `scheme`, `host`,
/// `domain`, `path` and `as_str`, the components of the URL. The result
/// depends on `input` alone, and is what `parsed_url` names.
#[verifier::external_body]
fn parse_absolute(input: &str) -> (parts: Option<UrlParts>)
    ensures
        parts_view(parts) == parsed_url(input@),
{
    match Url::parse(input) {
        Ok(url) => Some(
            UrlParts {
                scheme: url.scheme().to_string(),
                host: url.host().map(|h| h.to_string()),
                domain: url.domain().map(|d| d.to_string()),
                path: url.path().to_string(),
                href: url.as_str().to_string(),
            },
        ),
        Err(_) => None,
    }
}

/// Parses `base` with `Url::parse` and resolves `reference` against it with
/// `Url::join`. The result depends on the two texts alone, and is what
/// `joined_url` names.
#[verifier::external_body]
fn join_reference(base: &str, reference: &str) -> (target: Option<String>)
    ensures
        text_view(target) == joined_url(base@, reference@),
{
    match Url::parse(base) {
        Ok(url) => url.join(reference).ok().map(String::from),
        Err(_) => None,
    }
}

// ---------------------------------------------------------------------------
// Canonical form
// ---------------------------------------------------------------------------

/// The path of the canonical form: the URL's path, or `/` when it is empty.
pub open spec fn canonical_path(path: Seq<char>) -> Seq<char> {
    if path.len() == 0 {
        "/"@
    } else {
        path
    }
}

/// Scheme, host and path written as one URL, without query or fragment.
pub open spec fn canonical_text(scheme: Seq<char>, host: Seq<char>, path: Seq<char>) -> Seq<char> {
    scheme + "://"@ + host + canonical_path(path)
}

/// The canonical form built from parsed components: it needs a host.
pub open spec fn canonical_from(parts: UrlPartsView) -> Result<Seq<char>, CrawlError> {
    match parts.host {
        Some(host) => Ok(canonical_text(parts.scheme, host, parts.path)),
        None => Err(CrawlError::MalformedUrl),
    }
}

/// The canonical form of `input`: scheme, host and path of the URL it spells,
/// or `MalformedUrl` when it spells no absolute URL with a host.
pub open spec fn canonical_of(input: Seq<char>) -> Result<Seq<char>, CrawlError> {
    match parsed_url(input) {
        Some(parts) => canonical_from(parts),
        None => Err(CrawlError::MalformedUrl),
    }
}

/// The view of a text or an error.
pub open spec fn result_view(outcome: Result<String, CrawlError>) -> Result<Seq<char>, CrawlError> {
    match outcome {
        Ok(text) => Ok(text@),
        Err(e) => Err(e),
    }
}

/// Writes the canonical form of a parsed URL.
pub fn canonical_from_parts(parts: &UrlParts) -> (canonical: Result<String, CrawlError>)
    ensures
        result_view(canonical) == canonical_from(parts@),
{
    match &parts.host {
        Some(host) => {
            let mut text = parts.scheme.clone();
            text.append("://");
            text.append(host.as_str());
            if parts.path.as_str().is_empty() {
                text.append("/");
            } else {
                text.append(parts.path.as_str());
            }
            Ok(text)
        },
        None => Err(CrawlError::MalformedUrl),
    }
}

/// Reduces a URL to its identity key: scheme, host and path, with query
/// string and fragment removed and an empty path written as `/`. Text that
/// is no absolute URL with a host gives `MalformedUrl`.
pub fn parse_url(url: &str) -> (canonical: Result<String, CrawlError>)
    ensures
        result_view(canonical) == canonical_of(url@),
{
    match parse_absolute(url) {
        Some(parts) => canonical_from_parts(&parts),
        None => Err(CrawlError::MalformedUrl),
    }
}

/// The parser reads the canonical form of `parts` back as the same scheme
/// and host and the canonical path.
pub open spec fn reads_back(parts: UrlPartsView) -> bool {
    match parts.host {
        Some(host) => match parsed_url(canonical_text(parts.scheme, host, parts.path)) {
            Some(again) => again.scheme == parts.scheme && again.host == Some(host) && again.path
                == canonical_path(parts.path),
            None => false,
        },
        None => false,
    }
}

/// A canonical form is its own canonical form, for every URL whose canonical
/// form the parser reads back as the components it was written from.
pub proof fn lemma_canonical_fixed_point(input: Seq<char>)
    requires
        parsed_url(input) is Some,
        reads_back(parsed_url(input).unwrap()),
    ensures
        canonical_of(input) is Ok,
        canonical_of(canonical_of(input).unwrap()) == canonical_of(input),
{
    let parts = parsed_url(input).unwrap();
    let host = parts.host.unwrap();
    let canonical = canonical_text(parts.scheme, host, parts.path);
    let again = parsed_url(canonical).unwrap();
    assert(canonical_path(canonical_path(parts.path)) == canonical_path(parts.path)) by {
        reveal_strlit("/");
    }
}

// ---------------------------------------------------------------------------
// Domains
// ---------------------------------------------------------------------------

/// The domain of parsed components, or `NoDomain` when the host is absent or
/// an address.
pub open spec fn domain_from(parts: UrlPartsView) -> Result<Seq<char>, CrawlError> {
    match parts.domain {
        Some(domain) => Ok(domain),
        None => Err(CrawlError::NoDomain),
    }
}

/// The domain name of the URL that `input` spells.
pub open spec fn domain_of(input: Seq<char>) -> Result<Seq<char>, CrawlError> {
    match parsed_url(input) {
        Some(parts) => domain_from(parts),
        None => Err(CrawlError::MalformedUrl),
    }
}

/// Reads the domain name from a parsed URL.
pub fn domain_from_parts(parts: &UrlParts) -> (domain: Result<String, CrawlError>)
    ensures
        result_view(domain) == domain_from(parts@),
{
    match &parts.domain {
        Some(domain) => Ok(domain.clone()),
        None => Err(CrawlError::NoDomain),
    }
}

/// Returns the domain name under which the page at `url` is counted.
pub fn page_domain(url: &str) -> (domain: Result<String, CrawlError>)
    ensures
        result_view(domain) == domain_of(url@),
{
    match parse_absolute(url) {
        Some(parts) => domain_from_parts(&parts),
        None => Err(CrawlError::MalformedUrl),
    }
}

/// Parses `url` and returns its components for further use.
pub fn url_parts(url: &str) -> (parts: Option<UrlParts>)
    ensures
        parts_view(parts) == parsed_url(url@),
{
    parse_absolute(url)
}

// ---------------------------------------------------------------------------
// Links
// ---------------------------------------------------------------------------

/// The targets of one link text found on the page at `base`: the URL it
/// spells by itself, then the URL it resolves to against the page. Either
/// may be missing.
pub open spec fn link_targets(base: Seq<char>, href: Seq<char>) -> Seq<Seq<char>> {
    let absolute = match parsed_url(href) {
        Some(parts) => seq![parts.href],
        None => Seq::empty(),
    };
    let relative = match joined_url(base, href) {
        Some(target) => seq![target],
        None => Seq::empty(),
    };
    absolute + relative
}

/// The targets of all link texts of a page, in the order of the links.
pub open spec fn links_from(base: Seq<char>, hrefs: Seq<Seq<char>>) -> Seq<Seq<char>>
    decreases hrefs.len(),
{
    if hrefs.len() == 0 {
        Seq::empty()
    } else {
        links_from(base, hrefs.drop_last()) + link_targets(base, hrefs.last())
    }
}

/// Lists the URLs to enqueue for the links found on the page at `base`. Each
/// link text is read both as an absolute URL and as a reference relative to
/// the page; every reading that succeeds gives one target.
pub fn outbound_links(base: &str, hrefs: &Vec<String>) -> (links: Vec<String>)
    ensures
        views(links@) == links_from(base@, views(hrefs@)),
{
    let mut links: Vec<String> = Vec::new();
    let mut i: usize = 0;
    while i < hrefs.len()
        invariant
            i <= hrefs.len(),
            views(links@) == links_from(base@, views(hrefs@).take(i as int)),
        decreases hrefs.len() - i,
    {
        let ghost before = views(links@);
        proof {
            let taken = views(hrefs@).take(i + 1);
            assert(taken.drop_last() =~= views(hrefs@).take(i as int));
            assert(taken.last() == hrefs@[i as int]@);
        }
        let href = hrefs[i].as_str();
        match parse_absolute(href) {
            Some(parts) => {
                proof {
                    assert(views(links@.push(parts.href)) =~= views(links@).push(parts.href@));
                }
                links.push(parts.href);
            },
            None => {},
        }
        match join_reference(base, href) {
            Some(target) => {
                proof {
                    assert(views(links@.push(target)) =~= views(links@).push(target@));
                }
                links.push(target);
            },
            None => {},
        }
        assert(views(links@) =~= before + link_targets(base@, hrefs@[i as int]@));
        i += 1;
    }
    assert(views(hrefs@).take(hrefs.len() as int) =~= views(hrefs@));
    links
}

} // verus!
