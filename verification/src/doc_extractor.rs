//! Content extraction: from the HTML text of a page to its title, body
//! blocks, headings, code blocks and API items.
//!
//! Parsing the document and matching selectors is done by the `scraper`
//! crate, reached through `voyager`. What it returns is named by
//! [`element_texts`] and [`element_attributes`]; how the record is assembled
//! from those answers is specified exactly.

use crate::extracted_content::{ExtractedContent, ExtractedContentView};
use crate::text::views;
use crate::urls::{text_view, CrawlError};
use vstd::prelude::*;
use voyager::scraper::{Html, Selector};

verus! {

/// Selects the page title.
pub const TITLE_SELECTOR: &'static str = "title";

/// Selects the top-level blocks of the body.
pub const CONTENT_SELECTOR: &'static str = "body > *";

/// Selects the headings.
pub const HEADING_SELECTOR: &'static str = "h1, h2, h3";

/// Selects the hyperlinks.
pub const LINK_SELECTOR: &'static str = "a";

/// The attribute that holds a hyperlink's target.
pub const LINK_ATTRIBUTE: &'static str = "href";

/// The longest document, in bytes, that the HTML parser takes: a third of
/// 2^31.
///
/// The parser keeps every piece of text that it builds in a `Tendril`, and a
/// tendril cannot grow beyond 2^31 bytes: `Buf32::grow` (tendril 0.4.3,
/// src/buf32.rs, line 86) rounds the wanted capacity up to a power of two
/// within `u32` and panics where that overflows. The tokenizer builds such
/// text character by character (html5ever 0.25.2, src/tokenizer/mod.rs,
/// lines 1111 to 1116), and the tree joins neighbouring text nodes with
/// `push_tendril` (scraper 0.12.0, src/html/tree_sink.rs, line 116). One byte
/// of the document gives at most three bytes of such a text, where a NUL is
/// replaced by U+FFFD (src/tokenizer/mod.rs, line 1114). A document of up to
/// a third of 2^31 bytes therefore keeps every tendril within its limit.
pub const MAX_DOCUMENT_BYTES: usize = 715_827_882;

/// The length of a text in bytes, as the machine counts it.
pub open spec fn byte_length(text: Seq<char>) -> usize {
    vstd::utf8::encode_utf8(text).len() as usize
}

/// The document is no longer than the HTML parser takes.
pub open spec fn fits_parser(document: Seq<char>) -> bool {
    byte_length(document) <= MAX_DOCUMENT_BYTES
}

/// Tells whether the HTML parser takes a document of this length.
pub fn document_fits(html: &str) -> (fits: bool)
    ensures
        fits == fits_parser(html@),
{
    html.len() <= MAX_DOCUMENT_BYTES
}

/// The text content of each element of the HTML document `document` that
/// the CSS selector `selector` matches, in the order in which the document
/// yields them; `None` when `selector` is no valid selector.
pub uninterp spec fn element_texts(document: Seq<char>, selector: Seq<char>) -> Option<
    Seq<Seq<char>>,
>;

/// The value of `attribute` on each element of the HTML document `document`
/// that the CSS selector `selector` matches, `None` for an element without
/// the attribute; `None` as a whole when `selector` is no valid selector.
pub uninterp spec fn element_attributes(
    document: Seq<char>,
    selector: Seq<char>,
    attribute: Seq<char>,
) -> Option<Seq<Option<Seq<char>>>>;

/// The view of optional texts.
pub open spec fn texts_view(texts: Option<Vec<String>>) -> Option<Seq<Seq<char>>> {
    match texts {
        Some(t) => Some(views(t@)),
        None => None,
    }
}

/// The view of optional attribute values.
pub open spec fn attributes_view(values: Option<Vec<Option<String>>>) -> Option<
    Seq<Option<Seq<char>>>,
> {
    match values {
        Some(v) => Some(Seq::new(v@.len(), |i: int| text_view(v@[i]))),
        None => None,
    }
}

/// Parses `selector` with `Selector::parse` and `document` with
/// `Html::parse_document`, and collects the text of every element that
/// `Html::select` yields. The result depends on the two texts alone, and is
/// what `element_texts` names. The parser can panic on a document of more
/// than `MAX_DOCUMENT_BYTES` bytes, so such a document is left out.
#[verifier::external_body]
fn select_texts(document: &str, selector: &str) -> (texts: Option<Vec<String>>)
    requires
        fits_parser(document@),
    ensures
        texts_view(texts) == element_texts(document@, selector@),
{
    match Selector::parse(selector) {
        Ok(parsed) => Some(
            Html::parse_document(document).select(&parsed).map(|e| e.text().collect()).collect(),
        ),
        Err(_) => None,
    }
}

/// Parses `selector` with `Selector::parse` and `document` with
/// `Html::parse_document`, and collects the value of `attribute` from every
/// element that `Html::select` yields. The result depends on the three texts
/// alone, and is what `element_attributes` names. The parser can panic on
/// a document of more than `MAX_DOCUMENT_BYTES` bytes, so such a document
/// is left out.
#[verifier::external_body]
fn select_attributes(document: &str, selector: &str, attribute: &str) -> (values: Option<
    Vec<Option<String>>,
>)
    requires
        fits_parser(document@),
    ensures
        attributes_view(values) == element_attributes(document@, selector@, attribute@),
{
    match Selector::parse(selector) {
        Ok(parsed) => Some(
            Html::parse_document(document).select(&parsed).map(
                |e| e.value().attr(attribute).map(String::from),
            ).collect(),
        ),
        Err(_) => None,
    }
}

/// How redirects are followed while a site is crawled.
#[derive(Clone, Copy, Debug, PartialEq, Eq, Structural)]
pub enum RedirectPolicy {
    /// Follow any redirect.
    Loose,
    /// Follow redirects within the site only.
    Strict,
}

/// The extraction configuration of one domain.
#[derive(Debug)]
pub struct DocExtractor {
    /// The domain the configuration belongs to.
    pub domain: String,
    /// Whether the site's robots policy is honoured.
    pub respect_robots_txt: bool,
    /// How redirects are followed.
    pub redirect_policy: RedirectPolicy,
    /// Selects the code blocks, where the site has any to extract.
    pub code_selector: Option<String>,
    /// Selects the API items, where the site has any to extract.
    pub api_selector: Option<String>,
}

/// The mathematical content of a [`DocExtractor`].
pub struct DocExtractorView {
    pub domain: Seq<char>,
    pub respect_robots_txt: bool,
    pub redirect_policy: RedirectPolicy,
    pub code_selector: Option<Seq<char>>,
    pub api_selector: Option<Seq<char>>,
}

impl View for DocExtractor {
    type V = DocExtractorView;

    open spec fn view(&self) -> DocExtractorView {
        DocExtractorView {
            domain: self.domain@,
            respect_robots_txt: self.respect_robots_txt,
            redirect_policy: self.redirect_policy,
            code_selector: text_view(self.code_selector),
            api_selector: text_view(self.api_selector),
        }
    }
}

/// The configuration a domain starts with: robots policy honoured, strict
/// redirects, no code blocks and no API items.
pub open spec fn fresh_extractor(domain: Seq<char>) -> DocExtractorView {
    DocExtractorView {
        domain,
        respect_robots_txt: true,
        redirect_policy: RedirectPolicy::Strict,
        code_selector: None,
        api_selector: None,
    }
}

/// The texts that a selector yields, none where the selector is invalid.
pub open spec fn texts_or_none(texts: Option<Seq<Seq<char>>>) -> Seq<Seq<char>> {
    match texts {
        Some(t) => t,
        None => Seq::empty(),
    }
}

/// The texts that an optional selector yields in `document`.
pub open spec fn optional_texts(document: Seq<char>, selector: Option<Seq<char>>) -> Seq<
    Seq<char>,
> {
    match selector {
        Some(s) => texts_or_none(element_texts(document, s)),
        None => Seq::empty(),
    }
}

/// The first of `texts`, or the empty text.
pub open spec fn first_or_empty(texts: Seq<Seq<char>>) -> Seq<char> {
    if texts.len() > 0 {
        texts[0]
    } else {
        Seq::empty()
    }
}

/// The record assembled from what the selectors yield.
pub open spec fn content_from(
    titles: Seq<Seq<char>>,
    blocks: Seq<Seq<char>>,
    headings: Seq<Seq<char>>,
    code_blocks: Seq<Seq<char>>,
    api_items: Seq<Seq<char>>,
) -> ExtractedContentView {
    ExtractedContentView {
        title: first_or_empty(titles),
        content: blocks,
        headings,
        code_blocks,
        api_items,
    }
}

/// What `extractor` extracts from `document`.
pub open spec fn extracted_from(extractor: DocExtractorView, document: Seq<char>)
    -> ExtractedContentView {
    content_from(
        texts_or_none(element_texts(document, TITLE_SELECTOR@)),
        texts_or_none(element_texts(document, CONTENT_SELECTOR@)),
        texts_or_none(element_texts(document, HEADING_SELECTOR@)),
        optional_texts(document, extractor.code_selector),
        optional_texts(document, extractor.api_selector),
    )
}

/// The link texts of a page: the target attribute of every hyperlink, the
/// empty text where a hyperlink has none.
pub open spec fn link_texts_from(values: Option<Seq<Option<Seq<char>>>>) -> Seq<Seq<char>> {
    match values {
        Some(v) => Seq::new(
            v.len(),
            |i: int|
                match v[i] {
                    Some(target) => target,
                    None => Seq::empty(),
                },
        ),
        None => Seq::empty(),
    }
}

/// The link texts of `document`.
pub open spec fn link_texts_of(document: Seq<char>) -> Seq<Seq<char>> {
    link_texts_from(element_attributes(document, LINK_SELECTOR@, LINK_ATTRIBUTE@))
}

/// Copies an optional text.
fn copy_text(text: &Option<String>) -> (copy: Option<String>)
    ensures
        text_view(copy) == text_view(*text),
{
    match text {
        Some(t) => Some(t.clone()),
        None => None,
    }
}

/// Assembles the record of a page from what its selectors yielded: the
/// title is the first title text, or empty.
pub fn assemble_content(
    titles: Vec<String>,
    blocks: Vec<String>,
    headings: Vec<String>,
    code_blocks: Vec<String>,
    api_items: Vec<String>,
) -> (content: ExtractedContent)
    ensures
        content@ == content_from(
            views(titles@),
            views(blocks@),
            views(headings@),
            views(code_blocks@),
            views(api_items@),
        ),
{
    let title = if titles.len() > 0 {
        titles[0].clone()
    } else {
        String::new()
    };
    ExtractedContent { title, content: blocks, headings, code_blocks, api_items }
}

/// Turns the target attributes of a page's hyperlinks into link texts.
pub fn link_texts(values: Option<Vec<Option<String>>>) -> (links: Vec<String>)
    ensures
        views(links@) == link_texts_from(attributes_view(values)),
{
    let mut links: Vec<String> = Vec::new();
    match values {
        Some(targets) => {
            let mut i: usize = 0;
            while i < targets.len()
                invariant
                    i <= targets.len(),
                    views(links@) == link_texts_from(attributes_view(Some(targets))).take(
                        i as int,
                    ),
                decreases targets.len() - i,
            {
                let link = match &targets[i] {
                    Some(target) => target.clone(),
                    None => String::new(),
                };
                proof {
                    let values = attributes_view(Some(targets)).unwrap();
                    let all = link_texts_from(Some(values));
                    assert(values[i as int] == text_view(targets@[i as int]));
                    assert(all[i as int] == link@);
                    assert(views(links@.push(link)) =~= views(links@).push(link@));
                    assert(all.take(i as int).push(all[i as int]) =~= all.take(i + 1));
                }
                links.push(link);
                i += 1;
            }
            assert(views(links@) =~= link_texts_from(attributes_view(Some(targets))));
        },
        None => {
            assert(views(links@) =~= Seq::<Seq<char>>::empty());
        },
    }
    links
}

/// The texts that `selector` yields in `document`, none where the selector
/// is invalid.
fn texts_in(document: &str, selector: &str) -> (texts: Vec<String>)
    requires
        fits_parser(document@),
    ensures
        views(texts@) == texts_or_none(element_texts(document@, selector@)),
{
    match select_texts(document, selector) {
        Some(texts) => texts,
        None => {
            let texts: Vec<String> = Vec::new();
            assert(views(texts@) =~= Seq::<Seq<char>>::empty());
            texts
        },
    }
}

/// The texts that an optional selector yields in `document`.
fn optional_texts_in(document: &str, selector: &Option<String>) -> (texts: Vec<String>)
    requires
        fits_parser(document@),
    ensures
        views(texts@) == optional_texts(document@, text_view(*selector)),
{
    match selector {
        Some(s) => texts_in(document, s.as_str()),
        None => {
            let texts: Vec<String> = Vec::new();
            assert(views(texts@) =~= Seq::<Seq<char>>::empty());
            texts
        },
    }
}

impl DocExtractor {
    /// The configuration that `domain` starts with.
    pub fn for_domain(domain: &str) -> (extractor: Self)
        ensures
            extractor@ == fresh_extractor(domain@),
    {
        DocExtractor {
            domain: domain.to_owned(),
            respect_robots_txt: true,
            redirect_policy: RedirectPolicy::Strict,
            code_selector: None,
            api_selector: None,
        }
    }

    /// Creates the extraction configuration of `domain`. Always succeeds.
    pub fn new(domain: &str) -> (extractor: Result<Self, CrawlError>)
        ensures
            extractor is Ok,
            extractor.unwrap()@ == fresh_extractor(domain@),
    {
        Ok(Self::for_domain(domain))
    }

    /// The same configuration, extracting code blocks with `selector`.
    pub fn with_code_blocks(self, selector: &str) -> (extractor: Self)
        ensures
            extractor@ == (DocExtractorView { code_selector: Some(selector@), ..self@ }),
    {
        DocExtractor {
            domain: self.domain,
            respect_robots_txt: self.respect_robots_txt,
            redirect_policy: self.redirect_policy,
            code_selector: Some(selector.to_owned()),
            api_selector: self.api_selector,
        }
    }

    /// The same configuration, extracting API items with `selector`.
    pub fn with_api_items(self, selector: &str) -> (extractor: Self)
        ensures
            extractor@ == (DocExtractorView { api_selector: Some(selector@), ..self@ }),
    {
        DocExtractor {
            domain: self.domain,
            respect_robots_txt: self.respect_robots_txt,
            redirect_policy: self.redirect_policy,
            code_selector: self.code_selector,
            api_selector: Some(selector.to_owned()),
        }
    }

    /// A copy of this configuration.
    pub fn duplicate(&self) -> (copy: Self)
        ensures
            copy@ == self@,
    {
        DocExtractor {
            domain: self.domain.clone(),
            respect_robots_txt: self.respect_robots_txt,
            redirect_policy: self.redirect_policy,
            code_selector: copy_text(&self.code_selector),
            api_selector: copy_text(&self.api_selector),
        }
    }

    /// Extracts the canonical record from the HTML text of a page that the
    /// parser takes. Missing elements give empty fields.
    pub fn extract(&self, html: &str) -> (content: ExtractedContent)
        requires
            fits_parser(html@),
        ensures
            content@ == extracted_from(self@, html@),
    {
        let titles = texts_in(html, TITLE_SELECTOR);
        let blocks = texts_in(html, CONTENT_SELECTOR);
        let headings = texts_in(html, HEADING_SELECTOR);
        let code_blocks = optional_texts_in(html, &self.code_selector);
        let api_items = optional_texts_in(html, &self.api_selector);
        assemble_content(titles, blocks, headings, code_blocks, api_items)
    }

    /// Extracts the canonical record from the HTML text of a page that the
    /// parser takes. Missing elements give empty fields; extraction never
    /// fails.
    pub fn extract_content(&self, html: &str) -> (content: Result<ExtractedContent, CrawlError>)
        requires
            fits_parser(html@),
        ensures
            content is Ok,
            content.unwrap()@ == extracted_from(self@, html@),
    {
        Ok(self.extract(html))
    }
}

/// Lists the link texts of the page with the HTML text `html`, which the
/// parser takes.
pub fn page_links(html: &str) -> (links: Vec<String>)
    requires
        fits_parser(html@),
    ensures
        views(links@) == link_texts_of(html@),
{
    link_texts(select_attributes(html, LINK_SELECTOR, LINK_ATTRIBUTE))
}

} // verus!
