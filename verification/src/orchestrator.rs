//! What a crawl run is set up with: the schema of the index, the settings of
//! the crawler, the seed URL of each site, and the batches in which the
//! sites are crawled.
//!
//! The driver creates the index, configures the crawler and runs the loop;
//! the values it does so with are decided here.

use crate::text::views;
use vstd::prelude::*;
use vstd::string::StringExecFns;

verus! {

/// Shortest pause between two fetches from one domain, in milliseconds.
pub const MIN_REQUEST_DELAY_MS: u64 = 500;

/// Longest pause between two fetches from one domain, in milliseconds.
pub const MAX_REQUEST_DELAY_MS: u64 = 2000;

/// Fetches that may be in flight at once.
pub const MAX_CONCURRENT_REQUESTS: usize = 10;

/// Sites that are crawled together before the next ones are started.
pub const SITES_PER_BATCH: usize = 1;

/// The settings of the crawler.
#[derive(Clone, Copy, Debug, PartialEq, Eq, Structural)]
pub struct CrawlerSettings {
    /// Bounds of the random pause between two fetches from one domain.
    pub min_delay_ms: u64,
    pub max_delay_ms: u64,
    /// Fetches that may be in flight at once.
    pub max_concurrent_requests: usize,
    /// Whether the robots policy of a site is honoured.
    pub respect_robots_txt: bool,
    /// Sites that are crawled together.
    pub sites_per_batch: usize,
}

/// The default settings.
pub open spec fn default_settings() -> CrawlerSettings {
    CrawlerSettings {
        min_delay_ms: MIN_REQUEST_DELAY_MS,
        max_delay_ms: MAX_REQUEST_DELAY_MS,
        max_concurrent_requests: MAX_CONCURRENT_REQUESTS,
        respect_robots_txt: true,
        sites_per_batch: SITES_PER_BATCH,
    }
}

/// Settings are usable when the pause bounds are in order and at least one
/// site is crawled at a time.
pub open spec fn settings_usable(settings: CrawlerSettings) -> bool {
    settings.min_delay_ms <= settings.max_delay_ms && settings.sites_per_batch > 0
        && settings.max_concurrent_requests > 0
}

/// Returns the default settings: a pause of half a second to two seconds,
/// ten fetches in flight, robots policy honoured, one site at a time.
pub fn crawler_settings() -> (settings: CrawlerSettings)
    ensures
        settings == default_settings(),
        settings_usable(settings),
{
    CrawlerSettings {
        min_delay_ms: MIN_REQUEST_DELAY_MS,
        max_delay_ms: MAX_REQUEST_DELAY_MS,
        max_concurrent_requests: MAX_CONCURRENT_REQUESTS,
        respect_robots_txt: true,
        sites_per_batch: SITES_PER_BATCH,
    }
}

/// The kind of values a field of the index holds.
#[derive(Clone, Copy, Debug, PartialEq, Eq, Structural)]
pub enum FieldKind {
    /// Text that is tokenised for full-text queries.
    Text,
    /// Text or bytes kept as one term.
    Raw,
    /// A timestamp with millisecond precision.
    Date,
}

/// A field of the index schema.
#[derive(Clone, Copy, Debug)]
pub struct FieldSpec {
    pub name: &'static str,
    pub kind: FieldKind,
    /// Whether queries can match the field.
    pub indexed: bool,
    /// Whether the value can be read back from a hit.
    pub stored: bool,
}

/// The mathematical content of a [`FieldSpec`].
pub struct FieldSpecView {
    pub name: Seq<char>,
    pub kind: FieldKind,
    pub indexed: bool,
    pub stored: bool,
}

impl View for FieldSpec {
    type V = FieldSpecView;

    open spec fn view(&self) -> FieldSpecView {
        FieldSpecView {
            name: self.name@,
            kind: self.kind,
            indexed: self.indexed,
            stored: self.stored,
        }
    }
}

/// The views of a sequence of fields.
pub open spec fn field_views(fields: Seq<FieldSpec>) -> Seq<FieldSpecView> {
    Seq::new(fields.len(), |i: int| fields[i]@)
}

/// A field that is tokenised, matched by queries and read back.
pub open spec fn text_field(name: Seq<char>) -> FieldSpecView {
    FieldSpecView { name, kind: FieldKind::Text, indexed: true, stored: true }
}

/// A field that is kept as one term, matched exactly and read back.
pub open spec fn raw_field(name: Seq<char>) -> FieldSpecView {
    FieldSpecView { name, kind: FieldKind::Raw, indexed: true, stored: true }
}

/// The schema of the index: every field of a document is stored; title,
/// content, headings, code blocks and API items are full text; the URL key,
/// the fetched URL and the domain are each kept as one term, so that a
/// document is found and deleted by its exact key; the crawl time is a date.
pub open spec fn schema_of() -> Seq<FieldSpecView> {
    seq![
        text_field("title"@),
        text_field("content"@),
        raw_field("url"@),
        raw_field("url_raw"@),
        raw_field("domain"@),
        text_field("headings"@),
        text_field("code_blocks"@),
        text_field("api_items"@),
        FieldSpecView { name: "scraped_at"@, kind: FieldKind::Date, indexed: true, stored: true },
    ]
}

/// Lists the fields that the index is created with.
pub fn schema_fields() -> (fields: Vec<FieldSpec>)
    ensures
        field_views(fields@) == schema_of(),
{
    let mut fields: Vec<FieldSpec> = Vec::new();
    fields.push(FieldSpec { name: "title", kind: FieldKind::Text, indexed: true, stored: true });
    fields.push(FieldSpec { name: "content", kind: FieldKind::Text, indexed: true, stored: true });
    fields.push(FieldSpec { name: "url", kind: FieldKind::Raw, indexed: true, stored: true });
    fields.push(FieldSpec { name: "url_raw", kind: FieldKind::Raw, indexed: true, stored: true });
    fields.push(FieldSpec { name: "domain", kind: FieldKind::Raw, indexed: true, stored: true });
    fields.push(FieldSpec { name: "headings", kind: FieldKind::Text, indexed: true, stored: true });
    fields.push(
        FieldSpec { name: "code_blocks", kind: FieldKind::Text, indexed: true, stored: true },
    );
    fields.push(FieldSpec { name: "api_items", kind: FieldKind::Text, indexed: true, stored: true });
    fields.push(
        FieldSpec { name: "scraped_at", kind: FieldKind::Date, indexed: true, stored: true },
    );
    assert(field_views(fields@) =~= schema_of());
    fields
}

/// The URL at which the crawl of `site` starts.
pub open spec fn seed_url_of(site: Seq<char>) -> Seq<char> {
    "https://"@ + site
}

/// Returns the URL at which the crawl of `site` starts.
pub fn seed_url(site: &str) -> (url: String)
    ensures
        url@ == seed_url_of(site@),
{
    let mut url = String::from_str("https://");
    url.append(site);
    url
}

/// The number of batches that `sites` sites fall into.
pub open spec fn batch_count(sites: nat, width: nat) -> nat
    recommends
        width > 0,
{
    ((sites + width - 1) / (width as int)) as nat
}

/// The batch with the given number: `width` sites, fewer in the last batch.
pub open spec fn batch_of(sites: Seq<Seq<char>>, width: nat, number: int) -> Seq<Seq<char>> {
    let from = number * width;
    let to = if from + width <= sites.len() {
        from + width
    } else {
        sites.len() as int
    };
    sites.subrange(from, to)
}

/// The batches in which `sites` are crawled: consecutive runs of `width`
/// sites in configured order, each site in exactly one batch.
pub open spec fn batches_of(sites: Seq<Seq<char>>, width: nat) -> Seq<Seq<Seq<char>>> {
    Seq::new(batch_count(sites.len(), width), |number: int| batch_of(sites, width, number))
}

/// The views of a sequence of batches.
pub open spec fn batch_views(batches: Seq<Vec<String>>) -> Seq<Seq<Seq<char>>> {
    Seq::new(batches.len(), |i: int| views(batches[i]@))
}

/// Splits `sites` into the batches in which they are crawled. A batch is
/// finished before the next one is started.
pub fn domain_batches(sites: &Vec<String>, width: usize) -> (batches: Vec<Vec<String>>)
    requires
        width > 0,
    ensures
        batch_views(batches@) == batches_of(views(sites@), width as nat),
{
    let mut batches: Vec<Vec<String>> = Vec::new();
    let mut from: usize = 0;
    proof {
        assert(batch_views(batches@) =~= batches_of(views(sites@), width as nat).take(0));
        if sites.len() == 0 {
            assert(batch_count(0, width as nat) == 0) by (nonlinear_arith)
                requires
                    width > 0,
            ;
        }
    }
    while from < sites.len()
        invariant
            width > 0,
            from <= sites.len(),
            batches.len() <= batch_count(sites.len() as nat, width as nat),
            from == sites.len() ==> batches.len() == batch_count(sites.len() as nat, width as nat),
            from < sites.len() ==> from == batches.len() * width,
            batch_views(batches@) == batches_of(views(sites@), width as nat).take(
                batches.len() as int,
            ),
        decreases sites.len() - from,
    {
        let ghost number = batches.len() as int;
        let to = if width <= sites.len() - from {
            from + width
        } else {
            sites.len()
        };
        proof {
            lemma_batch_count(sites.len() as nat, width as nat, number as nat);
        }
        let mut batch: Vec<String> = Vec::new();
        let mut i: usize = from;
        assert(views(batch@) =~= views(sites@).subrange(from as int, from as int));
        while i < to
            invariant
                from <= i <= to <= sites.len(),
                views(batch@) == views(sites@).subrange(from as int, i as int),
            decreases to - i,
        {
            let site = sites[i].clone();
            proof {
                let all = views(sites@);
                assert(views(batch@.push(site)) =~= views(batch@).push(site@));
                assert(all.subrange(from as int, i as int).push(all[i as int]) =~= all.subrange(
                    from as int,
                    i + 1,
                ));
            }
            batch.push(site);
            i += 1;
        }
        proof {
            let all = batches_of(views(sites@), width as nat);
            assert(all[number] == views(batch@));
            assert(batch_views(batches@.push(batch)) =~= batch_views(batches@).push(views(batch@)));
            assert(all.take(number).push(all[number]) =~= all.take(number + 1));
            if to < sites.len() {
                assert(to == (number + 1) * width) by (nonlinear_arith)
                    requires
                        to == from + width,
                        from == number * width,
                ;
            } else {
                lemma_last_batch(sites.len() as nat, width as nat, number as nat);
            }
        }
        batches.push(batch);
        from = to;
    }
    proof {
        assert(batches_of(views(sites@), width as nat).take(batches.len() as int)
            =~= batches_of(views(sites@), width as nat));
    }
    batches
}

/// A batch that starts before the end of the sites is one of the batches.
pub proof fn lemma_batch_count(sites: nat, width: nat, number: nat)
    requires
        width > 0,
        number * width < sites,
    ensures
        number < batch_count(sites, width),
{
    assert(number < (sites + width - 1) / (width as int)) by (nonlinear_arith)
        requires
            width > 0,
            number * width < sites,
    ;
}

/// The batch that reaches the end of the sites is the last batch.
pub proof fn lemma_last_batch(sites: nat, width: nat, number: nat)
    requires
        width > 0,
        number * width < sites,
        sites <= number * width + width,
    ensures
        number + 1 == batch_count(sites, width),
{
    assert(number + 1 == (sites + width - 1) / (width as int)) by (nonlinear_arith)
        requires
            width > 0,
            number * width < sites,
            sites <= number * width + width,
    ;
}

/// Every site is in the batch that its position falls into, at the place
/// that its position has there.
pub proof fn lemma_batches_cover(sites: Seq<Seq<char>>, width: nat, position: int)
    requires
        width > 0,
        0 <= position < sites.len(),
    ensures
        0 <= position / (width as int) < batches_of(sites, width).len(),
        0 <= position % (width as int) < batches_of(sites, width)[position / (width as int)].len(),
        batches_of(sites, width)[position / (width as int)][position % (width as int)]
            == sites[position],
{
    let number = position / (width as int);
    let place = position % (width as int);
    assert(number >= 0 && 0 <= place < width && position == number * width + place)
        by (nonlinear_arith)
        requires
            width > 0,
            position >= 0,
            number == position / (width as int),
            place == position % (width as int),
    ;
    lemma_batch_count(sites.len(), width, number as nat);
}

} // verus!
