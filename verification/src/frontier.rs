//! The frontier of a crawl run: which pages were already handed to the
//! crawler, so that no page is enqueued twice.
//!
//! Pages are told apart by their canonical URL. The set of canonical URLs is
//! kept in a `DashSet`, reached through two small functions whose contracts
//! are stated over [`visited_urls`], the name of what the set holds.

use crate::text::views;
use crate::urls::{canonical_of, parse_url, CrawlError};
use dashmap::DashSet;
use vstd::prelude::*;

verus! {

#[verifier::external_type_specification]
#[verifier::external_body]
#[verifier::reject_recursive_types(K)]
#[verifier::reject_recursive_types(S)]
pub struct ExDashSet<K, S>(DashSet<K, S>);

/// What a set of visited pages holds: the canonical URLs in it.
pub uninterp spec fn visited_urls(visited: DashSet<String>) -> Set<Seq<char>>;

/// The set before anything was visited.
pub open spec fn nothing_visited() -> Set<Seq<char>> {
    Set::empty()
}

/// `DashSet::new` makes a set that holds nothing.
#[verifier::external_body]
fn new_visited() -> (created: DashSet<String>)
    ensures
        visited_urls(created) == nothing_visited(),
{
    DashSet::new()
}

/// `DashSet::insert`: the key is in the set afterwards, nothing else
/// changes, and the answer tells whether the key was not in the set before.
#[verifier::external_body]
fn visit(visited: &mut DashSet<String>, key: &str) -> (fresh: bool)
    ensures
        visited_urls(*final(visited)) == visited_urls(*old(visited)).insert(key@),
        fresh == !visited_urls(*old(visited)).contains(key@),
{
    visited.insert(key.to_string())
}

/// The visited set after `links` were offered: the canonical URL of every
/// link that has one is in it.
pub open spec fn visited_after(visited: Set<Seq<char>>, links: Seq<Seq<char>>) -> Set<Seq<char>>
    decreases links.len(),
{
    if links.len() == 0 {
        visited
    } else {
        let before = visited_after(visited, links.drop_last());
        match canonical_of(links.last()) {
            Ok(key) => before.insert(key),
            Err(_) => before,
        }
    }
}

/// The links among `links` that are handed to the crawler: those with a
/// canonical URL that neither was visited before nor belongs to an earlier
/// link, in the order of `links`.
pub open spec fn fresh_links(visited: Set<Seq<char>>, links: Seq<Seq<char>>) -> Seq<Seq<char>>
    decreases links.len(),
{
    if links.len() == 0 {
        Seq::empty()
    } else {
        let before = fresh_links(visited, links.drop_last());
        match canonical_of(links.last()) {
            Ok(key) => if visited_after(visited, links.drop_last()).contains(key) {
                before
            } else {
                before.push(links.last())
            },
            Err(_) => before,
        }
    }
}

/// The pages that a crawl run has handed to the crawler.
pub struct Frontier {
    visited: DashSet<String>,
}

impl Frontier {
    /// The canonical URLs of the pages handed out so far.
    pub closed spec fn visited(&self) -> Set<Seq<char>> {
        visited_urls(self.visited)
    }

    /// Starts a run: nothing was visited.
    pub fn new() -> (frontier: Self)
        ensures
            frontier.visited() == nothing_visited(),
    {
        Frontier { visited: new_visited() }
    }

    /// Marks the page at `url` as handed out. Tells whether it was new;
    /// a URL without canonical form is refused and changes nothing.
    pub fn mark(&mut self, url: &str) -> (fresh: Result<bool, CrawlError>)
        ensures
            match canonical_of(url@) {
                Ok(key) => fresh == Ok::<bool, CrawlError>(!old(self).visited().contains(key))
                    && final(self).visited() == old(self).visited().insert(key),
                Err(e) => fresh == Err::<bool, CrawlError>(e) && final(self).visited() == old(
                    self,
                ).visited(),
            },
    {
        match parse_url(url) {
            Ok(key) => Ok(visit(&mut self.visited, key.as_str())),
            Err(e) => Err(e),
        }
    }

    /// Offers `links` to the frontier and returns those to enqueue: each
    /// link whose page was not handed out before, once. Links without
    /// canonical form are dropped.
    pub fn enqueue(&mut self, links: &Vec<String>) -> (fresh: Vec<String>)
        ensures
            views(fresh@) == fresh_links(old(self).visited(), views(links@)),
            final(self).visited() == visited_after(old(self).visited(), views(links@)),
    {
        let mut fresh: Vec<String> = Vec::new();
        let mut i: usize = 0;
        assert(views(links@).take(0) =~= Seq::empty());
        assert(views(fresh@) =~= Seq::<Seq<char>>::empty());
        while i < links.len()
            invariant
                i <= links.len(),
                views(fresh@) == fresh_links(old(self).visited(), views(links@).take(i as int)),
                self.visited() == visited_after(old(self).visited(), views(links@).take(i as int)),
            decreases links.len() - i,
        {
            proof {
                let next = views(links@).take(i + 1);
                assert(next.drop_last() =~= views(links@).take(i as int));
                assert(next.last() == links@[i as int]@);
            }
            match self.mark(links[i].as_str()) {
                Ok(true) => {
                    let link = links[i].clone();
                    proof {
                        assert(views(fresh@.push(link)) =~= views(fresh@).push(link@));
                    }
                    fresh.push(link);
                },
                _ => {},
            }
            i += 1;
        }
        assert(views(links@).take(links.len() as int) =~= views(links@));
        fresh
    }
}

/// Offering links never removes a page from the visited set.
pub proof fn lemma_visited_grows(visited: Set<Seq<char>>, links: Seq<Seq<char>>, key: Seq<char>)
    requires
        visited.contains(key),
    ensures
        visited_after(visited, links).contains(key),
    decreases links.len(),
{
    if links.len() > 0 {
        lemma_visited_grows(visited, links.drop_last(), key);
    }
}

/// Every link that was offered and has a canonical form is visited
/// afterwards.
pub proof fn lemma_offered_is_visited(visited: Set<Seq<char>>, links: Seq<Seq<char>>, at: int)
    requires
        0 <= at < links.len(),
        canonical_of(links[at]) is Ok,
    ensures
        visited_after(visited, links).contains(canonical_of(links[at])->Ok_0),
    decreases links.len(),
{
    if at < links.len() - 1 {
        lemma_offered_is_visited(visited, links.drop_last(), at);
    }
}

/// Every link handed to the crawler has a canonical URL that was not
/// visited before, and no two links handed out share their canonical URL.
pub proof fn lemma_fresh_links_are_new(visited: Set<Seq<char>>, links: Seq<Seq<char>>)
    ensures
        forall|i: int|
            0 <= i < fresh_links(visited, links).len() ==> canonical_of(
                #[trigger] fresh_links(visited, links)[i],
            ) is Ok && !visited.contains(canonical_of(fresh_links(visited, links)[i])->Ok_0)
                && visited_after(visited, links).contains(
                canonical_of(fresh_links(visited, links)[i])->Ok_0,
            ),
        forall|i: int, j: int|
            0 <= i < j < fresh_links(visited, links).len() ==> canonical_of(
                #[trigger] fresh_links(visited, links)[i],
            ) != canonical_of(#[trigger] fresh_links(visited, links)[j]),
    decreases links.len(),
{
    if links.len() > 0 {
        let shorter = links.drop_last();
        let before = fresh_links(visited, shorter);
        let after = fresh_links(visited, links);
        let seen = visited_after(visited, shorter);
        lemma_fresh_links_are_new(visited, shorter);
        match canonical_of(links.last()) {
            Ok(key) => {
                if !seen.contains(key) {
                    assert forall|i: int| 0 <= i < after.len() implies canonical_of(
                        #[trigger] after[i],
                    ) is Ok && !visited.contains(canonical_of(after[i])->Ok_0)
                        && visited_after(visited, links).contains(
                        canonical_of(after[i])->Ok_0,
                    ) by {
                        if i < before.len() {
                            assert(after[i] == before[i]);
                        } else {
                            if visited.contains(key) {
                                lemma_visited_grows(visited, shorter, key);
                            }
                        }
                    }
                    assert forall|i: int, j: int| 0 <= i < j < after.len() implies canonical_of(
                        #[trigger] after[i],
                    ) != canonical_of(#[trigger] after[j]) by {
                        assert(after[i] == before[i]);
                        if j < before.len() {
                            assert(after[j] == before[j]);
                        }
                    }
                } else {
                    assert(after == before);
                }
            },
            Err(_) => {
                assert(after == before);
            },
        }
    }
}

/// Links whose pages were all visited are not handed out, and offering them
/// changes nothing: what was enqueued once is never enqueued again.
pub proof fn lemma_nothing_is_enqueued_twice(visited: Set<Seq<char>>, again: Seq<Seq<char>>)
    requires
        forall|i: int|
            0 <= i < again.len() && canonical_of(#[trigger] again[i]) is Ok ==> visited.contains(
                canonical_of(again[i])->Ok_0,
            ),
    ensures
        fresh_links(visited, again).len() == 0,
        visited_after(visited, again) == visited,
    decreases again.len(),
{
    if again.len() > 0 {
        let shorter = again.drop_last();
        assert forall|i: int| 0 <= i < shorter.len() && canonical_of(
            #[trigger] shorter[i],
        ) is Ok implies visited.contains(canonical_of(shorter[i])->Ok_0) by {
            assert(shorter[i] == again[i]);
        }
        lemma_nothing_is_enqueued_twice(visited, shorter);
        match canonical_of(again.last()) {
            Ok(key) => {
                assert(again[again.len() - 1] == again.last());
                assert(visited.contains(key));
                assert(visited.insert(key) =~= visited);
            },
            Err(_) => {},
        }
    }
}

} // verus!
