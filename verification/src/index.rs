//! The documents of the full-text index and the writes that change it.
//!
//! The index itself lives outside the library. The library says which writes
//! must be done, as a list of [`WriteAction`]s, and states what those writes
//! do to an index in a model: a sequence of live documents and the sequence
//! that readers see, which changes only at a commit.

use vstd::prelude::*;

verus! {

/// One crawled page as it is stored in the index.
#[derive(Debug)]
pub struct Document {
    /// The page title, empty if the page has none.
    pub title: String,
    /// The visible body text, one block per line.
    pub content: String,
    /// The canonical URL, the identity key of the page.
    pub url: String,
    /// The URL as it was fetched, where it differs from the canonical one.
    pub url_raw: Option<String>,
    /// The domain the page is counted under.
    pub domain: String,
    /// The heading texts, one per line.
    pub headings: String,
    /// The code blocks, one per line.
    pub code_blocks: String,
    /// The API items, one per line.
    pub api_items: String,
    /// When the page was last crawled, in milliseconds since the Unix epoch.
    pub scraped_at: i64,
}

/// The mathematical content of a [`Document`].
pub struct DocumentView {
    pub title: Seq<char>,
    pub content: Seq<char>,
    pub url: Seq<char>,
    pub url_raw: Option<Seq<char>>,
    pub domain: Seq<char>,
    pub headings: Seq<char>,
    pub code_blocks: Seq<char>,
    pub api_items: Seq<char>,
    pub scraped_at: i64,
}

impl View for Document {
    type V = DocumentView;

    open spec fn view(&self) -> DocumentView {
        DocumentView {
            title: self.title@,
            content: self.content@,
            url: self.url@,
            url_raw: match self.url_raw {
                Some(raw) => Some(raw@),
                None => None,
            },
            domain: self.domain@,
            headings: self.headings@,
            code_blocks: self.code_blocks@,
            api_items: self.api_items@,
            scraped_at: self.scraped_at,
        }
    }
}

/// One write to the index.
#[derive(Debug)]
pub enum WriteAction {
    /// Append one document.
    Insert(Document),
    /// Remove every document whose URL key is the given one.
    DeleteByUrl(String),
    /// Make the writes so far visible to readers.
    Commit,
}

/// The mathematical content of a [`WriteAction`].
pub enum WriteActionView {
    Insert(DocumentView),
    DeleteByUrl(Seq<char>),
    Commit,
}

impl View for WriteAction {
    type V = WriteActionView;

    open spec fn view(&self) -> WriteActionView {
        match self {
            WriteAction::Insert(document) => WriteActionView::Insert(document@),
            WriteAction::DeleteByUrl(key) => WriteActionView::DeleteByUrl(key@),
            WriteAction::Commit => WriteActionView::Commit,
        }
    }
}

/// The views of a sequence of writes.
pub open spec fn write_views(actions: Seq<WriteAction>) -> Seq<WriteActionView> {
    Seq::new(actions.len(), |i: int| actions[i]@)
}

// ---------------------------------------------------------------------------
// The write plan of one page
// ---------------------------------------------------------------------------

/// The writes that store `document`: where it supersedes an older copy, the
/// deletion of every document with its URL comes first; the insertion and
/// one commit follow.
pub open spec fn write_plan_of(document: DocumentView, superseding: bool) -> Seq<WriteActionView> {
    if superseding {
        seq![
            WriteActionView::DeleteByUrl(document.url),
            WriteActionView::Insert(document),
            WriteActionView::Commit,
        ]
    } else {
        seq![WriteActionView::Insert(document), WriteActionView::Commit]
    }
}

/// Lists the writes that store `document`. Deletion of the superseded copy
/// and insertion of the new one share one commit, so that a reader sees the
/// old copy or the new one and never neither.
pub fn write_plan(document: Document, superseding: bool) -> (actions: Vec<WriteAction>)
    ensures
        write_views(actions@) == write_plan_of(document@, superseding),
{
    let mut actions: Vec<WriteAction> = Vec::new();
    if superseding {
        actions.push(WriteAction::DeleteByUrl(document.url.clone()));
    }
    actions.push(WriteAction::Insert(document));
    actions.push(WriteAction::Commit);
    assert(write_views(actions@) =~= write_plan_of(document@, superseding));
    actions
}

// ---------------------------------------------------------------------------
// A model of the index
// ---------------------------------------------------------------------------

/// The state of an index: the documents that the writer holds, and the
/// documents that a reader sees.
pub struct IndexModel {
    pub live: Seq<DocumentView>,
    pub visible: Seq<DocumentView>,
}

/// How many of `documents` have the URL key `key`.
pub open spec fn count_url(documents: Seq<DocumentView>, key: Seq<char>) -> nat
    decreases documents.len(),
{
    if documents.len() == 0 {
        0
    } else {
        count_url(documents.drop_last(), key) + if documents.last().url == key {
            1nat
        } else {
            0nat
        }
    }
}

/// `documents` without those whose URL key is `key`, order kept.
pub open spec fn without_url(documents: Seq<DocumentView>, key: Seq<char>) -> Seq<DocumentView>
    decreases documents.len(),
{
    if documents.len() == 0 {
        Seq::empty()
    } else if documents.last().url == key {
        without_url(documents.drop_last(), key)
    } else {
        without_url(documents.drop_last(), key).push(documents.last())
    }
}

/// The first of `documents` whose URL key is `key`.
pub open spec fn find_url(documents: Seq<DocumentView>, key: Seq<char>) -> Option<DocumentView>
    decreases documents.len(),
{
    if documents.len() == 0 {
        None
    } else {
        match find_url(documents.drop_last(), key) {
            Some(found) => Some(found),
            None => if documents.last().url == key {
                Some(documents.last())
            } else {
                None
            },
        }
    }
}

/// The index after one write.
pub open spec fn apply_write(index: IndexModel, action: WriteActionView) -> IndexModel {
    match action {
        WriteActionView::Insert(document) => IndexModel {
            live: index.live.push(document),
            visible: index.visible,
        },
        WriteActionView::DeleteByUrl(key) => IndexModel {
            live: without_url(index.live, key),
            visible: index.visible,
        },
        WriteActionView::Commit => IndexModel { live: index.live, visible: index.live },
    }
}

/// The index after a sequence of writes, done in order.
pub open spec fn apply_writes(index: IndexModel, actions: Seq<WriteActionView>) -> IndexModel
    decreases actions.len(),
{
    if actions.len() == 0 {
        index
    } else {
        apply_write(apply_writes(index, actions.drop_last()), actions.last())
    }
}

/// No URL key occurs on more than one of `documents`.
pub open spec fn unique_urls(documents: Seq<DocumentView>) -> bool {
    forall|key: Seq<char>| count_url(documents, key) <= 1
}

/// Every write is committed, and no URL key occurs twice.
pub open spec fn settled(index: IndexModel) -> bool {
    index.live == index.visible && unique_urls(index.live)
}

/// Appending a document raises the count of its URL key by one and leaves
/// every other count as it was.
pub proof fn lemma_count_push(documents: Seq<DocumentView>, document: DocumentView, key: Seq<char>)
    ensures
        count_url(documents.push(document), key) == count_url(documents, key) + if document.url
            == key {
            1nat
        } else {
            0nat
        },
{
    assert(documents.push(document).drop_last() =~= documents);
}

/// Deleting by a URL key leaves no document with that key and keeps the
/// count of every other key.
pub proof fn lemma_count_without(documents: Seq<DocumentView>, deleted: Seq<char>, key: Seq<char>)
    ensures
        count_url(without_url(documents, deleted), key) == if key == deleted {
            0nat
        } else {
            count_url(documents, key)
        },
    decreases documents.len(),
{
    if documents.len() > 0 {
        lemma_count_without(documents.drop_last(), deleted, key);
        if documents.last().url != deleted {
            lemma_count_push(without_url(documents.drop_last(), deleted), documents.last(), key);
        }
    }
}

/// A lookup finds a document exactly when the key occurs, and what it finds
/// has the key.
pub proof fn lemma_find_url(documents: Seq<DocumentView>, key: Seq<char>)
    ensures
        find_url(documents, key) is Some <==> count_url(documents, key) > 0,
        find_url(documents, key) is Some ==> find_url(documents, key).unwrap().url == key,
    decreases documents.len(),
{
    if documents.len() > 0 {
        lemma_find_url(documents.drop_last(), key);
    }
}

/// The writes of one page, done on a settled index: readers then see every
/// other URL key as often as before, and the page's key exactly once when an
/// older copy was superseded, or once more than before when none was.
pub proof fn lemma_write_plan_effect(index: IndexModel, document: DocumentView, superseding: bool, key: Seq<char>)
    requires
        index.live == index.visible,
    ensures
        ({
            let after = apply_writes(index, write_plan_of(document, superseding));
            &&& after.live == after.visible
            &&& key != document.url ==> count_url(after.visible, key) == count_url(
                index.visible,
                key,
            )
            &&& superseding ==> count_url(after.visible, document.url) == 1
            &&& !superseding ==> count_url(after.visible, document.url) == count_url(
                index.visible,
                document.url,
            ) + 1
        }),
{
    let plan = write_plan_of(document, superseding);
    if superseding {
        let deleted = apply_write(index, plan[0]);
        let inserted = apply_write(deleted, plan[1]);
        let committed = apply_write(inserted, plan[2]);
        assert(plan.drop_last().drop_last().drop_last() =~= Seq::empty());
        assert(apply_writes(index, plan.drop_last().drop_last().drop_last()) == index);
        assert(plan.drop_last().drop_last().last() == plan[0]);
        assert(apply_writes(index, plan.drop_last().drop_last()) == deleted);
        assert(plan.drop_last().last() == plan[1]);
        assert(apply_writes(index, plan.drop_last()) == inserted);
        assert(apply_writes(index, plan) == committed);
        lemma_count_without(index.live, document.url, key);
        lemma_count_without(index.live, document.url, document.url);
        lemma_count_push(deleted.live, document, key);
        lemma_count_push(deleted.live, document, document.url);
    } else {
        let inserted = apply_write(index, plan[0]);
        let committed = apply_write(inserted, plan[1]);
        assert(plan.drop_last().drop_last() =~= Seq::empty());
        assert(apply_writes(index, plan.drop_last().drop_last()) == index);
        assert(plan.drop_last().last() == plan[0]);
        assert(apply_writes(index, plan.drop_last()) == inserted);
        assert(apply_writes(index, plan) == committed);
        lemma_count_push(index.live, document, key);
        lemma_count_push(index.live, document, document.url);
    }
}

/// Readers never see a superseded page missing: before the commit of its
/// write plan they see the index as it was, after it they see the new copy.
pub proof fn lemma_supersede_is_atomic(index: IndexModel, document: DocumentView, done: int)
    requires
        index.live == index.visible,
        0 <= done <= 3,
    ensures
        ({
            let plan = write_plan_of(document, true);
            let reached = apply_writes(index, plan.take(done));
            if done < 3 {
                reached.visible == index.visible
            } else {
                count_url(reached.visible, document.url) == 1
            }
        }),
{
    let plan = write_plan_of(document, true);
    assert(plan.take(0) =~= Seq::empty());
    assert(plan.take(1).drop_last() =~= plan.take(0));
    assert(plan.take(2).drop_last() =~= plan.take(1));
    assert(plan.take(3) =~= plan);
    assert(apply_writes(index, plan.take(0)) == index);
    assert(apply_writes(index, plan.take(1)) == apply_write(index, plan[0]));
    assert(apply_writes(index, plan.take(2)).visible == index.visible);
    if done == 3 {
        lemma_write_plan_effect(index, document, true, document.url);
    }
}

} // verus!
