//! Synchronization of a parsed feed document into the store: each entry is
//! offered as an item keyed by its fingerprint, refusals of single entries
//! are swallowed, and a successful run advances the feed's watermark.

use vstd::prelude::*;
use vstd::string::StringExecFns;
use crate::fingerprint::fingerprint_of;
use crate::model::{retrieve_error, AppError, Feed, FeedView, Item, NormalizedEntry, NormalizedFeed, RetrieveError};
use crate::store::{feed_refusal, has_feed, has_item, insert_feed, insert_item, item_refusal, new_feed, Store, StoreView};

verus! {

/// The text of an optional string, empty when absent.
pub open spec fn text_or_empty(o: Option<String>) -> Seq<char> {
    match o {
        Some(s) => s@,
        None => Seq::empty(),
    }
}

/// Names joined by a comma and a space.
pub open spec fn join_names(names: Seq<Seq<char>>) -> Seq<char>
    decreases names.len(),
{
    if names.len() == 0 {
        Seq::empty()
    } else if names.len() == 1 {
        names[0]
    } else {
        join_names(names.drop_last()) + seq![',', ' '] + names.last()
    }
}

pub open spec fn texts(v: Seq<String>) -> Seq<Seq<char>> {
    v.map_values(|s: String| s@)
}

pub open spec fn entry_title(e: NormalizedEntry) -> Seq<char> {
    text_or_empty(e.title)
}

pub open spec fn entry_content(e: NormalizedEntry) -> Seq<char> {
    text_or_empty(e.content)
}

/// The first link of an entry, if it has one.
pub open spec fn entry_link(e: NormalizedEntry) -> Option<Seq<char>> {
    if e.links@.len() > 0 {
        Some(e.links@[0]@)
    } else {
        None
    }
}

pub open spec fn entry_author(e: NormalizedEntry) -> Seq<char> {
    join_names(texts(e.authors@))
}

/// The fingerprint of an entry: over its title and content only.
pub open spec fn entry_hash(e: NormalizedEntry) -> Seq<char> {
    fingerprint_of(entry_title(e), entry_content(e))
}

/// The store after offering entry `e` of feed `feed_id`, fetched at `now`;
/// absent timestamps default to `now`.
pub open spec fn add_entry(s: StoreView, feed_id: i64, e: NormalizedEntry, now: i64) -> StoreView {
    insert_item(
        s,
        feed_id,
        entry_link(e),
        entry_title(e),
        entry_author(e),
        entry_content(e),
        match e.published_at {
            Some(t) => t,
            None => now,
        },
        match e.updated_at {
            Some(t) => t,
            None => now,
        },
    )
}

/// The store after offering the entries `es` in order.
pub open spec fn ingest(s: StoreView, feed_id: i64, es: Seq<NormalizedEntry>, now: i64) -> StoreView
    decreases es.len(),
{
    if es.len() == 0 {
        s
    } else {
        add_entry(ingest(s, feed_id, es.drop_last(), now), feed_id, es.last(), now)
    }
}

/// The store with the watermark of feed `feed_id` set to `now`.
pub open spec fn set_watermark(s: StoreView, feed_id: i64, now: i64) -> StoreView {
    StoreView {
        feeds: s.feeds.map_values(|f: FeedView| if f.id == feed_id { FeedView { updated_at: now, ..f } } else { f }),
        ..s
    }
}

/// The store after a successful refresh of feed `feed_id` with document `doc`.
pub open spec fn refresh(s: StoreView, feed_id: i64, doc: NormalizedFeed, now: i64) -> StoreView {
    if has_feed(s, feed_id) {
        set_watermark(ingest(s, feed_id, doc.entries@, now), feed_id, now)
    } else {
        s
    }
}

pub open spec fn doc_title(doc: NormalizedFeed) -> Seq<char> {
    text_or_empty(doc.title)
}

/// The first site link of a document, if it has one.
pub open spec fn doc_site(doc: NormalizedFeed) -> Option<Seq<char>> {
    if doc.site_links@.len() > 0 {
        Some(doc.site_links@[0]@)
    } else {
        None
    }
}

/// The store after subscribing to `uri` with document `doc`.
pub open spec fn subscribe(s: StoreView, uri: Seq<char>, doc: NormalizedFeed, now: i64) -> StoreView {
    if feed_refusal(s, uri) is None {
        ingest(insert_feed(s, doc_title(doc), uri, doc_site(doc), now), s.next_feed_id, doc.entries@, now)
    } else {
        s
    }
}

/// Joins author names with a comma and a space.
pub fn join_authors(authors: &Vec<String>) -> (r: String)
    ensures
        r@ == join_names(texts(authors@)),
{
    let ghost names = texts(authors@);
    let mut acc = String::new();
    let mut i: usize = 0;
    while i < authors.len()
        invariant
            i <= authors@.len(),
            names == texts(authors@),
            acc@ == join_names(names.take(i as int)),
        decreases authors@.len() - i,
    {
        proof {
            reveal_strlit(", ");
        }
        if i > 0 {
            acc.append(", ");
        }
        acc.append(authors[i].as_str());
        proof {
            assert(names.take(i + 1).drop_last() =~= names.take(i as int));
            assert(names.take(i + 1).last() == authors@[i as int]@);
        }
        i = i + 1;
    }
    proof {
        assert(names.take(authors@.len() as int) =~= names);
    }
    acc
}

fn text_of(o: &Option<String>) -> (r: String)
    ensures
        r@ == text_or_empty(*o),
{
    match o {
        Some(s) => s.clone(),
        None => String::new(),
    }
}

impl Store {
    /// Offers one parsed entry of feed `feed_id` as an item. An entry whose
    /// fingerprint the feed already holds is no failure: it is already seen,
    /// and the result is `Ok(None)` with the store unchanged.
    pub fn create_item_from_entry(&mut self, feed_id: i64, entry: &NormalizedEntry, now: i64) -> (r: Result<Option<Item>, AppError>)
        requires
            old(self).wf(),
        ensures
            final(self).wf(),
            final(self)@ == add_entry(old(self)@, feed_id, *entry, now),
            r == Ok::<Option<Item>, AppError>(None) <==> has_feed(old(self)@, feed_id) && has_item(old(self)@, feed_id, entry_hash(*entry)),
            r == Ok::<Option<Item>, AppError>(None) ==> final(self)@ == old(self)@,
            r matches Ok(Some(it)) ==> item_refusal(old(self)@, feed_id, entry_hash(*entry)) is None
                && final(self)@.items == old(self)@.items.push(it@),
            r matches Err(e) ==> item_refusal(old(self)@, feed_id, entry_hash(*entry)) == Some(e)
                && e != AppError::Conflict && final(self)@ == old(self)@,
    {
        let title = text_of(&entry.title);
        let content = text_of(&entry.content);
        let link = if entry.links.len() > 0 {
            Some(entry.links[0].clone())
        } else {
            None
        };
        let author = join_authors(&entry.authors);
        let created_at = match entry.published_at {
            Some(t) => t,
            None => now,
        };
        let updated_at = match entry.updated_at {
            Some(t) => t,
            None => now,
        };
        match self.create_item(feed_id, link, title, author, content, created_at, updated_at) {
            Ok(it) => Ok(Some(it)),
            Err(AppError::Conflict) => Ok(None),
            Err(e) => Err(e),
        }
    }

    /// Offers every entry of `doc`, in order, as an item of feed `feed_id`.
    /// A refused entry does not stop the others.
    pub fn update_feed_from_feed(&mut self, feed_id: i64, doc: &NormalizedFeed, now: i64)
        requires
            old(self).wf(),
        ensures
            final(self).wf(),
            final(self)@ == ingest(old(self)@, feed_id, doc.entries@, now),
    {
        let mut i: usize = 0;
        while i < doc.entries.len()
            invariant
                i <= doc.entries@.len(),
                self.wf(),
                self@ == ingest(old(self)@, feed_id, doc.entries@.take(i as int), now),
            decreases doc.entries@.len() - i,
        {
            let _ = self.create_item_from_entry(feed_id, &doc.entries[i], now);
            proof {
                let es = doc.entries@.take(i + 1);
                assert(es.drop_last() =~= doc.entries@.take(i as int));
                assert(es.last() == doc.entries@[i as int]);
            }
            i = i + 1;
        }
        proof {
            assert(doc.entries@.take(doc.entries@.len() as int) =~= doc.entries@);
        }
    }

    /// Sets the watermark of feed `feed_id` to `now`.
    pub fn set_updated_at(&mut self, feed_id: i64, now: i64) -> (r: Result<(), AppError>)
        requires
            old(self).wf(),
        ensures
            final(self).wf(),
            r is Ok <==> has_feed(old(self)@, feed_id),
            r is Ok ==> final(self)@ == set_watermark(old(self)@, feed_id, now),
            r is Err ==> r == Err::<(), AppError>(AppError::NotFound) && final(self)@ == old(self)@,
    {
        match self.feed_index(feed_id) {
            None => Err(AppError::NotFound),
            Some(i) => {
                let mut f = self.feeds[i].duplicate();
                f.updated_at = now;
                let ghost pre = self@;
                self.feeds.set(i, f);
                proof {
                    assert(self@.feeds =~= set_watermark(pre, feed_id, now).feeds);
                    assert forall|k: int| 0 <= k < self@.items.len() implies has_feed(self@, #[trigger] self@.items[k].feed_id) by {
                        let j = choose|j: int| 0 <= j < pre.feeds.len() && pre.feeds[j].id == pre.items[k].feed_id;
                        assert(self@.feeds[j].id == pre.feeds[j].id);
                    }
                }
                Ok(())
            },
        }
    }

    /// Refreshes feed `feed_id` from the outcome of retrieving its document
    /// at `now`. A failed retrieval propagates and changes nothing; a
    /// successful one offers every entry and advances the watermark, and
    /// succeeds whatever became of single entries.
    pub fn update_feed(&mut self, feed_id: i64, retrieved: Result<NormalizedFeed, RetrieveError>, now: i64) -> (r: Result<(), AppError>)
        requires
            old(self).wf(),
        ensures
            final(self).wf(),
            !has_feed(old(self)@, feed_id) ==> r == Err::<(), AppError>(AppError::NotFound) && final(self)@ == old(self)@,
            has_feed(old(self)@, feed_id) ==> match retrieved {
                Err(e) => r == Err::<(), AppError>(retrieve_error(e)) && final(self)@ == old(self)@,
                Ok(doc) => r is Ok && final(self)@ == refresh(old(self)@, feed_id, doc, now),
            },
    {
        if self.feed_index(feed_id).is_none() {
            return Err(AppError::NotFound);
        }
        match retrieved {
            Err(e) => Err(AppError::from_retrieve(e)),
            Ok(doc) => {
                self.update_feed_from_feed(feed_id, &doc, now);
                proof {
                    lemma_ingest_keeps_feeds(old(self)@, feed_id, doc.entries@, now);
                }
                let r = self.set_updated_at(feed_id, now);
                r
            },
        }
    }

    /// Registers feed `uri` from its parsed document: its title, or empty,
    /// and its first site link, if any.
    pub fn create_from_feed(&mut self, uri: &str, doc: &NormalizedFeed, now: i64) -> (r: Result<Feed, AppError>)
        requires
            old(self).wf(),
        ensures
            final(self).wf(),
            final(self)@ == insert_feed(old(self)@, doc_title(*doc), uri@, doc_site(*doc), now),
            match r {
                Ok(f) => feed_refusal(old(self)@, uri@) is None
                    && f@ == new_feed(old(self)@, doc_title(*doc), uri@, doc_site(*doc), now),
                Err(e) => feed_refusal(old(self)@, uri@) == Some(e),
            },
    {
        let title = text_of(&doc.title);
        let site: Option<&str> = if doc.site_links.len() > 0 {
            Some(doc.site_links[0].as_str())
        } else {
            None
        };
        self.create_feed(title.as_str(), uri, site, now)
    }

    /// Subscribes to `uri` from the outcome of retrieving its document at
    /// `now`: registers the feed and offers every entry. A failed retrieval
    /// or an already registered URI propagates and changes nothing.
    pub fn add_and_update_feed(&mut self, uri: &str, retrieved: Result<NormalizedFeed, RetrieveError>, now: i64) -> (r: Result<Feed, AppError>)
        requires
            old(self).wf(),
        ensures
            final(self).wf(),
            match retrieved {
                Err(e) => r == Err::<Feed, AppError>(retrieve_error(e)) && final(self)@ == old(self)@,
                Ok(doc) => final(self)@ == subscribe(old(self)@, uri@, doc, now) && match r {
                    Ok(f) => feed_refusal(old(self)@, uri@) is None
                        && f@ == new_feed(old(self)@, doc_title(doc), uri@, doc_site(doc), now),
                    Err(e) => feed_refusal(old(self)@, uri@) == Some(e),
                },
            },
    {
        match retrieved {
            Err(e) => Err(AppError::from_retrieve(e)),
            Ok(doc) => {
                let feed = self.create_from_feed(uri, &doc, now)?;
                self.update_feed_from_feed(feed.id, &doc, now);
                Ok(feed)
            },
        }
    }
}

/// Offering entries never changes the feeds.
pub proof fn lemma_ingest_keeps_feeds(s: StoreView, feed_id: i64, es: Seq<NormalizedEntry>, now: i64)
    ensures
        ingest(s, feed_id, es, now).feeds == s.feeds,
    decreases es.len(),
{
    if es.len() > 0 {
        lemma_ingest_keeps_feeds(s, feed_id, es.drop_last(), now);
    }
}

} // verus!
