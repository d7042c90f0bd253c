//! The store: feeds, items, tags and taggings, with feed URIs unique and
//! items unique per feed and fingerprint.

use vstd::prelude::*;
use crate::fingerprint::{fingerprint, fingerprint_of};
use crate::model::{opt_text, AppError, Feed, FeedView, Item, ItemView, Tag, TagView};

verus! {

/// The largest number of records of one kind that the store holds.
pub const CAPACITY: usize = 1000000000;

/// The largest id that the store hands out.
pub const MAX_ID: i64 = 9223372036854775807;

pub struct StoreView {
    pub feeds: Seq<FeedView>,
    pub items: Seq<ItemView>,
    pub tags: Seq<TagView>,
    pub taggings: Seq<(i64, i64)>,
    pub next_feed_id: i64,
    pub next_item_id: i64,
    pub next_tag_id: i64,
}

/// An in-memory store of feeds, items, tags and taggings. Ids are assigned
/// from counters and never reused.
pub struct Store {
    pub feeds: Vec<Feed>,
    pub items: Vec<Item>,
    pub tags: Vec<Tag>,
    pub taggings: Vec<(i64, i64)>,
    pub next_feed_id: i64,
    pub next_item_id: i64,
    pub next_tag_id: i64,
}

impl View for Store {
    type V = StoreView;

    open spec fn view(&self) -> StoreView {
        StoreView {
            feeds: self.feeds@.map_values(|f: Feed| f@),
            items: self.items@.map_values(|i: Item| i@),
            tags: self.tags@.map_values(|t: Tag| t@),
            taggings: self.taggings@,
            next_feed_id: self.next_feed_id,
            next_item_id: self.next_item_id,
            next_tag_id: self.next_tag_id,
        }
    }
}

pub open spec fn has_feed(s: StoreView, id: i64) -> bool {
    exists|i: int| 0 <= i < s.feeds.len() && s.feeds[i].id == id
}

pub open spec fn has_feed_uri(s: StoreView, uri: Seq<char>) -> bool {
    exists|i: int| 0 <= i < s.feeds.len() && s.feeds[i].feed_uri == uri
}

pub open spec fn has_item(s: StoreView, feed_id: i64, hash: Seq<char>) -> bool {
    exists|i: int| 0 <= i < s.items.len() && s.items[i].feed_id == feed_id && s.items[i].hash == hash
}

pub open spec fn has_tag(s: StoreView, id: i64) -> bool {
    exists|i: int| 0 <= i < s.tags.len() && s.tags[i].id == id
}

pub open spec fn has_tagging(s: StoreView, feed_id: i64, tag_id: i64) -> bool {
    exists|i: int| 0 <= i < s.taggings.len() && s.taggings[i] == (feed_id, tag_id)
}

pub open spec fn feeds_full(s: StoreView) -> bool {
    s.feeds.len() >= CAPACITY || s.next_feed_id == MAX_ID
}

pub open spec fn items_full(s: StoreView) -> bool {
    s.items.len() >= CAPACITY || s.next_item_id == MAX_ID
}

pub open spec fn tags_full(s: StoreView) -> bool {
    s.tags.len() >= CAPACITY || s.next_tag_id == MAX_ID
}

/// The store's invariant: ids below their counters and pairwise distinct,
/// feed URIs and tag names unique, at most one item per feed and
/// fingerprint, every item owned by a stored feed, taggings unique, and
/// every table within capacity.
pub open spec fn store_wf(s: StoreView) -> bool {
    &&& 1 <= s.next_feed_id && 1 <= s.next_item_id && 1 <= s.next_tag_id
    &&& s.feeds.len() <= CAPACITY && s.items.len() <= CAPACITY
    &&& s.tags.len() <= CAPACITY && s.taggings.len() <= CAPACITY
    &&& forall|i: int| 0 <= i < s.feeds.len() ==> 1 <= #[trigger] s.feeds[i].id < s.next_feed_id
    &&& forall|i: int, j: int| 0 <= i < j < s.feeds.len() ==>
        #[trigger] s.feeds[i].id != #[trigger] s.feeds[j].id && s.feeds[i].feed_uri != s.feeds[j].feed_uri
    &&& forall|i: int| 0 <= i < s.items.len() ==> 1 <= #[trigger] s.items[i].id < s.next_item_id
    &&& forall|i: int, j: int| 0 <= i < j < s.items.len() ==>
        #[trigger] s.items[i].id != #[trigger] s.items[j].id
        && !(s.items[i].feed_id == s.items[j].feed_id && s.items[i].hash == s.items[j].hash)
    &&& forall|i: int| 0 <= i < s.items.len() ==> has_feed(s, #[trigger] s.items[i].feed_id)
    &&& forall|i: int| 0 <= i < s.tags.len() ==> 1 <= #[trigger] s.tags[i].id < s.next_tag_id
    &&& forall|i: int, j: int| 0 <= i < j < s.tags.len() ==>
        #[trigger] s.tags[i].id != #[trigger] s.tags[j].id && s.tags[i].name != s.tags[j].name
    &&& forall|i: int, j: int| 0 <= i < j < s.taggings.len() ==>
        #[trigger] s.taggings[i] != #[trigger] s.taggings[j]
}

/// The feed that `create_feed` makes in store `s`.
pub open spec fn new_feed(
    s: StoreView,
    title: Seq<char>,
    feed_uri: Seq<char>,
    site_uri: Option<Seq<char>>,
    now: i64,
) -> FeedView {
    FeedView { id: s.next_feed_id, title, feed_uri, site_uri, updated_at: now }
}

/// Why `create_feed` refuses a feed with this URI, if it does.
pub open spec fn feed_refusal(s: StoreView, feed_uri: Seq<char>) -> Option<AppError> {
    if has_feed_uri(s, feed_uri) {
        Some(AppError::Conflict)
    } else if feeds_full(s) {
        Some(AppError::Store)
    } else {
        None
    }
}

/// The store after `create_feed`.
pub open spec fn insert_feed(
    s: StoreView,
    title: Seq<char>,
    feed_uri: Seq<char>,
    site_uri: Option<Seq<char>>,
    now: i64,
) -> StoreView {
    if feed_refusal(s, feed_uri) is None {
        StoreView {
            feeds: s.feeds.push(new_feed(s, title, feed_uri, site_uri, now)),
            next_feed_id: (s.next_feed_id + 1) as i64,
            ..s
        }
    } else {
        s
    }
}

/// The item that `create_item` makes in store `s`; its hash is the
/// fingerprint of its title and content.
pub open spec fn new_item(
    s: StoreView,
    feed_id: i64,
    link: Option<Seq<char>>,
    title: Seq<char>,
    author: Seq<char>,
    content: Seq<char>,
    created_at: i64,
    updated_at: i64,
) -> ItemView {
    ItemView {
        id: s.next_item_id,
        feed_id,
        hash: fingerprint_of(title, content),
        link,
        title,
        author,
        content,
        created_at,
        updated_at,
        read: false,
        star: false,
    }
}

/// Why `create_item` refuses an item of this feed and fingerprint, if it does.
pub open spec fn item_refusal(s: StoreView, feed_id: i64, hash: Seq<char>) -> Option<AppError> {
    if !has_feed(s, feed_id) {
        Some(AppError::NotFound)
    } else if has_item(s, feed_id, hash) {
        Some(AppError::Conflict)
    } else if items_full(s) {
        Some(AppError::Store)
    } else {
        None
    }
}

/// The store after `create_item`.
pub open spec fn insert_item(
    s: StoreView,
    feed_id: i64,
    link: Option<Seq<char>>,
    title: Seq<char>,
    author: Seq<char>,
    content: Seq<char>,
    created_at: i64,
    updated_at: i64,
) -> StoreView {
    if item_refusal(s, feed_id, fingerprint_of(title, content)) is None {
        StoreView {
            items: s.items.push(new_item(s, feed_id, link, title, author, content, created_at, updated_at)),
            next_item_id: (s.next_item_id + 1) as i64,
            ..s
        }
    } else {
        s
    }
}

impl Store {
    pub open spec fn wf(&self) -> bool {
        store_wf(self@)
    }

    /// An empty store.
    pub fn new() -> (r: Store)
        ensures
            r.wf(),
            r@.feeds.len() == 0,
            r@.items.len() == 0,
            r@.tags.len() == 0,
            r@.taggings.len() == 0,
    {
        Store {
            feeds: Vec::new(),
            items: Vec::new(),
            tags: Vec::new(),
            taggings: Vec::new(),
            next_feed_id: 1,
            next_item_id: 1,
            next_tag_id: 1,
        }
    }

    pub(crate) fn feed_index(&self, id: i64) -> (r: Option<usize>)
        ensures
            match r {
                Some(i) => i < self@.feeds.len() && self@.feeds[i as int].id == id,
                None => !has_feed(self@, id),
            },
    {
        let mut i: usize = 0;
        while i < self.feeds.len()
            invariant
                i <= self.feeds@.len(),
                forall|k: int| 0 <= k < i ==> self@.feeds[k].id != id,
            decreases self.feeds@.len() - i,
        {
            if self.feeds[i].id == id {
                return Some(i);
            }
            i = i + 1;
        }
        None
    }

    pub(crate) fn feed_index_by_uri(&self, uri: &String) -> (r: Option<usize>)
        ensures
            match r {
                Some(i) => i < self@.feeds.len() && self@.feeds[i as int].feed_uri == uri@,
                None => !has_feed_uri(self@, uri@),
            },
    {
        let mut i: usize = 0;
        while i < self.feeds.len()
            invariant
                i <= self.feeds@.len(),
                forall|k: int| 0 <= k < i ==> self@.feeds[k].feed_uri != uri@,
            decreases self.feeds@.len() - i,
        {
            if self.feeds[i].feed_uri == *uri {
                return Some(i);
            }
            i = i + 1;
        }
        None
    }

    pub(crate) fn item_index_by_key(&self, feed_id: i64, hash: &String) -> (r: Option<usize>)
        ensures
            match r {
                Some(i) => i < self@.items.len() && self@.items[i as int].feed_id == feed_id
                    && self@.items[i as int].hash == hash@,
                None => !has_item(self@, feed_id, hash@),
            },
    {
        let mut i: usize = 0;
        while i < self.items.len()
            invariant
                i <= self.items@.len(),
                forall|k: int| 0 <= k < i ==> !(self@.items[k].feed_id == feed_id && self@.items[k].hash == hash@),
            decreases self.items@.len() - i,
        {
            if self.items[i].feed_id == feed_id && self.items[i].hash == *hash {
                return Some(i);
            }
            i = i + 1;
        }
        None
    }

    /// Registers a new feed, updated at `now`. A URI that is already
    /// registered is a conflict.
    pub fn create_feed(&mut self, title: &str, feed_uri: &str, site_uri: Option<&str>, now: i64) -> (r: Result<Feed, AppError>)
        requires
            old(self).wf(),
        ensures
            final(self).wf(),
            final(self)@ == insert_feed(old(self)@, title@, feed_uri@, match site_uri {
                Some(s) => Some(s@),
                None => None,
            }, now),
            match r {
                Ok(f) => feed_refusal(old(self)@, feed_uri@) is None && f@ == new_feed(old(self)@, title@, feed_uri@, match site_uri {
                    Some(s) => Some(s@),
                    None => None,
                }, now),
                Err(e) => feed_refusal(old(self)@, feed_uri@) == Some(e),
            },
    {
        let uri = feed_uri.to_owned();
        if self.feed_index_by_uri(&uri).is_some() {
            return Err(AppError::Conflict);
        }
        if self.feeds.len() >= CAPACITY || self.next_feed_id == MAX_ID {
            return Err(AppError::Store);
        }
        let f = Feed::new(self.next_feed_id, title, feed_uri, site_uri, now);
        let copy = f.duplicate();
        let ghost pre = self@;
        self.feeds.push(f);
        self.next_feed_id = self.next_feed_id + 1;
        assert(self@.feeds =~= pre.feeds.push(copy@));
        assert forall|i: int| 0 <= i < self@.items.len() implies has_feed(self@, #[trigger] self@.items[i].feed_id) by {
            let j = choose|j: int| 0 <= j < pre.feeds.len() && pre.feeds[j].id == pre.items[i].feed_id;
            assert(self@.feeds[j] == pre.feeds[j]);
        }
        Ok(copy)
    }

    /// Stores a new item of feed `feed_id`, keyed by the fingerprint of its
    /// title and content. Refused when the feed is unknown, when the feed
    /// already holds an item with that fingerprint, or when the store is full.
    pub fn create_item(
        &mut self,
        feed_id: i64,
        link: Option<String>,
        title: String,
        author: String,
        content: String,
        created_at: i64,
        updated_at: i64,
    ) -> (r: Result<Item, AppError>)
        requires
            old(self).wf(),
        ensures
            final(self).wf(),
            final(self)@ == insert_item(old(self)@, feed_id, opt_text(link), title@, author@, content@, created_at, updated_at),
            match r {
                Ok(it) => item_refusal(old(self)@, feed_id, fingerprint_of(title@, content@)) is None
                    && it@.hash.len() == 24
                    && it@ == new_item(old(self)@, feed_id, opt_text(link), title@, author@, content@, created_at, updated_at),
                Err(e) => item_refusal(old(self)@, feed_id, fingerprint_of(title@, content@)) == Some(e),
            },
    {
        let hash = fingerprint(title.as_str(), content.as_str());
        let fi = match self.feed_index(feed_id) {
            None => return Err(AppError::NotFound),
            Some(fi) => fi,
        };
        if self.item_index_by_key(feed_id, &hash).is_some() {
            return Err(AppError::Conflict);
        }
        if self.items.len() >= CAPACITY || self.next_item_id == MAX_ID {
            return Err(AppError::Store);
        }
        let it = Item {
            id: self.next_item_id,
            feed_id,
            hash,
            link,
            title,
            author,
            content,
            created_at,
            updated_at,
            read: false,
            star: false,
        };
        let copy = it.duplicate();
        let ghost pre = self@;
        self.items.push(it);
        self.next_item_id = self.next_item_id + 1;
        assert(self@.items =~= pre.items.push(copy@));
        assert forall|i: int| 0 <= i < self@.items.len() implies has_feed(self@, #[trigger] self@.items[i].feed_id) by {
            if i < pre.items.len() {
                assert(self@.items[i] == pre.items[i]);
            } else {
                assert(self@.feeds[fi as int].id == feed_id);
            }
        }
        Ok(copy)
    }
}

} // verus!
