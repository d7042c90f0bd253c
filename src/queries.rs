//! Lookups, listings, read-state changes and tags.

use vstd::prelude::*;
use crate::aggregate::tagged;
use crate::model::{AppError, Feed, FeedView, Item, ItemView, Tag, TagView};
use crate::store::{has_feed, has_feed_uri, has_tag, tags_full, Store, StoreView, CAPACITY, MAX_ID};

verus! {

pub open spec fn has_item_id(s: StoreView, id: i64) -> bool {
    exists|i: int| 0 <= i < s.items.len() && s.items[i].id == id
}

pub open spec fn has_tag_name(s: StoreView, name: Seq<char>) -> bool {
    exists|i: int| 0 <= i < s.tags.len() && s.tags[i].name == name
}

/// Tags carried by feed `feed_id`.
pub open spec fn carried_by(taggings: Seq<(i64, i64)>, feed_id: i64) -> spec_fn(TagView) -> bool {
    |t: TagView| tagged(taggings, feed_id, t.id)
}

/// Feeds that carry tag `tag_id`.
pub open spec fn carrying(taggings: Seq<(i64, i64)>, tag_id: i64) -> spec_fn(FeedView) -> bool {
    |f: FeedView| tagged(taggings, f.id, tag_id)
}

/// The store with the read and star flags of item `id` set.
pub open spec fn mark_item(s: StoreView, id: i64, read: bool, star: bool) -> StoreView {
    StoreView {
        items: s.items.map_values(|it: ItemView| if it.id == id { ItemView { read, star, ..it } } else { it }),
        ..s
    }
}

/// Why `create_tag` refuses this name, if it does.
pub open spec fn tag_refusal(s: StoreView, name: Seq<char>) -> Option<AppError> {
    if has_tag_name(s, name) {
        Some(AppError::Conflict)
    } else if tags_full(s) {
        Some(AppError::Store)
    } else {
        None
    }
}

/// Why `add_tag` refuses this tagging, if it does. A tagging that is
/// already present is no refusal.
pub open spec fn tagging_refusal(s: StoreView, feed_id: i64, tag_id: i64) -> Option<AppError> {
    if !has_feed(s, feed_id) || !has_tag(s, tag_id) {
        Some(AppError::NotFound)
    } else if tagged(s.taggings, feed_id, tag_id) {
        None
    } else if s.taggings.len() >= CAPACITY {
        Some(AppError::Store)
    } else {
        None
    }
}

impl Store {
    /// The feed with id `id`.
    pub fn get_feed_by_id(&self, id: i64) -> (r: Result<Feed, AppError>)
        requires
            self.wf(),
        ensures
            r is Ok <==> has_feed(self@, id),
            r is Err ==> r == Err::<Feed, AppError>(AppError::NotFound),
            r matches Ok(f) ==> f@.id == id && exists|i: int| 0 <= i < self@.feeds.len() && self@.feeds[i] == f@,
    {
        match self.feed_index(id) {
            Some(i) => Ok(self.feeds[i].duplicate()),
            None => Err(AppError::NotFound),
        }
    }

    /// The feed registered under `uri`.
    pub fn get_feed_by_uri(&self, uri: &str) -> (r: Result<Feed, AppError>)
        requires
            self.wf(),
        ensures
            r is Ok <==> has_feed_uri(self@, uri@),
            r is Err ==> r == Err::<Feed, AppError>(AppError::NotFound),
            r matches Ok(f) ==> f@.feed_uri == uri@ && exists|i: int| 0 <= i < self@.feeds.len() && self@.feeds[i] == f@,
    {
        let u = uri.to_owned();
        match self.feed_index_by_uri(&u) {
            Some(i) => Ok(self.feeds[i].duplicate()),
            None => Err(AppError::NotFound),
        }
    }

    /// Every feed, in the store's order.
    pub fn feeds(&self) -> (r: Vec<Feed>)
        ensures
            r@.map_values(|f: Feed| f@) == self@.feeds,
    {
        let mut r: Vec<Feed> = Vec::new();
        let mut i: usize = 0;
        while i < self.feeds.len()
            invariant
                i <= self.feeds@.len(),
                r@.map_values(|f: Feed| f@) == self@.feeds.take(i as int),
            decreases self.feeds@.len() - i,
        {
            let f = self.feeds[i].duplicate();
            let ghost before = r@;
            r.push(f);
            proof {
                assert(r@ == before.push(f));
                assert(r@.map_values(|f: Feed| f@) =~= before.map_values(|f: Feed| f@).push(f@));
                assert(self@.feeds.take(i + 1) =~= self@.feeds.take(i as int).push(self@.feeds[i as int]));
            }
            i = i + 1;
        }
        assert(self@.feeds.take(i as int) =~= self@.feeds);
        r
    }

    pub(crate) fn item_index(&self, id: i64) -> (r: Option<usize>)
        ensures
            match r {
                Some(i) => i < self@.items.len() && self@.items[i as int].id == id,
                None => !has_item_id(self@, id),
            },
    {
        let mut i: usize = 0;
        while i < self.items.len()
            invariant
                i <= self.items@.len(),
                forall|k: int| 0 <= k < i ==> self@.items[k].id != id,
            decreases self.items@.len() - i,
        {
            if self.items[i].id == id {
                return Some(i);
            }
            i = i + 1;
        }
        None
    }

    /// The item with id `id`.
    pub fn get_item_by_id(&self, id: i64) -> (r: Result<Item, AppError>)
        requires
            self.wf(),
        ensures
            r is Ok <==> has_item_id(self@, id),
            r is Err ==> r == Err::<Item, AppError>(AppError::NotFound),
            r matches Ok(it) ==> it@.id == id && exists|i: int| 0 <= i < self@.items.len() && self@.items[i] == it@,
    {
        match self.item_index(id) {
            Some(i) => Ok(self.items[i].duplicate()),
            None => Err(AppError::NotFound),
        }
    }

    /// The feed that item `item_id` belongs to.
    pub fn feed_of_item(&self, item_id: i64) -> (r: Result<Feed, AppError>)
        requires
            self.wf(),
        ensures
            r is Ok ==> has_item_id(self@, item_id),
            !has_item_id(self@, item_id) ==> r == Err::<Feed, AppError>(AppError::NotFound),
            r matches Ok(f) ==> exists|i: int| 0 <= i < self@.items.len() && self@.items[i].id == item_id && self@.items[i].feed_id == f@.id,
            r matches Ok(f) ==> exists|i: int| 0 <= i < self@.feeds.len() && self@.feeds[i] == f@,
            forall|i: int| 0 <= i < self@.items.len() && self@.items[i].id == item_id && has_feed(self@, self@.items[i].feed_id) ==> r is Ok,
    {
        match self.item_index(item_id) {
            Some(i) => {
                let r = self.get_feed_by_id(self.items[i].feed_id);
                proof {
                    assert forall|k: int| 0 <= k < self@.items.len() && self@.items[k].id == item_id implies k == i as int by {
                        if k < i { assert(self@.items[k].id != self@.items[i as int].id); }
                        if k > i { assert(self@.items[i as int].id != self@.items[k].id); }
                    }
                }
                r
            },
            None => Err(AppError::NotFound),
        }
    }

    /// Sets the read and star flags of item `id`: the only change an item
    /// sees after its creation.
    pub fn set_read_state(&mut self, id: i64, read: bool, star: bool) -> (r: Result<(), AppError>)
        requires
            old(self).wf(),
        ensures
            final(self).wf(),
            r is Ok <==> has_item_id(old(self)@, id),
            r is Ok ==> final(self)@ == mark_item(old(self)@, id, read, star),
            r is Err ==> r == Err::<(), AppError>(AppError::NotFound) && final(self)@ == old(self)@,
    {
        match self.item_index(id) {
            None => Err(AppError::NotFound),
            Some(i) => {
                let mut it = self.items[i].duplicate();
                it.read = read;
                it.star = star;
                let ghost pre = self@;
                self.items.set(i, it);
                proof {
                    assert(self@.items =~= mark_item(pre, id, read, star).items);
                }
                Ok(())
            },
        }
    }

    pub(crate) fn tag_index(&self, id: i64) -> (r: Option<usize>)
        ensures
            match r {
                Some(i) => i < self@.tags.len() && self@.tags[i as int].id == id,
                None => !has_tag(self@, id),
            },
    {
        let mut i: usize = 0;
        while i < self.tags.len()
            invariant
                i <= self.tags@.len(),
                forall|k: int| 0 <= k < i ==> self@.tags[k].id != id,
            decreases self.tags@.len() - i,
        {
            if self.tags[i].id == id {
                return Some(i);
            }
            i = i + 1;
        }
        None
    }

    /// Creates a tag. A name that is already taken is a conflict.
    pub fn create_tag(&mut self, name: &str) -> (r: Result<Tag, AppError>)
        requires
            old(self).wf(),
        ensures
            final(self).wf(),
            match r {
                Ok(t) => tag_refusal(old(self)@, name@) is None
                    && t@ == (TagView { id: old(self)@.next_tag_id, name: name@ })
                    && final(self)@ == (StoreView {
                        tags: old(self)@.tags.push(t@),
                        next_tag_id: (old(self)@.next_tag_id + 1) as i64,
                        ..old(self)@
                    }),
                Err(e) => tag_refusal(old(self)@, name@) == Some(e) && final(self)@ == old(self)@,
            },
    {
        let n = name.to_owned();
        let mut i: usize = 0;
        while i < self.tags.len()
            invariant
                i <= self.tags@.len(),
                self.wf(),
                self@ == old(self)@,
                n@ == name@,
                forall|k: int| 0 <= k < i ==> self@.tags[k].name != name@,
            decreases self.tags@.len() - i,
        {
            if self.tags[i].name == n {
                assert(self@.tags[i as int].name == name@);
                return Err(AppError::Conflict);
            }
            i = i + 1;
        }
        if self.tags.len() >= CAPACITY || self.next_tag_id == MAX_ID {
            return Err(AppError::Store);
        }
        let t = Tag { id: self.next_tag_id, name: n };
        let copy = t.duplicate();
        let ghost pre = self@;
        self.tags.push(t);
        self.next_tag_id = self.next_tag_id + 1;
        assert(self@.tags =~= pre.tags.push(copy@));
        Ok(copy)
    }

    /// Every tag, in the store's order.
    pub fn tags(&self) -> (r: Vec<Tag>)
        ensures
            r@.map_values(|t: Tag| t@) == self@.tags,
    {
        let mut r: Vec<Tag> = Vec::new();
        let mut i: usize = 0;
        while i < self.tags.len()
            invariant
                i <= self.tags@.len(),
                r@.map_values(|t: Tag| t@) == self@.tags.take(i as int),
            decreases self.tags@.len() - i,
        {
            let t = self.tags[i].duplicate();
            let ghost before = r@;
            r.push(t);
            proof {
                assert(r@ == before.push(t));
                assert(r@.map_values(|t: Tag| t@) =~= before.map_values(|t: Tag| t@).push(t@));
                assert(self@.tags.take(i + 1) =~= self@.tags.take(i as int).push(self@.tags[i as int]));
            }
            i = i + 1;
        }
        assert(self@.tags.take(i as int) =~= self@.tags);
        r
    }

    /// Lets feed `feed_id` carry tag `tag_id`. Tagging twice changes nothing.
    pub fn add_tag(&mut self, feed_id: i64, tag_id: i64) -> (r: Result<(), AppError>)
        requires
            old(self).wf(),
        ensures
            final(self).wf(),
            match r {
                Ok(_) => tagging_refusal(old(self)@, feed_id, tag_id) is None
                    && tagged(final(self)@.taggings, feed_id, tag_id)
                    && final(self)@ == (if tagged(old(self)@.taggings, feed_id, tag_id) {
                        old(self)@
                    } else {
                        StoreView { taggings: old(self)@.taggings.push((feed_id, tag_id)), ..old(self)@ }
                    }),
                Err(e) => tagging_refusal(old(self)@, feed_id, tag_id) == Some(e) && final(self)@ == old(self)@,
            },
    {
        if self.feed_index(feed_id).is_none() || self.tag_index(tag_id).is_none() {
            return Err(AppError::NotFound);
        }
        if self.is_tagged(feed_id, tag_id) {
            return Ok(());
        }
        if self.taggings.len() >= CAPACITY {
            return Err(AppError::Store);
        }
        let ghost pre = self@;
        self.taggings.push((feed_id, tag_id));
        assert(self@.taggings[pre.taggings.len() as int] == (feed_id, tag_id));
        assert forall|i: int, j: int| 0 <= i < j < self@.taggings.len() implies
            #[trigger] self@.taggings[i] != #[trigger] self@.taggings[j] by {
            if j < pre.taggings.len() {
                assert(pre.taggings[i] != pre.taggings[j]);
            } else {
                assert(pre.taggings[i] != (feed_id, tag_id));
            }
        }
        Ok(())
    }

    /// The tags that feed `feed_id` carries, in the store's order of tags.
    pub fn tags_of_feed(&self, feed_id: i64) -> (r: Vec<Tag>)
        ensures
            r@.map_values(|t: Tag| t@) == self@.tags.filter(carried_by(self@.taggings, feed_id)),
    {
        let ghost p = carried_by(self@.taggings, feed_id);
        let mut r: Vec<Tag> = Vec::new();
        let mut i: usize = 0;
        while i < self.tags.len()
            invariant
                i <= self.tags@.len(),
                p == carried_by(self@.taggings, feed_id),
                r@.map_values(|t: Tag| t@) == self@.tags.take(i as int).filter(p),
            decreases self.tags@.len() - i,
        {
            proof {
                reveal(Seq::filter);
                assert(self@.tags.take(i + 1).drop_last() =~= self@.tags.take(i as int));
            }
            if self.is_tagged(feed_id, self.tags[i].id) {
                let t = self.tags[i].duplicate();
                r.push(t);
            }
            i = i + 1;
            assert(r@.map_values(|t: Tag| t@) =~= self@.tags.take(i as int).filter(p));
        }
        assert(self@.tags.take(i as int) =~= self@.tags);
        r
    }

    /// The feeds that carry tag `tag_id`, in the store's order of feeds.
    pub fn feeds_of_tag(&self, tag_id: i64) -> (r: Vec<Feed>)
        ensures
            r@.map_values(|f: Feed| f@) == self@.feeds.filter(carrying(self@.taggings, tag_id)),
    {
        let ghost p = carrying(self@.taggings, tag_id);
        let mut r: Vec<Feed> = Vec::new();
        let mut i: usize = 0;
        while i < self.feeds.len()
            invariant
                i <= self.feeds@.len(),
                p == carrying(self@.taggings, tag_id),
                r@.map_values(|f: Feed| f@) == self@.feeds.take(i as int).filter(p),
            decreases self.feeds@.len() - i,
        {
            proof {
                reveal(Seq::filter);
                assert(self@.feeds.take(i + 1).drop_last() =~= self@.feeds.take(i as int));
            }
            if self.is_tagged(self.feeds[i].id, tag_id) {
                let f = self.feeds[i].duplicate();
                r.push(f);
            }
            i = i + 1;
            assert(r@.map_values(|f: Feed| f@) =~= self@.feeds.take(i as int).filter(p));
        }
        assert(self@.feeds.take(i as int) =~= self@.feeds);
        r
    }
}

} // verus!
