//! Saving a feed's mutable fields, and deleting a feed with everything it owns.

use vstd::prelude::*;
use crate::model::{AppError, Feed, FeedView, Item, ItemView};
use crate::store::{has_feed, Store, StoreView};

verus! {

pub open spec fn uri_held_by_other(s: StoreView, uri: Seq<char>, id: i64) -> bool {
    exists|i: int| 0 <= i < s.feeds.len() && s.feeds[i].feed_uri == uri && s.feeds[i].id != id
}

/// Why `save_feed` refuses this feed, if it does.
pub open spec fn save_refusal(s: StoreView, f: FeedView) -> Option<AppError> {
    if !has_feed(s, f.id) {
        Some(AppError::NotFound)
    } else if uri_held_by_other(s, f.feed_uri, f.id) {
        Some(AppError::Conflict)
    } else {
        None
    }
}

/// The store with the feed of `f`'s id replaced by `f`.
pub open spec fn replace_feed(s: StoreView, f: FeedView) -> StoreView {
    StoreView { feeds: s.feeds.map_values(|g: FeedView| if g.id == f.id { f } else { g }), ..s }
}

pub open spec fn not_feed(id: i64) -> spec_fn(FeedView) -> bool {
    |f: FeedView| f.id != id
}

pub open spec fn not_of_feed(id: i64) -> spec_fn(ItemView) -> bool {
    |it: ItemView| it.feed_id != id
}

pub open spec fn not_tagging_of(id: i64) -> spec_fn((i64, i64)) -> bool {
    |p: (i64, i64)| p.0 != id
}

/// The store without feed `id`, its items and its taggings.
pub open spec fn remove_feed(s: StoreView, id: i64) -> StoreView {
    StoreView {
        feeds: s.feeds.filter(not_feed(id)),
        items: s.items.filter(not_of_feed(id)),
        taggings: s.taggings.filter(not_tagging_of(id)),
        ..s
    }
}

impl Store {
    /// Writes the mutable fields of `feed` (title, URI, site URI and
    /// watermark) to the stored feed with the same id.
    pub fn save_feed(&mut self, feed: &Feed) -> (r: Result<(), AppError>)
        requires
            old(self).wf(),
        ensures
            final(self).wf(),
            match r {
                Ok(_) => save_refusal(old(self)@, feed@) is None && final(self)@ == replace_feed(old(self)@, feed@),
                Err(e) => save_refusal(old(self)@, feed@) == Some(e) && final(self)@ == old(self)@,
            },
    {
        let idx = match self.feed_index(feed.id) {
            None => return Err(AppError::NotFound),
            Some(i) => i,
        };
        let mut i: usize = 0;
        while i < self.feeds.len()
            invariant
                i <= self.feeds@.len(),
                self.wf(),
                self@ == old(self)@,
                idx < self@.feeds.len() && self@.feeds[idx as int].id == feed.id,
                forall|k: int| 0 <= k < i ==> !(self@.feeds[k].feed_uri == feed@.feed_uri && self@.feeds[k].id != feed.id),
            decreases self.feeds@.len() - i,
        {
            if self.feeds[i].feed_uri == feed.feed_uri && self.feeds[i].id != feed.id {
                assert(self@.feeds[i as int].feed_uri == feed@.feed_uri);
                return Err(AppError::Conflict);
            }
            i = i + 1;
        }
        let ghost pre = self@;
        self.feeds.set(idx, feed.duplicate());
        proof {
            assert forall|k: int| 0 <= k < pre.feeds.len() && k != idx implies pre.feeds[k].id != feed.id by {
                if k < idx {
                    assert(pre.feeds[k].id != pre.feeds[idx as int].id);
                } else {
                    assert(pre.feeds[idx as int].id != pre.feeds[k].id);
                }
            }
            assert(self@.feeds =~= replace_feed(pre, feed@).feeds);
            let s = self@;
            assert forall|k: int| 0 <= k < s.items.len() implies has_feed(s, #[trigger] s.items[k].feed_id) by {
                let j = choose|j: int| 0 <= j < pre.feeds.len() && pre.feeds[j].id == pre.items[k].feed_id;
                assert(s.feeds[j].id == pre.feeds[j].id);
            }
            assert forall|a: int, b: int| 0 <= a < b < s.feeds.len() implies
                #[trigger] s.feeds[a].id != #[trigger] s.feeds[b].id && s.feeds[a].feed_uri != s.feeds[b].feed_uri by {
                if a != idx && b != idx {
                    assert(pre.feeds[a].id != pre.feeds[b].id);
                }
            }
        }
        Ok(())
    }

    /// Deletes feed `id` together with its items and its taggings.
    pub fn delete_feed(&mut self, id: i64) -> (r: Result<(), AppError>)
        requires
            old(self).wf(),
        ensures
            final(self).wf(),
            r is Ok <==> has_feed(old(self)@, id),
            r is Ok ==> final(self)@ == remove_feed(old(self)@, id),
            r is Err ==> r == Err::<(), AppError>(AppError::NotFound) && final(self)@ == old(self)@,
    {
        if self.feed_index(id).is_none() {
            return Err(AppError::NotFound);
        }
        let ghost pre = self@;
        let mut feeds: Vec<Feed> = Vec::new();
        let ghost mut fidx: Seq<int> = Seq::empty();
        let mut i: usize = 0;
        while i < self.feeds.len()
            invariant
                self@ == pre,
                i <= pre.feeds.len(),
                feeds@.len() == fidx.len(),
                feeds@.len() <= i,
                forall|k: int| 0 <= k < fidx.len() ==> 0 <= #[trigger] fidx[k] < i && feeds@[k]@ == pre.feeds[fidx[k]],
                forall|a: int, b: int| 0 <= a < b < fidx.len() ==> #[trigger] fidx[a] < #[trigger] fidx[b],
                forall|j: int| 0 <= j < i && #[trigger] pre.feeds[j].id != id ==> exists|k: int| 0 <= k < fidx.len() && fidx[k] == j,
                feeds@.map_values(|f: Feed| f@) == pre.feeds.take(i as int).filter(not_feed(id)),
            decreases pre.feeds.len() - i,
        {
            proof {
                reveal(Seq::filter);
                assert(pre.feeds.take(i + 1).drop_last() =~= pre.feeds.take(i as int));
            }
            if self.feeds[i].id != id {
                let ghost before = feeds@;
                feeds.push(self.feeds[i].duplicate());
                proof {
                    let ghost old_fidx = fidx;
                    fidx = fidx.push(i as int);
                    assert(fidx[old_fidx.len() as int] == i as int);
                    assert forall|j: int| 0 <= j < i && #[trigger] pre.feeds[j].id != id implies exists|k: int| 0 <= k < fidx.len() && fidx[k] == j by {
                        let k = choose|k: int| 0 <= k < old_fidx.len() && old_fidx[k] == j;
                        assert(fidx[k] == j);
                    }
                    assert(feeds@.map_values(|f: Feed| f@) =~= before.map_values(|f: Feed| f@).push(pre.feeds[i as int]));
                }
            }
            i = i + 1;
        }
        let mut items: Vec<Item> = Vec::new();
        let ghost mut iidx: Seq<int> = Seq::empty();
        let mut i: usize = 0;
        while i < self.items.len()
            invariant
                self@ == pre,
                i <= pre.items.len(),
                items@.len() == iidx.len(),
                items@.len() <= i,
                forall|k: int| 0 <= k < iidx.len() ==> 0 <= #[trigger] iidx[k] < i && items@[k]@ == pre.items[iidx[k]],
                forall|a: int, b: int| 0 <= a < b < iidx.len() ==> #[trigger] iidx[a] < #[trigger] iidx[b],
                items@.map_values(|it: Item| it@) == pre.items.take(i as int).filter(not_of_feed(id)),
            decreases pre.items.len() - i,
        {
            proof {
                reveal(Seq::filter);
                assert(pre.items.take(i + 1).drop_last() =~= pre.items.take(i as int));
            }
            if self.items[i].feed_id != id {
                let ghost before = items@;
                items.push(self.items[i].duplicate());
                proof {
                    iidx = iidx.push(i as int);
                    assert(items@.map_values(|it: Item| it@) =~= before.map_values(|it: Item| it@).push(pre.items[i as int]));
                }
            }
            i = i + 1;
        }
        let mut taggings: Vec<(i64, i64)> = Vec::new();
        let ghost mut tidx: Seq<int> = Seq::empty();
        let mut i: usize = 0;
        while i < self.taggings.len()
            invariant
                self@ == pre,
                i <= pre.taggings.len(),
                taggings@.len() == tidx.len(),
                taggings@.len() <= i,
                forall|k: int| 0 <= k < tidx.len() ==> 0 <= #[trigger] tidx[k] < i && taggings@[k] == pre.taggings[tidx[k]],
                forall|a: int, b: int| 0 <= a < b < tidx.len() ==> #[trigger] tidx[a] < #[trigger] tidx[b],
                taggings@ == pre.taggings.take(i as int).filter(not_tagging_of(id)),
            decreases pre.taggings.len() - i,
        {
            proof {
                reveal(Seq::filter);
                assert(pre.taggings.take(i + 1).drop_last() =~= pre.taggings.take(i as int));
            }
            if self.taggings[i].0 != id {
                taggings.push(self.taggings[i]);
                proof {
                    tidx = tidx.push(i as int);
                }
            }
            i = i + 1;
        }
        proof {
            assert(pre.feeds.take(pre.feeds.len() as int) =~= pre.feeds);
            assert(pre.items.take(pre.items.len() as int) =~= pre.items);
            assert(pre.taggings.take(pre.taggings.len() as int) =~= pre.taggings);
        }
        self.feeds = feeds;
        self.items = items;
        self.taggings = taggings;
        proof {
            let s = self@;
            assert(s.feeds.len() <= pre.feeds.len());
            assert(s.items.len() <= pre.items.len());
            assert(s.taggings.len() <= pre.taggings.len());
            assert(s.tags == pre.tags);
            assert forall|a: int, b: int| 0 <= a < b < s.feeds.len() implies
                #[trigger] s.feeds[a].id != #[trigger] s.feeds[b].id && s.feeds[a].feed_uri != s.feeds[b].feed_uri by {
                assert(fidx[a] < fidx[b]);
                assert(s.feeds[a] == pre.feeds[fidx[a]] && s.feeds[b] == pre.feeds[fidx[b]]);
            }
            assert forall|k: int| 0 <= k < s.feeds.len() implies 1 <= #[trigger] s.feeds[k].id < s.next_feed_id by {
                assert(s.feeds[k] == pre.feeds[fidx[k]]);
            }
            assert forall|a: int, b: int| 0 <= a < b < s.items.len() implies
                #[trigger] s.items[a].id != #[trigger] s.items[b].id
                && !(s.items[a].feed_id == s.items[b].feed_id && s.items[a].hash == s.items[b].hash) by {
                assert(iidx[a] < iidx[b]);
                assert(s.items[a] == pre.items[iidx[a]] && s.items[b] == pre.items[iidx[b]]);
            }
            assert forall|k: int| 0 <= k < s.items.len() implies 1 <= #[trigger] s.items[k].id < s.next_item_id by {
                assert(s.items[k] == pre.items[iidx[k]]);
            }
            assert forall|k: int| 0 <= k < s.items.len() implies has_feed(s, #[trigger] s.items[k].feed_id) by {
                let it = pre.items[iidx[k]];
                assert(s.items[k] == it);
                assert(it.feed_id != id);
                let j = choose|j: int| 0 <= j < pre.feeds.len() && pre.feeds[j].id == it.feed_id;
                assert(pre.feeds[j].id != id);
                let m = choose|m: int| 0 <= m < fidx.len() && fidx[m] == j;
                assert(s.feeds[m] == pre.feeds[fidx[m]]);
            }
            assert forall|a: int, b: int| 0 <= a < b < s.taggings.len() implies
                #[trigger] s.taggings[a] != #[trigger] s.taggings[b] by {
                assert(tidx[a] < tidx[b]);
                assert(s.taggings[a] == pre.taggings[tidx[a]] && s.taggings[b] == pre.taggings[tidx[b]]);
            }
            assert(crate::store::store_wf(s));
        }
        Ok(())
    }
}

} // verus!
