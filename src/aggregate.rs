//! Unread counts per feed, per tag and overall.

use vstd::prelude::*;
use crate::model::{FeedView, ItemView, Tag};
use crate::store::{store_wf, Store, StoreView, CAPACITY};

verus! {

/// The number of unread items of feed `feed_id`.
pub open spec fn unread_of(items: Seq<ItemView>, feed_id: i64) -> nat
    decreases items.len(),
{
    if items.len() == 0 {
        0
    } else {
        unread_of(items.drop_last(), feed_id) + if items.last().feed_id == feed_id && !items.last().read {
            1nat
        } else {
            0nat
        }
    }
}

/// The number of unread items, all feeds together.
pub open spec fn unread_total(items: Seq<ItemView>) -> nat
    decreases items.len(),
{
    if items.len() == 0 {
        0
    } else {
        unread_total(items.drop_last()) + if !items.last().read {
            1nat
        } else {
            0nat
        }
    }
}

pub open spec fn tagged(taggings: Seq<(i64, i64)>, feed_id: i64, tag_id: i64) -> bool {
    exists|k: int| 0 <= k < taggings.len() && taggings[k] == (feed_id, tag_id)
}

/// The sum of the unread counts of the feeds that carry tag `tag_id`.
pub open spec fn tag_unread(
    feeds: Seq<FeedView>,
    items: Seq<ItemView>,
    taggings: Seq<(i64, i64)>,
    tag_id: i64,
) -> nat
    decreases feeds.len(),
{
    if feeds.len() == 0 {
        0
    } else {
        tag_unread(feeds.drop_last(), items, taggings, tag_id) + if tagged(taggings, feeds.last().id, tag_id) {
            unread_of(items, feeds.last().id)
        } else {
            0nat
        }
    }
}

pub proof fn lemma_unread_bounded(items: Seq<ItemView>, feed_id: i64)
    ensures
        unread_of(items, feed_id) <= items.len(),
    decreases items.len(),
{
    if items.len() > 0 {
        lemma_unread_bounded(items.drop_last(), feed_id);
    }
}

/// The sum of the unread counts of `feeds`.
pub open spec fn feed_unread_sum(feeds: Seq<FeedView>, items: Seq<ItemView>) -> nat
    decreases feeds.len(),
{
    if feeds.len() == 0 {
        0
    } else {
        feed_unread_sum(feeds.drop_last(), items) + unread_of(items, feeds.last().id)
    }
}

/// The number of feeds with id `id`.
pub open spec fn feeds_with_id(feeds: Seq<FeedView>, id: i64) -> nat
    decreases feeds.len(),
{
    if feeds.len() == 0 {
        0
    } else {
        feeds_with_id(feeds.drop_last(), id) + if feeds.last().id == id {
            1nat
        } else {
            0nat
        }
    }
}

proof fn lemma_sum_peel_item(feeds: Seq<FeedView>, items: Seq<ItemView>)
    requires
        items.len() > 0,
    ensures
        feed_unread_sum(feeds, items) == feed_unread_sum(feeds, items.drop_last()) + if !items.last().read {
            feeds_with_id(feeds, items.last().feed_id)
        } else {
            0nat
        },
    decreases feeds.len(),
{
    if feeds.len() > 0 {
        lemma_sum_peel_item(feeds.drop_last(), items);
    }
}

proof fn lemma_feeds_with_id_one(feeds: Seq<FeedView>, id: i64)
    requires
        forall|i: int, j: int| 0 <= i < j < feeds.len() ==> #[trigger] feeds[i].id != #[trigger] feeds[j].id,
    ensures
        (exists|i: int| 0 <= i < feeds.len() && feeds[i].id == id) ==> feeds_with_id(feeds, id) == 1,
        (forall|i: int| 0 <= i < feeds.len() ==> feeds[i].id != id) ==> feeds_with_id(feeds, id) == 0,
    decreases feeds.len(),
{
    if feeds.len() > 0 {
        let init = feeds.drop_last();
        lemma_feeds_with_id_one(init, id);
        if feeds.last().id == id {
            assert forall|i: int| 0 <= i < init.len() implies init[i].id != id by {
                assert(feeds[i].id != feeds[feeds.len() - 1].id);
            }
        } else if exists|i: int| 0 <= i < feeds.len() && feeds[i].id == id {
            let i = choose|i: int| 0 <= i < feeds.len() && feeds[i].id == id;
            assert(init[i].id == id);
        }
    }
}

pub open spec fn id_present(feeds: Seq<FeedView>, id: i64) -> bool {
    exists|i: int| 0 <= i < feeds.len() && feeds[i].id == id
}

proof fn lemma_total_is_sum(feeds: Seq<FeedView>, items: Seq<ItemView>)
    requires
        forall|i: int, j: int| 0 <= i < j < feeds.len() ==> #[trigger] feeds[i].id != #[trigger] feeds[j].id,
        forall|k: int| 0 <= k < items.len() ==> id_present(feeds, #[trigger] items[k].feed_id),
    ensures
        unread_total(items) == feed_unread_sum(feeds, items),
    decreases items.len(),
{
    if items.len() == 0 {
        lemma_sum_empty(feeds, items);
    } else {
        let init = items.drop_last();
        assert forall|k: int| 0 <= k < init.len() implies id_present(feeds, #[trigger] init[k].feed_id) by {
            assert(init[k] == items[k]);
            assert(items[k].feed_id == init[k].feed_id);
        }
        lemma_total_is_sum(feeds, init);
        lemma_sum_peel_item(feeds, items);
        let last_feed = items[items.len() - 1].feed_id;
        assert(items.last().feed_id == last_feed);
        assert(id_present(feeds, last_feed));
        lemma_feeds_with_id_one(feeds, items.last().feed_id);
    }
}

proof fn lemma_sum_empty(feeds: Seq<FeedView>, items: Seq<ItemView>)
    requires
        items.len() == 0,
    ensures
        feed_unread_sum(feeds, items) == 0,
    decreases feeds.len(),
{
    if feeds.len() > 0 {
        lemma_sum_empty(feeds.drop_last(), items);
    }
}

/// The overall unread count is the sum of the per-feed unread counts: no
/// item is counted twice, and none is left out.
pub proof fn lemma_total_unread_is_sum_over_feeds(s: StoreView)
    requires
        store_wf(s),
    ensures
        unread_total(s.items) == feed_unread_sum(s.feeds, s.items),
{
    assert forall|k: int| 0 <= k < s.items.len() implies id_present(s.feeds, #[trigger] s.items[k].feed_id) by {
        assert(crate::store::has_feed(s, s.items[k].feed_id));
    }
    lemma_total_is_sum(s.feeds, s.items);
}

/// The unread counts that a summary view shows.
pub struct UnreadCounts {
    /// Each feed's id with its unread count, in the store's order of feeds.
    pub per_feed: Vec<(i64, u64)>,
    /// Each tag's id with the unread count of the feeds it carries.
    pub per_tag: Vec<(i64, u64)>,
    pub total: u64,
}

impl Tag {
    /// The sum of the unread counts of the feeds in `store` that carry this
    /// tag. A feed with several tags counts towards each of them.
    pub fn unread_count(&self, store: &Store) -> (r: u64)
        requires
            store.wf(),
        ensures
            r == tag_unread(store@.feeds, store@.items, store@.taggings, self.id),
    {
        store.tag_unread_count(self.id)
    }
}

impl Store {
    /// The number of unread items of feed `feed_id`.
    pub fn unread_count(&self, feed_id: i64) -> (r: u64)
        requires
            self.wf(),
        ensures
            r == unread_of(self@.items, feed_id),
    {
        let mut n: u64 = 0;
        let mut i: usize = 0;
        while i < self.items.len()
            invariant
                self.wf(),
                i <= self.items@.len(),
                n == unread_of(self@.items.take(i as int), feed_id),
                n <= i,
            decreases self.items@.len() - i,
        {
            proof {
                assert(self@.items.take(i + 1).drop_last() =~= self@.items.take(i as int));
            }
            if self.items[i].feed_id == feed_id && !self.items[i].read {
                n = n + 1;
            }
            i = i + 1;
        }
        proof {
            assert(self@.items.take(self@.items.len() as int) =~= self@.items);
        }
        n
    }

    /// The number of unread items over all feeds.
    pub fn total_unread(&self) -> (r: u64)
        requires
            self.wf(),
        ensures
            r == unread_total(self@.items),
    {
        let mut n: u64 = 0;
        let mut i: usize = 0;
        while i < self.items.len()
            invariant
                self.wf(),
                i <= self.items@.len(),
                n == unread_total(self@.items.take(i as int)),
                n <= i,
            decreases self.items@.len() - i,
        {
            proof {
                assert(self@.items.take(i + 1).drop_last() =~= self@.items.take(i as int));
            }
            if !self.items[i].read {
                n = n + 1;
            }
            i = i + 1;
        }
        proof {
            assert(self@.items.take(self@.items.len() as int) =~= self@.items);
        }
        n
    }

    /// Whether feed `feed_id` carries tag `tag_id`.
    pub fn is_tagged(&self, feed_id: i64, tag_id: i64) -> (r: bool)
        ensures
            r == tagged(self@.taggings, feed_id, tag_id),
    {
        let mut i: usize = 0;
        while i < self.taggings.len()
            invariant
                i <= self.taggings@.len(),
                forall|k: int| 0 <= k < i ==> self.taggings@[k] != (feed_id, tag_id),
            decreases self.taggings@.len() - i,
        {
            if self.taggings[i].0 == feed_id && self.taggings[i].1 == tag_id {
                return true;
            }
            i = i + 1;
        }
        false
    }

    /// The sum of the unread counts of the feeds that carry tag `tag_id`.
    /// A feed with several tags counts towards each of them.
    pub fn tag_unread_count(&self, tag_id: i64) -> (r: u64)
        requires
            self.wf(),
        ensures
            r == tag_unread(self@.feeds, self@.items, self@.taggings, tag_id),
    {
        let ghost n = self@.items.len();
        let mut sum: u64 = 0;
        let mut i: usize = 0;
        while i < self.feeds.len()
            invariant
                self.wf(),
                n == self@.items.len(),
                i <= self.feeds@.len(),
                sum == tag_unread(self@.feeds.take(i as int), self@.items, self@.taggings, tag_id),
                sum <= i * n,
            decreases self.feeds@.len() - i,
        {
            proof {
                assert(self@.feeds.take(i + 1).drop_last() =~= self@.feeds.take(i as int));
                lemma_unread_bounded(self@.items, self@.feeds[i as int].id);
                assert((i + 1) * n == i * n + n) by (nonlinear_arith);
                assert(i < CAPACITY && n <= CAPACITY ==> (i + 1) * n <= CAPACITY * CAPACITY) by (nonlinear_arith);
            }
            if self.is_tagged(self.feeds[i].id, tag_id) {
                let c = self.unread_count(self.feeds[i].id);
                sum = sum + c;
            }
            i = i + 1;
        }
        proof {
            assert(self@.feeds.take(self@.feeds.len() as int) =~= self@.feeds);
        }
        sum
    }

    /// Each feed's id with its unread count, in the store's order of feeds.
    pub fn unread_counts_by_feed(&self) -> (r: Vec<(i64, u64)>)
        requires
            self.wf(),
        ensures
            r@.len() == self@.feeds.len(),
            forall|k: int| 0 <= k < r@.len() ==> #[trigger] r@[k] == (self@.feeds[k].id, unread_of(self@.items, self@.feeds[k].id) as u64),
    {
        let mut r: Vec<(i64, u64)> = Vec::new();
        let mut i: usize = 0;
        while i < self.feeds.len()
            invariant
                self.wf(),
                i <= self.feeds@.len(),
                r@.len() == i,
                forall|k: int| 0 <= k < i ==> #[trigger] r@[k] == (self@.feeds[k].id, unread_of(self@.items, self@.feeds[k].id) as u64),
            decreases self.feeds@.len() - i,
        {
            let id = self.feeds[i].id;
            let c = self.unread_count(id);
            r.push((id, c));
            i = i + 1;
        }
        r
    }

    /// Each tag's id with the unread count of the feeds that carry it, in the
    /// store's order of tags.
    pub fn unread_counts_by_tag(&self) -> (r: Vec<(i64, u64)>)
        requires
            self.wf(),
        ensures
            r@.len() == self@.tags.len(),
            forall|k: int| 0 <= k < r@.len() ==> #[trigger] r@[k] == (self@.tags[k].id, tag_unread(self@.feeds, self@.items, self@.taggings, self@.tags[k].id) as u64),
    {
        let mut r: Vec<(i64, u64)> = Vec::new();
        let mut i: usize = 0;
        while i < self.tags.len()
            invariant
                self.wf(),
                i <= self.tags@.len(),
                r@.len() == i,
                forall|k: int| 0 <= k < i ==> #[trigger] r@[k] == (self@.tags[k].id, tag_unread(self@.feeds, self@.items, self@.taggings, self@.tags[k].id) as u64),
            decreases self.tags@.len() - i,
        {
            let id = self.tags[i].id;
            let c = self.tag_unread_count(id);
            r.push((id, c));
            i = i + 1;
        }
        r
    }

    /// Unread counts per feed, per tag and overall.
    pub fn get_unread_counts(&self) -> (r: UnreadCounts)
        requires
            self.wf(),
        ensures
            r.per_feed@.len() == self@.feeds.len(),
            forall|k: int| 0 <= k < r.per_feed@.len() ==> #[trigger] r.per_feed@[k] == (self@.feeds[k].id, unread_of(self@.items, self@.feeds[k].id) as u64),
            r.per_tag@.len() == self@.tags.len(),
            forall|k: int| 0 <= k < r.per_tag@.len() ==> #[trigger] r.per_tag@[k] == (self@.tags[k].id, tag_unread(self@.feeds, self@.items, self@.taggings, self@.tags[k].id) as u64),
            r.total == unread_total(self@.items),
    {
        UnreadCounts {
            per_feed: self.unread_counts_by_feed(),
            per_tag: self.unread_counts_by_tag(),
            total: self.total_unread(),
        }
    }
}

} // verus!
