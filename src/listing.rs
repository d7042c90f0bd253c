//! A feed's items, newest first.

use vstd::prelude::*;
use vstd::seq_lib::{to_multiset_build, to_multiset_insert};
use crate::model::{Item, ItemView};
use crate::store::Store;

verus! {

pub open spec fn item_views(v: Seq<Item>) -> Seq<ItemView> {
    v.map_values(|it: Item| it@)
}

pub open spec fn of_feed(feed_id: i64) -> spec_fn(ItemView) -> bool {
    |it: ItemView| it.feed_id == feed_id
}

/// Items ordered by `updated_at`, newest first.
pub open spec fn newest_first(v: Seq<ItemView>) -> bool {
    forall|a: int, b: int| 0 <= a < b < v.len() ==> v[a].updated_at >= v[b].updated_at
}

impl Store {
    /// The items of feed `feed_id`, newest `updated_at` first.
    pub fn items_of_feed(&self, feed_id: i64) -> (r: Vec<Item>)
        ensures
            newest_first(item_views(r@)),
            item_views(r@).to_multiset() == self@.items.filter(of_feed(feed_id)).to_multiset(),
    {
        let ghost p = of_feed(feed_id);
        let mut r: Vec<Item> = Vec::new();
        let mut i: usize = 0;
        proof {
            reveal(Seq::filter);
            assert(item_views(r@) =~= self@.items.take(0).filter(p));
        }
        while i < self.items.len()
            invariant
                i <= self.items@.len(),
                p == of_feed(feed_id),
                newest_first(item_views(r@)),
                item_views(r@).to_multiset() == self@.items.take(i as int).filter(p).to_multiset(),
            decreases self.items@.len() - i,
        {
            proof {
                reveal(Seq::filter);
                assert(self@.items.take(i + 1).drop_last() =~= self@.items.take(i as int));
            }
            if self.items[i].feed_id == feed_id {
                let x = self.items[i].duplicate();
                let mut pos: usize = 0;
                while pos < r.len() && r[pos].updated_at >= x.updated_at
                    invariant
                        pos <= r@.len(),
                        newest_first(item_views(r@)),
                        forall|k: int| 0 <= k < pos ==> r@[k].updated_at >= x.updated_at,
                    decreases r@.len() - pos,
                {
                    pos = pos + 1;
                }
                let ghost before = item_views(r@);
                let ghost xv = x@;
                assert(pos < before.len() ==> before[pos as int].updated_at < xv.updated_at);
                r.insert(pos, x);
                proof {
                    let now = item_views(r@);
                    assert(now =~= before.insert(pos as int, xv));
                    assert forall|a: int, b: int| 0 <= a < b < now.len() implies now[a].updated_at >= now[b].updated_at by {
                        if b < pos {
                        } else if b == pos {
                            assert(now[a] == before[a]);
                        } else if a < pos {
                            assert(now[a] == before[a] && now[b] == before[b - 1]);
                        } else if a == pos {
                            assert(now[b] == before[b - 1]);
                        } else {
                            assert(now[a] == before[a - 1] && now[b] == before[b - 1]);
                        }
                    }
                    assert(item_views(r@) =~= before.insert(pos as int, self@.items[i as int]));
                    to_multiset_insert(before, pos as int, self@.items[i as int]);
                    to_multiset_build(self@.items.take(i as int).filter(p), self@.items[i as int]);
                }
            }
            i = i + 1;
        }
        proof {
            assert(self@.items.take(i as int) =~= self@.items);
        }
        r
    }
}

} // verus!
