//! What holds of synchronization, fingerprints and subscription across calls.

use vstd::prelude::*;
use vstd::utf8::{encode_utf8, encode_utf8_decode_utf8};
use crate::fingerprint::{base64_digit, base64_of, lemma_base64_len, fingerprint_input, fingerprint_of, md5_of};
use crate::model::{AppError, NormalizedEntry, NormalizedFeed};
use crate::store::{feed_refusal, has_feed, has_feed_uri, has_item, insert_feed, item_refusal, items_full, store_wf, StoreView, CAPACITY, MAX_ID};
use crate::sync::{add_entry, entry_content, entry_hash, entry_title, ingest, refresh, set_watermark, subscribe};

verus! {

/// Offering entry `e` to feed `feed_id` in store `s` cannot add an item: one
/// with its fingerprint is present, the store takes no more items, or the
/// feed is unknown.
pub open spec fn settled(s: StoreView, feed_id: i64, e: NormalizedEntry) -> bool {
    has_item(s, feed_id, entry_hash(e)) || items_full(s) || !has_feed(s, feed_id)
}

proof fn lemma_add_entry_keeps_settled(s: StoreView, feed_id: i64, e: NormalizedEntry, x: NormalizedEntry, now: i64)
    requires
        settled(s, feed_id, x),
    ensures
        settled(add_entry(s, feed_id, e, now), feed_id, x),
{
    let s2 = add_entry(s, feed_id, e, now);
    if item_refusal(s, feed_id, entry_hash(e)) is None {
        assert(s2.feeds == s.feeds);
        if has_item(s, feed_id, entry_hash(x)) {
            let i = choose|i: int| 0 <= i < s.items.len() && s.items[i].feed_id == feed_id && s.items[i].hash == entry_hash(x);
            assert(s2.items[i] == s.items[i]);
        }
    }
}

proof fn lemma_add_entry_settles(s: StoreView, feed_id: i64, e: NormalizedEntry, now: i64)
    ensures
        settled(add_entry(s, feed_id, e, now), feed_id, e),
{
    let s2 = add_entry(s, feed_id, e, now);
    if item_refusal(s, feed_id, entry_hash(e)) is None {
        let i = s.items.len() as int;
        assert(s2.items[i].feed_id == feed_id && s2.items[i].hash == entry_hash(e));
    }
}

proof fn lemma_ingest_settles(s: StoreView, feed_id: i64, es: Seq<NormalizedEntry>, now: i64)
    ensures
        forall|k: int| 0 <= k < es.len() ==> settled(ingest(s, feed_id, es, now), feed_id, #[trigger] es[k]),
    decreases es.len(),
{
    if es.len() > 0 {
        let init = es.drop_last();
        let p = ingest(s, feed_id, init, now);
        lemma_ingest_settles(s, feed_id, init, now);
        assert forall|k: int| 0 <= k < es.len() implies settled(ingest(s, feed_id, es, now), feed_id, #[trigger] es[k]) by {
            if k < es.len() - 1 {
                assert(init[k] == es[k]);
                lemma_add_entry_keeps_settled(p, feed_id, es.last(), es[k], now);
            } else {
                lemma_add_entry_settles(p, feed_id, es.last(), now);
            }
        }
    }
}

proof fn lemma_ingest_settled_unchanged(s: StoreView, feed_id: i64, es: Seq<NormalizedEntry>, now: i64)
    requires
        forall|k: int| 0 <= k < es.len() ==> settled(s, feed_id, #[trigger] es[k]),
    ensures
        ingest(s, feed_id, es, now) == s,
    decreases es.len(),
{
    if es.len() > 0 {
        let init = es.drop_last();
        assert forall|k: int| 0 <= k < init.len() implies settled(s, feed_id, #[trigger] init[k]) by {
            assert(init[k] == es[k]);
        }
        lemma_ingest_settled_unchanged(s, feed_id, init, now);
        assert(settled(s, feed_id, es[es.len() - 1]));
    }
}

proof fn lemma_watermark_keeps_feed(s: StoreView, feed_id: i64, now: i64)
    ensures
        set_watermark(s, feed_id, now).items == s.items,
        has_feed(set_watermark(s, feed_id, now), feed_id) == has_feed(s, feed_id),
{
    let w = set_watermark(s, feed_id, now);
    if has_feed(s, feed_id) {
        let i = choose|i: int| 0 <= i < s.feeds.len() && s.feeds[i].id == feed_id;
        assert(w.feeds[i].id == feed_id);
    }
    if has_feed(w, feed_id) {
        let i = choose|i: int| 0 <= i < w.feeds.len() && w.feeds[i].id == feed_id;
        assert(s.feeds[i].id == feed_id);
    }
}

proof fn lemma_watermark_keeps_settled(s: StoreView, feed_id: i64, now: i64, e: NormalizedEntry)
    ensures
        settled(set_watermark(s, feed_id, now), feed_id, e) == settled(s, feed_id, e),
{
    lemma_watermark_keeps_feed(s, feed_id, now);
}

/// Refreshing a feed twice from the same unchanged document leaves the same
/// items, and the same next item id, as refreshing it once.
pub proof fn lemma_refresh_idempotent(s: StoreView, feed_id: i64, doc: NormalizedFeed, t1: i64, t2: i64)
    ensures
        refresh(refresh(s, feed_id, doc, t1), feed_id, doc, t2).items == refresh(s, feed_id, doc, t1).items,
        refresh(refresh(s, feed_id, doc, t1), feed_id, doc, t2).next_item_id == refresh(s, feed_id, doc, t1).next_item_id,
{
    if has_feed(s, feed_id) {
        let es = doc.entries@;
        let p = ingest(s, feed_id, es, t1);
        let s1 = refresh(s, feed_id, doc, t1);
        crate::sync::lemma_ingest_keeps_feeds(s, feed_id, es, t1);
        assert(has_feed(p, feed_id));
        lemma_ingest_settles(s, feed_id, es, t1);
        assert forall|k: int| 0 <= k < es.len() implies settled(s1, feed_id, #[trigger] es[k]) by {
            lemma_watermark_keeps_settled(p, feed_id, t1, es[k]);
        }
        lemma_watermark_keeps_feed(p, feed_id, t1);
        assert(has_feed(s1, feed_id));
        lemma_ingest_settled_unchanged(s1, feed_id, es, t2);
    }
}

proof fn lemma_ingest_growth(s: StoreView, feed_id: i64, es: Seq<NormalizedEntry>, now: i64)
    ensures
        ingest(s, feed_id, es, now).items.len() <= s.items.len() + es.len(),
        ingest(s, feed_id, es, now).next_item_id <= s.next_item_id + es.len(),
    decreases es.len(),
{
    if es.len() > 0 {
        lemma_ingest_growth(s, feed_id, es.drop_last(), now);
    }
}

/// After a successful refresh every entry of the document is stored, whether
/// it was new or already present: an entry that is refused as a duplicate
/// does not keep the others out. The store must have room for all of them.
pub proof fn lemma_refresh_stores_every_entry(s: StoreView, feed_id: i64, doc: NormalizedFeed, now: i64)
    requires
        has_feed(s, feed_id),
        s.items.len() + doc.entries@.len() < CAPACITY,
        s.next_item_id + doc.entries@.len() < MAX_ID,
    ensures
        forall|k: int| 0 <= k < doc.entries@.len() ==>
            has_item(refresh(s, feed_id, doc, now), feed_id, #[trigger] entry_hash(doc.entries@[k])),
{
    let es = doc.entries@;
    let p = ingest(s, feed_id, es, now);
    crate::sync::lemma_ingest_keeps_feeds(s, feed_id, es, now);
    lemma_ingest_growth(s, feed_id, es, now);
    lemma_ingest_settles(s, feed_id, es, now);
    lemma_watermark_keeps_feed(p, feed_id, now);
    assert(has_feed(p, feed_id));
    assert(!items_full(p));
    assert forall|k: int| 0 <= k < es.len() implies has_item(refresh(s, feed_id, doc, now), feed_id, #[trigger] entry_hash(es[k])) by {
        assert(settled(p, feed_id, es[k]));
    }
}

/// Entries with the same title and content have the same fingerprint,
/// whatever their links, authors and timestamps; offering the second after
/// the first leaves the store as the first left it.
pub proof fn lemma_same_text_collapses(s: StoreView, feed_id: i64, e1: NormalizedEntry, e2: NormalizedEntry, t1: i64, t2: i64)
    requires
        entry_title(e1) == entry_title(e2),
        entry_content(e1) == entry_content(e2),
    ensures
        entry_hash(e1) == entry_hash(e2),
        add_entry(add_entry(s, feed_id, e1, t1), feed_id, e2, t2) == add_entry(s, feed_id, e1, t1),
{
    lemma_add_entry_settles(s, feed_id, e1, t1);
}

/// Entries with the same title and different content hand different bytes
/// to the digest.
pub proof fn lemma_distinct_content_inputs(title: Seq<char>, c1: Seq<char>, c2: Seq<char>)
    requires
        c1 != c2,
    ensures
        fingerprint_input(title, c1) != fingerprint_input(title, c2),
{
    let t = encode_utf8(title);
    if fingerprint_input(title, c1) == fingerprint_input(title, c2) {
        let b = fingerprint_input(title, c1);
        assert(b.subrange(t.len() as int, b.len() as int) =~= encode_utf8(c1));
        assert(fingerprint_input(title, c2).subrange(t.len() as int, b.len() as int) =~= encode_utf8(c2));
        encode_utf8_decode_utf8(c1);
        encode_utf8_decode_utf8(c2);
    }
}

proof fn lemma_base64_digit_injective(v: int, w: int)
    requires
        0 <= v < 64,
        0 <= w < 64,
    ensures
        base64_digit(v) == base64_digit(w) ==> v == w,
        base64_digit(v) != '=',
{
}

/// Base64 text tells its bytes apart: different byte sequences have
/// different encodings.
pub proof fn lemma_base64_injective(a: Seq<u8>, b: Seq<u8>)
    requires
        base64_of(a) == base64_of(b),
    ensures
        a == b,
    decreases a.len(),
{
    lemma_base64_len(a);
    lemma_base64_len(b);
    let ea = base64_of(a);
    let eb = base64_of(b);
    if a.len() > 0 && b.len() > 0 {
        let (x, y, z) = (a[0] as int, if a.len() > 1 { a[1] as int } else { 0 }, if a.len() > 2 { a[2] as int } else { 0 });
        let (p, q, r) = (b[0] as int, if b.len() > 1 { b[1] as int } else { 0 }, if b.len() > 2 { b[2] as int } else { 0 });
        assert(ea[0] == eb[0]);
        lemma_base64_digit_injective(x / 4, p / 4);
        assert(ea[1] == eb[1]);
        lemma_base64_digit_injective((x % 4) * 16 + y / 16, (p % 4) * 16 + q / 16);
        assert(x == p);
        assert(ea[2] == eb[2]);
        assert(ea[3] == eb[3]);
        if a.len() >= 3 && b.len() >= 3 {
            lemma_base64_digit_injective((y % 16) * 4 + z / 64, (q % 16) * 4 + r / 64);
            lemma_base64_digit_injective(z % 64, r % 64);
            assert(y == q);
            assert(z == r);
            let ra = a.subrange(3, a.len() as int);
            let rb = b.subrange(3, b.len() as int);
            assert(ea.subrange(4, ea.len() as int) =~= base64_of(ra));
            assert(eb.subrange(4, eb.len() as int) =~= base64_of(rb));
            lemma_base64_injective(ra, rb);
            assert(a =~= seq![a[0], a[1], a[2]] + ra);
            assert(b =~= seq![b[0], b[1], b[2]] + rb);
        } else if a.len() == 2 && b.len() == 2 {
            lemma_base64_digit_injective((y % 16) * 4, (q % 16) * 4);
            assert(y == q);
            assert(a =~= b);
        } else if a.len() == 1 && b.len() == 1 {
            assert(a =~= b);
        } else if a.len() == 2 {
            lemma_base64_digit_injective((y % 16) * 4, 0);
            if b.len() >= 3 {
                lemma_base64_digit_injective((q % 16) * 4 + r / 64, 0);
                lemma_base64_digit_injective(r % 64, 0);
            }
        } else if b.len() == 2 {
            lemma_base64_digit_injective((q % 16) * 4, 0);
            if a.len() >= 3 {
                lemma_base64_digit_injective((y % 16) * 4 + z / 64, 0);
                lemma_base64_digit_injective(z % 64, 0);
            }
        } else if a.len() == 1 {
            lemma_base64_digit_injective((q % 16) * 4 + r / 64, 0);
        } else {
            lemma_base64_digit_injective((y % 16) * 4 + z / 64, 0);
        }
    } else if a.len() > 0 || b.len() > 0 {
        assert(ea.len() != eb.len());
    } else {
        assert(a =~= b);
    }
}

/// Entries with the same title and different content have different
/// fingerprints, except where MD5 collides on their inputs.
pub proof fn lemma_distinct_content_hashes(title: Seq<char>, c1: Seq<char>, c2: Seq<char>)
    requires
        c1 != c2,
        md5_of(fingerprint_input(title, c1)) != md5_of(fingerprint_input(title, c2)),
    ensures
        fingerprint_of(title, c1) != fingerprint_of(title, c2),
{
    if fingerprint_of(title, c1) == fingerprint_of(title, c2) {
        lemma_base64_injective(md5_of(fingerprint_input(title, c1)), md5_of(fingerprint_input(title, c2)));
    }
}

/// Subscribing to a URI a second time is refused as a conflict and changes
/// nothing, and the store holds exactly one feed with that URI. The first
/// subscription must have found room for the feed, or the URI registered.
pub proof fn lemma_subscribe_twice(s: StoreView, uri: Seq<char>, d1: NormalizedFeed, d2: NormalizedFeed, t1: i64, t2: i64)
    requires
        store_wf(s),
        feed_refusal(s, uri) != Some(AppError::Store),
    ensures
        feed_refusal(subscribe(s, uri, d1, t1), uri) == Some(AppError::Conflict),
        subscribe(subscribe(s, uri, d1, t1), uri, d2, t2) == subscribe(s, uri, d1, t1),
        exists|i: int| 0 <= i < subscribe(s, uri, d1, t1).feeds.len() && subscribe(s, uri, d1, t1).feeds[i].feed_uri == uri,
        forall|i: int, j: int|
            0 <= i < subscribe(s, uri, d1, t1).feeds.len() && 0 <= j < subscribe(s, uri, d1, t1).feeds.len()
            && subscribe(s, uri, d1, t1).feeds[i].feed_uri == uri && subscribe(s, uri, d1, t1).feeds[j].feed_uri == uri
            ==> i == j,
{
    let s1 = subscribe(s, uri, d1, t1);
    if feed_refusal(s, uri) is None {
        let f = insert_feed(s, crate::sync::doc_title(d1), uri, crate::sync::doc_site(d1), t1);
        crate::sync::lemma_ingest_keeps_feeds(f, s.next_feed_id, d1.entries@, t1);
        assert(s1.feeds == f.feeds);
        let n = s.feeds.len() as int;
        assert(s1.feeds[n].feed_uri == uri);
        assert(has_feed_uri(s1, uri));
    } else {
        assert(has_feed_uri(s, uri));
        assert forall|i: int, j: int|
            0 <= i < s1.feeds.len() && 0 <= j < s1.feeds.len() && s1.feeds[i].feed_uri == uri && s1.feeds[j].feed_uri == uri
            implies i == j by {
            if i < j {
                assert(s.feeds[i].id != s.feeds[j].id);
            } else if j < i {
                assert(s.feeds[j].id != s.feeds[i].id);
            }
        }
    }
}

} // verus!
