use liu_feed::fingerprint::fingerprint;
use liu_feed::model::{AppError, FetchError, NormalizedEntry, NormalizedFeed, RetrieveError};
use liu_feed::store::Store;
use liu_feed::sync::join_authors;

fn entry(title: &str, content: &str, link: &str, author: &str, published: Option<i64>) -> NormalizedEntry {
    NormalizedEntry {
        title: Some(title.to_string()),
        content: Some(content.to_string()),
        links: vec![link.to_string()],
        authors: vec![author.to_string()],
        published_at: published,
        updated_at: published,
    }
}

fn doc(title: &str, entries: Vec<NormalizedEntry>) -> NormalizedFeed {
    NormalizedFeed {
        title: Some(title.to_string()),
        site_links: vec!["https://example.org/".to_string()],
        entries,
    }
}

fn three_entries() -> Vec<NormalizedEntry> {
    vec![
        entry("one", "first body", "https://example.org/1", "ann", Some(10)),
        entry("two", "second body", "https://example.org/2", "bob", Some(20)),
        entry("three", "third body", "https://example.org/3", "cy", Some(30)),
    ]
}

fn hashes_of(store: &Store, feed_id: i64) -> Vec<String> {
    let mut v: Vec<String> = store.items_of_feed(feed_id).into_iter().map(|i| i.hash).collect();
    v.sort();
    v
}

#[test]
fn fingerprint_known_values() {
    assert_eq!(fingerprint("", ""), "1B2M2Y8AsgTpgAmY7PhCfg==");
    assert_eq!(fingerprint("a", "bc"), "kAFQmDzST7DWlj99KOF/cg==");
    assert_eq!(fingerprint("Hello", "World"), "aOEJ8PQMpyoV4FzCJ4b45g==");
    assert_eq!(fingerprint("Hello", "World").len(), 24);
}

#[test]
fn fingerprint_is_not_its_input() {
    assert_ne!(fingerprint("abc", ""), "abc");
}

#[test]
fn distinct_content_gives_distinct_hashes() {
    assert_ne!(fingerprint("same title", "body one"), fingerprint("same title", "body two"));
}

#[test]
fn same_title_and_content_collapse_to_one_item() {
    let mut store = Store::new();
    let feed = store.create_feed("f", "https://example.org/feed", None, 100).unwrap();
    let a = entry("t", "c", "https://example.org/a", "ann", Some(1));
    let b = entry("t", "c", "https://example.org/b", "bob", Some(2));
    let first = store.create_item_from_entry(feed.id, &a, 100).unwrap().unwrap();
    let second = store.create_item_from_entry(feed.id, &b, 100);
    assert!(matches!(second, Ok(None)));
    assert_eq!(store.get_item_by_id(first.id).unwrap().link, Some("https://example.org/a".to_string()));
    assert_eq!(first.hash, fingerprint("t", "c"));
    assert_eq!(store.items_of_feed(feed.id).len(), 1);
}

#[test]
fn refresh_twice_keeps_the_same_items() {
    let mut store = Store::new();
    let feed = store.create_feed("f", "https://example.org/feed", None, 100).unwrap();
    store.update_feed(feed.id, Ok(doc("f", three_entries())), 200).unwrap();
    let once = hashes_of(&store, feed.id);
    store.update_feed(feed.id, Ok(doc("f", three_entries())), 300).unwrap();
    assert_eq!(hashes_of(&store, feed.id), once);
    assert_eq!(once.len(), 3);
    assert_eq!(store.get_feed_by_id(feed.id).unwrap().updated_at, 300);
}

#[test]
fn add_feed_twice_is_a_conflict() {
    let mut store = Store::new();
    let first = store.add_and_update_feed("https://example.org/feed", Ok(doc("News", three_entries())), 100);
    let feed = first.unwrap();
    assert_eq!(feed.title, "News");
    assert_eq!(feed.site_uri, Some("https://example.org/".to_string()));
    let second = store.add_and_update_feed("https://example.org/feed", Ok(doc("News", vec![])), 200);
    assert_eq!(second.err(), Some(AppError::Conflict));
    assert_eq!(store.feeds().len(), 1);
    assert_eq!(store.items_of_feed(feed.id).len(), 3);
}

#[test]
fn unread_counts_per_feed_and_tag() {
    let mut store = Store::new();
    let a = store.create_feed("a", "https://a.example/", None, 0).unwrap();
    let b = store.create_feed("b", "https://b.example/", None, 0).unwrap();
    let mut ids = Vec::new();
    for k in 0..5 {
        let it = store
            .create_item(a.id, None, format!("a{}", k), String::new(), String::from("x"), 0, 0)
            .unwrap();
        ids.push(it.id);
    }
    store.set_read_state(ids[0], true, false).unwrap();
    store.set_read_state(ids[1], true, true).unwrap();
    assert_eq!(store.unread_count(a.id), 3);
    for k in 0..4 {
        store
            .create_item(b.id, None, format!("b{}", k), String::new(), String::from("y"), 0, 0)
            .unwrap();
    }
    let news = store.create_tag("news").unwrap();
    store.add_tag(a.id, news.id).unwrap();
    store.add_tag(b.id, news.id).unwrap();
    store.add_tag(b.id, news.id).unwrap();
    assert_eq!(store.tag_unread_count(news.id), 7);
    assert_eq!(news.unread_count(&store), 7);
    let counts = store.get_unread_counts();
    assert_eq!(counts.per_feed, vec![(a.id, 3), (b.id, 4)]);
    assert_eq!(counts.per_tag, vec![(news.id, 7)]);
    assert_eq!(counts.total, 7);
    assert_eq!(store.total_unread(), 7);
}

#[test]
fn a_conflicting_entry_does_not_stop_the_others() {
    let mut store = Store::new();
    let feed = store.create_feed("f", "https://example.org/feed", None, 100).unwrap();
    store
        .create_item(feed.id, None, "two".to_string(), String::new(), "second body".to_string(), 5, 5)
        .unwrap();
    let r = store.update_feed(feed.id, Ok(doc("f", three_entries())), 200);
    assert_eq!(r, Ok(()));
    let items = store.items_of_feed(feed.id);
    assert_eq!(items.len(), 3);
    let titles: Vec<String> = items.iter().map(|i| i.title.clone()).collect();
    assert_eq!(titles, vec!["three".to_string(), "one".to_string(), "two".to_string()]);
}

#[test]
fn a_failed_fetch_changes_nothing() {
    let mut store = Store::new();
    let feed = store.create_feed("f", "https://example.org/feed", None, 100).unwrap();
    store.update_feed(feed.id, Ok(doc("f", three_entries())), 200).unwrap();
    let before = hashes_of(&store, feed.id);
    let r = store.update_feed(feed.id, Err(RetrieveError::Fetch(FetchError::HttpStatus(500))), 300);
    assert_eq!(r, Err(AppError::Fetch(FetchError::HttpStatus(500))));
    assert_eq!(store.get_feed_by_id(feed.id).unwrap().updated_at, 200);
    assert_eq!(hashes_of(&store, feed.id), before);
}

#[test]
fn a_parse_failure_propagates() {
    let mut store = Store::new();
    let r = store.add_and_update_feed("https://example.org/feed", Err(RetrieveError::Parse), 1);
    assert_eq!(r.err(), Some(AppError::Parse));
    assert_eq!(store.feeds().len(), 0);
}

#[test]
fn entry_for_unknown_feed_is_not_found() {
    let mut store = Store::new();
    let r = store.create_item_from_entry(5, &entry("t", "c", "https://x/", "a", None), 1);
    assert!(matches!(r, Err(AppError::NotFound)));
}

#[test]
fn fingerprints_have_fixed_length() {
    assert_eq!(fingerprint("", "").len(), 24);
    assert_eq!(fingerprint(&"t".repeat(1000), &"c".repeat(777)).len(), 24);
}

#[test]
fn refreshing_an_unknown_feed_is_not_found() {
    let mut store = Store::new();
    assert_eq!(store.update_feed(42, Ok(doc("f", vec![])), 1), Err(AppError::NotFound));
}

#[test]
fn entry_fields_become_item_fields() {
    let mut store = Store::new();
    let feed = store.create_feed("f", "https://example.org/feed", None, 100).unwrap();
    let e = NormalizedEntry {
        title: None,
        content: Some("body".to_string()),
        links: vec!["https://example.org/x".to_string(), "https://example.org/y".to_string()],
        authors: vec!["ann".to_string(), "bob".to_string()],
        published_at: None,
        updated_at: Some(7),
    };
    let it = store.create_item_from_entry(feed.id, &e, 99).unwrap().unwrap();
    assert_eq!(it.title, "");
    assert_eq!(it.link, Some("https://example.org/x".to_string()));
    assert_eq!(it.author, "ann, bob");
    assert_eq!(it.created_at, 99);
    assert_eq!(it.updated_at, 7);
    assert!(!it.read && !it.star);
    assert_eq!(it.hash, fingerprint("", "body"));
}

#[test]
fn authors_are_joined() {
    assert_eq!(join_authors(&vec![]), "");
    assert_eq!(join_authors(&vec!["a".to_string()]), "a");
    assert_eq!(join_authors(&vec!["a".to_string(), "b".to_string(), "c".to_string()]), "a, b, c");
}
