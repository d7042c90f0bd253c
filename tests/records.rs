use liu_feed::auth::check_token;
use liu_feed::model::{AppError, Feed};
use liu_feed::store::Store;

#[test]
fn item_for_unknown_feed_is_not_found() {
    let mut store = Store::new();
    let r = store.create_item(9, None, "t".to_string(), String::new(), "c".to_string(), 0, 0);
    assert_eq!(r.err(), Some(AppError::NotFound));
}

#[test]
fn lookups_by_id_and_uri() {
    let mut store = Store::new();
    let f = store.create_feed("f", "https://example.org/feed", Some("https://example.org/"), 5).unwrap();
    assert_eq!(store.get_feed_by_uri("https://example.org/feed").unwrap().id, f.id);
    assert_eq!(store.get_feed_by_uri("https://other/").err(), Some(AppError::NotFound));
    assert_eq!(store.get_feed_by_id(f.id + 1).err(), Some(AppError::NotFound));
    let it = store.create_item(f.id, None, "t".to_string(), "me".to_string(), "c".to_string(), 1, 2).unwrap();
    assert_eq!(store.get_item_by_id(it.id).unwrap().title, "t");
    assert_eq!(store.get_item_by_id(it.id + 1).err(), Some(AppError::NotFound));
    assert_eq!(store.feed_of_item(it.id).unwrap().id, f.id);
    assert_eq!(store.set_read_state(it.id + 1, true, true), Err(AppError::NotFound));
}

#[test]
fn ids_are_never_reused() {
    let mut store = Store::new();
    let a = store.create_feed("a", "https://a/", None, 0).unwrap();
    store.delete_feed(a.id).unwrap();
    let b = store.create_feed("a", "https://a/", None, 0).unwrap();
    assert!(b.id > a.id);
}

#[test]
fn delete_cascades() {
    let mut store = Store::new();
    let a = store.create_feed("a", "https://a/", None, 0).unwrap();
    let b = store.create_feed("b", "https://b/", None, 0).unwrap();
    let t = store.create_tag("news").unwrap();
    store.add_tag(a.id, t.id).unwrap();
    store.add_tag(b.id, t.id).unwrap();
    let ia = store.create_item(a.id, None, "x".to_string(), String::new(), "y".to_string(), 0, 0).unwrap();
    let ib = store.create_item(b.id, None, "x".to_string(), String::new(), "y".to_string(), 0, 0).unwrap();
    assert_eq!(store.delete_feed(a.id), Ok(()));
    assert_eq!(store.delete_feed(a.id), Err(AppError::NotFound));
    assert_eq!(store.get_item_by_id(ia.id).err(), Some(AppError::NotFound));
    assert!(store.get_item_by_id(ib.id).is_ok());
    let left: Vec<i64> = store.feeds_of_tag(t.id).iter().map(|f| f.id).collect();
    assert_eq!(left, vec![b.id]);
    assert_eq!(store.tags_of_feed(b.id).len(), 1);
    assert_eq!(store.tags_of_feed(a.id).len(), 0);
}

#[test]
fn save_feed_updates_fields_and_guards_uri() {
    let mut store = Store::new();
    let a = store.create_feed("a", "https://a/", None, 0).unwrap();
    let b = store.create_feed("b", "https://b/", None, 0).unwrap();
    let renamed = Feed::new(a.id, "A", "https://a/", Some("https://site/"), 50);
    assert_eq!(store.save_feed(&renamed), Ok(()));
    let got = store.get_feed_by_id(a.id).unwrap();
    assert_eq!(got.title, "A");
    assert_eq!(got.updated_at, 50);
    let clash = Feed::new(b.id, "b", "https://a/", None, 0);
    assert_eq!(store.save_feed(&clash), Err(AppError::Conflict));
    let ghost_feed = Feed::new(99, "z", "https://z/", None, 0);
    assert_eq!(store.save_feed(&ghost_feed), Err(AppError::NotFound));
}

#[test]
fn tags_conflict_and_unknowns() {
    let mut store = Store::new();
    let a = store.create_feed("a", "https://a/", None, 0).unwrap();
    let t = store.create_tag("news").unwrap();
    assert_eq!(store.create_tag("news").err(), Some(AppError::Conflict));
    assert_eq!(store.add_tag(a.id, t.id + 5), Err(AppError::NotFound));
    assert_eq!(store.add_tag(a.id + 5, t.id), Err(AppError::NotFound));
    assert_eq!(store.tags().len(), 1);
}

#[test]
fn items_listed_newest_first() {
    let mut store = Store::new();
    let a = store.create_feed("a", "https://a/", None, 0).unwrap();
    for (k, t) in [5i64, 9, 1, 7].iter().enumerate() {
        store.create_item(a.id, None, format!("i{}", k), String::new(), String::new(), *t, *t).unwrap();
    }
    let times: Vec<i64> = store.items_of_feed(a.id).iter().map(|i| i.updated_at).collect();
    assert_eq!(times, vec![9, 7, 5, 1]);
}

#[test]
fn error_descriptions() {
    assert_eq!(AppError::Conflict.describe(), "already present");
    assert_eq!(AppError::NotFound.describe(), "not found");
}

#[test]
fn token_check_needs_a_header() {
    assert!(check_token(Some(b"GoogleLogin auth=noauth".as_slice())));
    assert!(!check_token(None));
}
