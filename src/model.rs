//! The records of the store, the normalized shape of a parsed feed document,
//! and the error taxonomy.

use vstd::prelude::*;

verus! {

/// The text of an optional string, as an optional character sequence.
pub open spec fn opt_text(o: Option<String>) -> Option<Seq<char>> {
    match o {
        Some(s) => Some(s@),
        None => None,
    }
}

/// Copies an optional string.
pub fn copy_opt(o: &Option<String>) -> (r: Option<String>)
    ensures
        opt_text(r) == opt_text(*o),
{
    match o {
        Some(s) => Some(s.clone()),
        None => None,
    }
}

/// A subscribed feed.
pub struct Feed {
    pub id: i64,
    pub title: String,
    pub feed_uri: String,
    pub site_uri: Option<String>,
    /// Seconds since the Unix epoch of the last successful synchronization.
    pub updated_at: i64,
}

pub struct FeedView {
    pub id: i64,
    pub title: Seq<char>,
    pub feed_uri: Seq<char>,
    pub site_uri: Option<Seq<char>>,
    pub updated_at: i64,
}

impl View for Feed {
    type V = FeedView;

    open spec fn view(&self) -> FeedView {
        FeedView {
            id: self.id,
            title: self.title@,
            feed_uri: self.feed_uri@,
            site_uri: opt_text(self.site_uri),
            updated_at: self.updated_at,
        }
    }
}

impl Feed {
    pub fn new(id: i64, title: &str, feed_uri: &str, site_uri: Option<&str>, updated_at: i64) -> (r: Feed)
        ensures
            r@ == (FeedView {
                id,
                title: title@,
                feed_uri: feed_uri@,
                site_uri: match site_uri {
                    Some(s) => Some(s@),
                    None => None,
                },
                updated_at,
            }),
    {
        let site = match site_uri {
            Some(s) => Some(s.to_owned()),
            None => None,
        };
        Feed { id, title: title.to_owned(), feed_uri: feed_uri.to_owned(), site_uri: site, updated_at }
    }

    /// A copy of this feed.
    pub fn duplicate(&self) -> (r: Feed)
        ensures
            r@ == self@,
    {
        Feed {
            id: self.id,
            title: self.title.clone(),
            feed_uri: self.feed_uri.clone(),
            site_uri: copy_opt(&self.site_uri),
            updated_at: self.updated_at,
        }
    }
}

/// One stored entry of a feed.
pub struct Item {
    pub id: i64,
    pub feed_id: i64,
    pub hash: String,
    pub link: Option<String>,
    pub title: String,
    pub author: String,
    pub content: String,
    pub created_at: i64,
    pub updated_at: i64,
    pub read: bool,
    pub star: bool,
}

pub struct ItemView {
    pub id: i64,
    pub feed_id: i64,
    pub hash: Seq<char>,
    pub link: Option<Seq<char>>,
    pub title: Seq<char>,
    pub author: Seq<char>,
    pub content: Seq<char>,
    pub created_at: i64,
    pub updated_at: i64,
    pub read: bool,
    pub star: bool,
}

impl View for Item {
    type V = ItemView;

    open spec fn view(&self) -> ItemView {
        ItemView {
            id: self.id,
            feed_id: self.feed_id,
            hash: self.hash@,
            link: opt_text(self.link),
            title: self.title@,
            author: self.author@,
            content: self.content@,
            created_at: self.created_at,
            updated_at: self.updated_at,
            read: self.read,
            star: self.star,
        }
    }
}

impl Item {
    /// A copy of this item.
    pub fn duplicate(&self) -> (r: Item)
        ensures
            r@ == self@,
    {
        Item {
            id: self.id,
            feed_id: self.feed_id,
            hash: self.hash.clone(),
            link: copy_opt(&self.link),
            title: self.title.clone(),
            author: self.author.clone(),
            content: self.content.clone(),
            created_at: self.created_at,
            updated_at: self.updated_at,
            read: self.read,
            star: self.star,
        }
    }
}

/// A user-defined label attachable to feeds.
pub struct Tag {
    pub id: i64,
    pub name: String,
}

pub struct TagView {
    pub id: i64,
    pub name: Seq<char>,
}

impl View for Tag {
    type V = TagView;

    open spec fn view(&self) -> TagView {
        TagView { id: self.id, name: self.name@ }
    }
}

impl Tag {
    /// A copy of this tag.
    pub fn duplicate(&self) -> (r: Tag)
        ensures
            r@ == self@,
    {
        Tag { id: self.id, name: self.name.clone() }
    }
}

/// One entry of a parsed feed document. Timestamps are seconds since the
/// Unix epoch.
pub struct NormalizedEntry {
    pub title: Option<String>,
    pub content: Option<String>,
    pub links: Vec<String>,
    pub authors: Vec<String>,
    pub published_at: Option<i64>,
    pub updated_at: Option<i64>,
}

/// A parsed feed document: its metadata and its entries in document order.
pub struct NormalizedFeed {
    pub title: Option<String>,
    pub site_links: Vec<String>,
    pub entries: Vec<NormalizedEntry>,
}

/// Why retrieving a feed document over the network failed.
#[derive(Clone, Copy, Debug, PartialEq, Eq, Structural)]
pub enum FetchError {
    /// Connection, timeout or name resolution failure.
    Network,
    /// The server answered with a non-success status code.
    HttpStatus(u16),
    /// The response body could not be decoded.
    Decode,
}

/// Why a feed document could not be had: the fetch or the parse failed.
#[derive(Clone, Copy, Debug, PartialEq, Eq, Structural)]
pub enum RetrieveError {
    Fetch(FetchError),
    Parse,
}

/// The errors of the store and of synchronization.
#[derive(Clone, Copy, Debug, PartialEq, Eq, Structural)]
pub enum AppError {
    /// Retrieving the feed document failed.
    Fetch(FetchError),
    /// The feed document was malformed.
    Parse,
    /// A feed URI, tag name or item fingerprint is already present.
    Conflict,
    /// No record has the requested id or URI.
    NotFound,
    /// The store cannot take another record.
    Store,
}

impl AppError {
    /// The store error that a retrieval failure propagates as.
    pub fn from_retrieve(e: RetrieveError) -> (r: AppError)
        ensures
            r == retrieve_error(e),
    {
        match e {
            RetrieveError::Fetch(f) => AppError::Fetch(f),
            RetrieveError::Parse => AppError::Parse,
        }
    }

    /// A short description of the error.
    pub fn describe(&self) -> (r: &'static str) {
        match self {
            AppError::Fetch(_) => "cannot retrieve feed source",
            AppError::Parse => "malformed feed document",
            AppError::Conflict => "already present",
            AppError::NotFound => "not found",
            AppError::Store => "store is full",
        }
    }
}

pub open spec fn retrieve_error(e: RetrieveError) -> AppError {
    match e {
        RetrieveError::Fetch(f) => AppError::Fetch(f),
        RetrieveError::Parse => AppError::Parse,
    }
}

} // verus!
