//! Feed ingestion and synchronization engine: content fingerprints, an item
//! and feed store with per-feed item identity, synchronization of parsed feed
//! documents into the store, and unread-count aggregation.

pub mod fingerprint;
pub mod model;
pub mod store;
pub mod sync;
pub mod aggregate;
pub mod laws;
pub mod queries;
pub mod removal;
pub mod listing;
pub mod auth;
