//! Feed synchronization and notification pipeline.
//!
//! The library holds the verified core of a feed reader: parsing feed
//! documents with a two-format fallback, planning post records from feed
//! entries, deduplicating and persisting them in a store, backing off on
//! transient content fetches, extracting preview images, and classifying
//! push-delivery responses while pruning stale subscriptions.

pub mod feed;
pub mod html;
pub mod push;
pub mod retry;
pub mod store;
pub mod sync;
