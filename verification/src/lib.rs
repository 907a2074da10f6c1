//! Synchronisation core for an asset ledger: it turns the registration and
//! ownership-transfer events of an append-only ledger into a relational
//! projection (assets and transfers) and into aggregate analytics.
//!
//! The crate holds the decisions and the data; reading from the ledger,
//! persisting rows and publishing snapshots are left to the caller.

pub mod analytics;
pub mod batch;
pub mod chunk;
pub mod decoder;
pub mod encoding;
pub mod events;
pub mod failures;
pub mod funds;
pub mod history;
pub mod models;
pub mod projector;
pub mod queries;
pub mod receipts;
pub mod store;
pub mod sync;
pub mod text;
