//! Resilient fetch layer for a package-registry explorer: a persisted
//! URL-to-ETag cache with a verified JSON codec, classification of
//! conditional HTTP responses, bounded retry with exponential backoff,
//! and deterministic merging of paginated registry records.
//!
//! All network and file system work lives in the surrounding binary; this
//! crate holds the decisions and data transformations, each with a contract.

pub mod codec;
pub mod config;
pub mod dataset;
pub mod etag;
pub mod fetch;
pub mod filter;
pub mod repo;
pub mod retry;
pub mod text;
