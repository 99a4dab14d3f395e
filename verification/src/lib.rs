//! Acquisition pipeline for a desktop-wallpaper harvester.
//!
//! The crate models the pipeline's logic: a capped exponential retry
//! policy, a paginated listing stream, a persistent deduplication ledger,
//! payload classification (direct image or one of two gallery layouts) and
//! the quota-bounded resolver engine that ties them together.  Network and
//! file traffic stay outside; the pipeline is driven by feeding fetched
//! bytes and store outcomes into the state machines defined here.

pub mod backoff;
pub mod engine;
pub mod gallery;
pub mod json;
pub mod ledger;
pub mod listing;
pub mod media;
pub mod picker;
pub mod store;
pub mod text;

pub use backoff::{BackoffPolicy, RetryDecision};
