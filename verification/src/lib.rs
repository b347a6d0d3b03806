//! A record-keeping engine for a publishing platform: posts, threaded
//! comments, vote tallies, a donation ledger, and paginated reads over them.
//!
//! The engine is a purely logical data store.  The hosting environment drives
//! it one call at a time and supplies, with every call, the caller identity,
//! the current timestamp and the available balance (an [`engine::ExecutionContext`]);
//! it also performs the actual value transfer that a donation requests.

pub mod comment;
pub mod donation;
pub mod engine;
pub mod errors;
pub mod ids;
pub mod laws;
pub mod post;
pub mod votes;
