//! Arrival lookups for transit stops: a timestamped result cache, a permanent
//! list of identifiers known to be invalid, a classifier for the prediction
//! service's payloads, and the decisions that tie them together.

pub mod blocklist;
pub mod cache;
pub mod classifier;
pub mod clock;
pub mod display;
pub mod laws;
pub mod lookup;
pub mod text;
