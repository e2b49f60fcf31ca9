//! A minimal append-mostly key-value registry with single-writer access
//! control: timestamped text records stored under caller-chosen identifiers,
//! readable individually or as a bounded, insertion-order listing.

pub mod laws;
pub mod oracle;
pub mod record;
pub mod store;
