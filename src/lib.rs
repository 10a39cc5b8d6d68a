//! A ranked list of entries with dense positions, the review workflow of
//! player records, the scores derived from both, and the cache fingerprints
//! that follow every change.

pub mod cache;
pub mod documentation;
pub mod error;
pub mod laws;
pub mod list;
pub mod ordering;
pub mod records;
pub mod score;
