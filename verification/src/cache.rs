//! Caches on disk: what their entries are called, and when one is used, made or
//! dropped.
pub mod git;
pub mod key;
pub mod keyed_lock;
pub mod materialize;
