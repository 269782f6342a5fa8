//! Synthetic workloads for studying how read-access patterns over a large,
//! memory-mapped key-value store interact with the page cache.
//!
//! The crate holds the rules of the harness: how a dataset of a target logical
//! size is produced, how the three traversal strategies choose their probes,
//! and how the bytes they touch are accounted for. The store itself stays
//! outside: every component here is a state machine that names the next store
//! operation and is told how it went.

use vstd::prelude::*;

pub mod accounting;
pub mod coverage;
pub mod error;
pub mod generator;
pub mod random;
pub mod runner;
pub mod value_buffer;

verus! {

/// Default logical size of a generated dataset, in bytes (5 GiB).
pub const DATABASE_SIZE: u64 = 5 * 1024 * 1024 * 1024;

/// Default directory of the dataset.
pub const DATABASE_NAME: &'static str = "random.mdb";

/// Default exclusive upper bound on the length of a generated value.
pub const MAX_VALUE_LEN: usize = 1024;

} // verus!
