//! The failures that the harness itself can detect.

use vstd::prelude::*;

verus! {

/// Why a component refused to go on.
///
/// Failures of the store never reach this crate: the driver that talks to the
/// store abandons the run on its own when one occurs.
#[derive(Clone, Copy, Debug, PartialEq, Eq, Structural)]
pub enum HarnessError {
    /// A key below the store's reported cardinality was absent on fetch: the
    /// dataset was not generated the way it is being measured.
    MissingKey { key: u64 },
    /// An accumulated logical size would no longer fit in `usize`.
    SizeOverflow,
    /// The driver's answer does not fit the operation the machine asked for.
    UnexpectedAnswer,
    /// The random generator reported a failure while producing bytes. The
    /// generator that the harness draws from has no such failure.
    Randomness,
}

} // verus!
