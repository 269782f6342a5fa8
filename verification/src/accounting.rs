//! Logical sizes: the bytes of keys and values, without the store's overhead.

use vstd::prelude::*;
use crate::error::HarnessError;

verus! {

/// Encoded width of a key in bytes: a 64-bit integer, big-endian, so that the
/// store's byte-wise order is the numeric order.
pub const KEY_WIDTH: usize = 8;

/// Logical size of one entry whose value is `value_len` bytes long.
pub open spec fn entry_size(value_len: nat) -> nat {
    KEY_WIDTH as nat + value_len
}

/// Logical size of a run of entries, given the length of each value.
pub open spec fn logical_size(value_lens: Seq<nat>) -> nat
    decreases value_lens.len(),
{
    if value_lens.len() == 0 {
        0
    } else {
        logical_size(value_lens.drop_last()) + entry_size(value_lens.last())
    }
}

/// Adding one entry to a run adds its size to the total.
pub proof fn lemma_logical_size_push(value_lens: Seq<nat>, value_len: nat)
    ensures
        logical_size(value_lens.push(value_len)) == logical_size(value_lens) + entry_size(value_len),
{
    assert(value_lens.push(value_len).drop_last() =~= value_lens);
}

/// Every entry takes at least the width of its key.
pub proof fn lemma_logical_size_at_least_keys(value_lens: Seq<nat>)
    ensures
        logical_size(value_lens) >= KEY_WIDTH * value_lens.len(),
    decreases value_lens.len(),
{
    if value_lens.len() > 0 {
        lemma_logical_size_at_least_keys(value_lens.drop_last());
    }
}

/// A running total of logical bytes. It only ever grows.
pub struct SizeAccounting {
    total: usize,
}

impl SizeAccounting {
    /// The bytes accounted for so far.
    pub closed spec fn view(&self) -> nat {
        self.total as nat
    }

    /// The total always fits in `usize`.
    pub proof fn lemma_total_fits(&self)
        ensures
            self@ <= usize::MAX,
    {
    }

    /// An accumulator that has seen nothing.
    pub fn new() -> (acc: Self)
        ensures
            acc@ == 0,
    {
        SizeAccounting { total: 0 }
    }

    /// The bytes accounted for so far.
    pub fn total(&self) -> (total: usize)
        ensures
            total == self@,
    {
        self.total
    }

    /// Accounts for one entry with a value of `value_len` bytes.
    ///
    /// Fails, and leaves the total as it was, exactly when the new total
    /// would not fit in `usize`.
    pub fn record(&mut self, value_len: usize) -> (r: Result<(), HarnessError>)
        ensures
            final(self)@ >= old(self)@,
            old(self)@ + entry_size(value_len as nat) <= usize::MAX ==> r == Ok::<(), HarnessError>(())
                && final(self)@ == old(self)@ + entry_size(value_len as nat),
            old(self)@ + entry_size(value_len as nat) > usize::MAX ==> r == Err::<(), HarnessError>(
                HarnessError::SizeOverflow,
            ) && *final(self) == *old(self),
    {
        match value_len.checked_add(KEY_WIDTH) {
            Some(size) => match self.total.checked_add(size) {
                Some(total) => {
                    self.total = total;
                    Ok(())
                },
                None => Err(HarnessError::SizeOverflow),
            },
            None => Err(HarnessError::SizeOverflow),
        }
    }

    /// Whether the total has reached `target`.
    pub fn reached(&self, target: usize) -> (reached: bool)
        ensures
            reached == (self@ >= target),
    {
        self.total >= target
    }
}

} // verus!
