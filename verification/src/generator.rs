//! Bulk-loading a synthetic dataset of a target logical size.
//!
//! The generator never touches the store. It names the key of the next entry
//! and holds the random value that goes with it, the driver inserts the two
//! inside its one write transaction, and the generator accounts for the entry
//! and decides whether the load goes on or is ready to be committed.

use crate::accounting::{
    entry_size, lemma_logical_size_at_least_keys, lemma_logical_size_push, logical_size,
    SizeAccounting, KEY_WIDTH,
};
use crate::coverage::{ascending_keys, lemma_permutation_covers};
use crate::error::HarnessError;
use crate::value_buffer::RandomValueBuffer;
use rand::rngs::StdRng;
use vstd::prelude::*;

verus! {

/// What the generator wants from the store next.
#[derive(Clone, Copy, Debug, PartialEq, Eq, Structural)]
pub enum LoadAction {
    /// Insert the generator's current value under `key`, then call
    /// `DatasetGenerator::inserted`.
    Insert { key: u64 },
    /// The dataset has reached its target size: commit the transaction.
    Commit,
}

/// The address space to map for a dataset of `target` logical bytes: twice
/// the target, which leaves room for the pages the store keeps for itself.
/// `None` if that does not fit in `usize`.
pub fn mapped_size(target: usize) -> (size: Option<usize>)
    ensures
        match size {
            Some(size) => size == 2 * target,
            None => 2 * target > usize::MAX,
        },
{
    target.checked_mul(2)
}

/// The state of one bulk load.
pub struct DatasetGenerator {
    target: usize,
    buffer: RandomValueBuffer,
    next_key: u64,
    accounting: SizeAccounting,
    keys: Ghost<Seq<u64>>,
    value_lens: Ghost<Seq<nat>>,
}

impl DatasetGenerator {
    /// The logical size at which the load stops.
    pub closed spec fn target(&self) -> nat {
        self.target as nat
    }

    /// The exclusive bound on the length of a value.
    pub closed spec fn max_value_len(&self) -> nat {
        self.buffer.capacity()
    }

    /// The value that goes with the pending insert.
    pub closed spec fn value(&self) -> Seq<u8> {
        self.buffer@
    }

    /// The keys inserted so far, in the order of the inserts.
    pub closed spec fn keys(&self) -> Seq<u64> {
        self.keys@
    }

    /// The value lengths inserted so far, in the order of the inserts.
    pub closed spec fn value_lens(&self) -> Seq<nat> {
        self.value_lens@
    }

    /// The logical size of the entries inserted so far.
    pub closed spec fn loaded(&self) -> nat {
        self.accounting@
    }

    /// Whether the load has reached its target. The first entry is inserted
    /// whatever the target is, so a complete dataset is never empty.
    pub open spec fn complete(&self) -> bool {
        self.value_lens().len() >= 1 && self.loaded() >= self.target()
    }

    /// The operation that the state calls for: the insert of the next key
    /// until the target is reached, the commit from then on.
    pub open spec fn pending(&self) -> LoadAction {
        if self.complete() {
            LoadAction::Commit
        } else {
            LoadAction::Insert { key: self.value_lens().len() as u64 }
        }
    }

    /// The bytes that were still missing before the last insert.
    pub open spec fn shortfall_before_last(&self) -> int {
        self.target() - logical_size(self.value_lens().drop_last())
    }

    /// The invariant of a load: the keys are `0, 1, 2, ...` in the order of the
    /// inserts, every value is shorter than the bound, the accounted size is
    /// the logical size of the entries, no entry was inserted after the
    /// target had been reached, and the logical size cannot overflow.
    pub closed spec fn wf(&self) -> bool {
        &&& self.buffer.wf()
        &&& self.target + KEY_WIDTH + self.buffer.capacity() <= usize::MAX
        &&& self.accounting@ == logical_size(self.value_lens@)
        &&& self.next_key == self.value_lens@.len()
        &&& self.keys@ == ascending_keys(self.value_lens@.len())
        &&& forall|i: int|
            0 <= i < self.value_lens@.len() ==> self.value_lens@[i] < self.buffer.capacity()
        &&& self.value_lens@.len() >= 2 ==> logical_size(self.value_lens@.drop_last()) < self.target
    }

    /// A load that has inserted nothing yet, with a first random value at
    /// hand. It will stop once the logical size reaches `target`, and its
    /// values are shorter than `max_value_len`.
    ///
    /// The load is refused with `SizeOverflow` exactly when a dataset of that
    /// target could outgrow `usize`. Otherwise it is accepted.
    pub fn new(target: usize, max_value_len: usize, rng: &mut StdRng) -> (r: Result<
        Self,
        HarnessError,
    >)
        requires
            max_value_len > 0,
        ensures
            target + KEY_WIDTH + max_value_len > usize::MAX ==> r matches Err(
                HarnessError::SizeOverflow,
            ),
            target + KEY_WIDTH + max_value_len <= usize::MAX ==> (r matches Ok(generator) && {
                &&& generator.wf()
                &&& generator.target() == target
                &&& generator.max_value_len() == max_value_len
                &&& generator.value().len() < max_value_len
                &&& generator.loaded() == 0
                &&& generator.keys().len() == 0
                &&& generator.value_lens().len() == 0
            }),
    {
        let fits = match target.checked_add(KEY_WIDTH) {
            Some(sum) => sum.checked_add(max_value_len).is_some(),
            None => false,
        };
        if !fits {
            return Err(HarnessError::SizeOverflow);
        }
        let mut buffer = RandomValueBuffer::new(max_value_len);
        match buffer.refill(rng) {
            Ok(()) => {
                let generator = DatasetGenerator {
                    target,
                    buffer,
                    next_key: 0,
                    accounting: SizeAccounting::new(),
                    keys: Ghost(Seq::empty()),
                    value_lens: Ghost(Seq::empty()),
                };
                assert(generator.keys@ =~= ascending_keys(0));
                Ok(generator)
            },
            Err(e) => Err(e),
        }
    }

    /// The logical size of the entries inserted so far.
    pub fn logical_size(&self) -> (size: usize)
        ensures
            size == self.loaded(),
    {
        self.accounting.total()
    }

    /// The number of entries inserted so far.
    pub fn entries(&self) -> (entries: u64)
        requires
            self.wf(),
        ensures
            entries == self.value_lens().len(),
            entries == self.keys().len(),
    {
        self.next_key
    }

    /// The operation that the state calls for.
    pub fn next_action(&self) -> (action: LoadAction)
        requires
            self.wf(),
        ensures
            action == self.pending(),
    {
        if self.next_key >= 1 && self.accounting.reached(self.target) {
            LoadAction::Commit
        } else {
            LoadAction::Insert { key: self.next_key }
        }
    }

    /// The value that goes with the pending insert. It is shorter than the
    /// bound.
    pub fn current_value(&self) -> (value: &[u8])
        requires
            self.wf(),
        ensures
            value@ == self.value(),
            value@.len() < self.max_value_len(),
    {
        proof {
            self.buffer.lemma_value_shorter_than_capacity();
        }
        self.buffer.value()
    }

    /// Records that the current value was inserted under the pending key,
    /// and names the next operation.
    ///
    /// If no insert was pending, because the load is complete, the call is
    /// refused and the load left as it was. Otherwise the entry is accounted
    /// for. If that completes the load, the commit is next and the value stays
    /// as it is; if not, a fresh value is drawn for the next key.
    pub fn inserted(&mut self, rng: &mut StdRng) -> (r: Result<LoadAction, HarnessError>)
        requires
            old(self).wf(),
        ensures
            final(self).wf(),
            final(self).target() == old(self).target(),
            final(self).max_value_len() == old(self).max_value_len(),
            old(self).complete() ==> r == Err::<LoadAction, HarnessError>(
                HarnessError::UnexpectedAnswer,
            ) && *final(self) == *old(self),
            !old(self).complete() ==> {
                &&& old(self).pending() == (LoadAction::Insert {
                    key: old(self).keys().len() as u64,
                })
                &&& final(self).keys() == old(self).keys().push(old(self).keys().len() as u64)
                &&& final(self).value_lens() == old(self).value_lens().push(old(self).value().len())
                &&& final(self).loaded() == old(self).loaded() + entry_size(old(self).value().len())
                &&& r == Ok::<LoadAction, HarnessError>(final(self).pending())
                &&& final(self).complete() ==> final(self).value() == old(self).value()
            },
    {
        if self.next_key >= 1 && self.accounting.reached(self.target) {
            return Err(HarnessError::UnexpectedAnswer);
        }
        let value_len = self.buffer.len();
        proof {
            let lens = self.value_lens@.push(value_len as nat);
            self.buffer.lemma_value_shorter_than_capacity();
            lemma_logical_size_push(self.value_lens@, value_len as nat);
            lemma_logical_size_at_least_keys(lens);
            assert(lens.drop_last() =~= self.value_lens@);
            assert(ascending_keys(lens.len()) =~= self.keys@.push(self.next_key));
            if self.value_lens@.len() == 0 {
                assert(logical_size(self.value_lens@) == 0);
            }
        }
        match self.accounting.record(value_len) {
            Ok(()) => {
                proof {
                    self.accounting.lemma_total_fits();
                }
                self.keys = Ghost(self.keys@.push(self.next_key));
                self.value_lens = Ghost(self.value_lens@.push(value_len as nat));
                self.next_key = self.next_key + 1;
                if self.accounting.reached(self.target) {
                    Ok(LoadAction::Commit)
                } else {
                    match self.buffer.refill(rng) {
                        Ok(()) => Ok(LoadAction::Insert { key: self.next_key }),
                        Err(e) => Err(e),
                    }
                }
            },
            Err(e) => Err(e),
        }
    }

    /// The keys of the entries inserted so far are exactly `0, 1, ..., N - 1`,
    /// inserted in ascending order, none of them twice; and a complete
    /// dataset has at least one entry.
    pub proof fn lemma_keys_are_contiguous(&self)
        requires
            self.wf(),
        ensures
            self.keys() == ascending_keys(self.keys().len()),
            self.keys().len() == self.value_lens().len(),
            self.keys().len() <= u64::MAX,
            self.keys().no_duplicates(),
            forall|k: u64| self.keys().contains(k) <==> k < self.keys().len(),
            forall|i: int, j: int| 0 <= i < j < self.keys().len() ==> self.keys()[i] < self.keys()[j],
            self.complete() ==> self.keys().len() >= 1,
    {
        lemma_permutation_covers(self.keys@, self.keys@.len());
    }

    /// The accounted size is the logical size of the entries inserted.
    pub proof fn lemma_loaded_is_logical_size(&self)
        requires
            self.wf(),
        ensures
            self.loaded() == logical_size(self.value_lens()),
            self.loaded() <= usize::MAX,
    {
        self.accounting.lemma_total_fits();
    }

    /// Every value inserted is shorter than the bound, and so is the value at
    /// hand.
    pub proof fn lemma_values_are_short(&self)
        requires
            self.wf(),
        ensures
            self.value().len() < self.max_value_len(),
            forall|i: int|
                0 <= i < self.value_lens().len() ==> self.value_lens()[i] < self.max_value_len(),
    {
        self.buffer.lemma_value_shorter_than_capacity();
    }

    /// A load is complete after its first insert exactly when that one
    /// entry, key and value, reaches the target.
    pub proof fn lemma_single_entry_completes(&self)
        requires
            self.wf(),
            self.value_lens().len() == 1,
        ensures
            self.complete() <==> entry_size(self.value_lens()[0]) >= self.target(),
    {
        assert(self.value_lens@.drop_last().len() == 0);
        assert(logical_size(self.value_lens@.drop_last()) == 0);
    }

    /// No entry is inserted once the target has been reached: before the last
    /// insert of a load of two entries or more, the logical size was still
    /// below the target.
    pub proof fn lemma_no_insert_after_target(&self)
        requires
            self.wf(),
        ensures
            self.value_lens().len() >= 2 ==> logical_size(self.value_lens().drop_last())
                < self.target(),
    {
    }

    /// A complete dataset has reached its target, and overshoots it by less
    /// than the size of one entry: the width of a key plus a value length
    /// below the bound.
    pub proof fn lemma_complete_size_bounds(&self)
        requires
            self.wf(),
            self.complete(),
        ensures
            self.target() <= logical_size(self.value_lens()),
            logical_size(self.value_lens()) < self.target() + KEY_WIDTH + self.max_value_len(),
    {
        let lens = self.value_lens@;
        assert(lens.last() < self.buffer.capacity());
        if lens.len() == 1 {
            assert(lens.drop_last().len() == 0);
            assert(logical_size(lens.drop_last()) == 0);
        }
    }

    /// A complete dataset stays below the target plus the bound alone unless
    /// its last entry overshoots by that much.
    ///
    /// The hypothesis is that very upper bound, written over the last value
    /// and the bytes still missing before it: the size of a dataset is what
    /// was loaded before the last entry plus that entry. So the lemma adds
    /// arithmetic only. It is there to name the datasets on which the
    /// narrower bound holds; `lemma_complete_size_bounds` is the bound that
    /// holds of all of them.
    pub proof fn lemma_complete_size_within_max_value_len(&self)
        requires
            self.wf(),
            self.complete(),
            self.value_lens().last() + KEY_WIDTH < self.max_value_len()
                + self.shortfall_before_last(),
        ensures
            self.target() <= logical_size(self.value_lens()) < self.target() + self.max_value_len(),
    {
    }
}

} // verus!
