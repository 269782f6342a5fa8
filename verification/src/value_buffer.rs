//! Random byte content: the values of a synthetic dataset, and the noise that
//! keeps resident memory busy while a dataset is read.

use crate::error::HarnessError;
use crate::random::{fill_bytes, random_below};
use rand::rngs::StdRng;
use vstd::prelude::*;

verus! {

/// Overwrites the first `size` bytes of `buffer` with random bytes and
/// returns them. The rest of the buffer is left as it was.
///
/// The generator at hand cannot fail, so the result is always `Ok`.
pub fn fill_prefix<'b>(rng: &mut StdRng, buffer: &'b mut [u8], size: usize) -> (r: Result<
    &'b [u8],
    HarnessError,
>)
    requires
        size <= old(buffer)@.len(),
    ensures
        final(buffer)@.len() == old(buffer)@.len(),
        r is Ok,
        r matches Ok(value) ==> value@.len() == size && value@ == final(buffer)@.take(size as int)
            && final(buffer)@.skip(size as int) == old(buffer)@.skip(size as int),
{
    let (head, _) = buffer.split_at_mut(size);
    match fill_bytes(rng, head) {
        Ok(()) => {
            let filled: &'b [u8] = buffer;
            let value = &filled[0..size];
            assert(value@ =~= filled@.take(size as int));
            assert(filled@.skip(size as int) =~= old(buffer)@.skip(size as int));
            Ok(value)
        },
        Err(_) => Err(HarnessError::Randomness),
    }
}

/// Overwrites a prefix of `buffer` with random bytes and returns that prefix.
/// Its length is drawn uniformly from `0..buffer.len()`.
///
/// The prefix is always strictly shorter than the buffer, and the rest of the
/// buffer is left as it was. The result is always `Ok`.
pub fn random_fill_buffer<'b>(rng: &mut StdRng, buffer: &'b mut [u8]) -> (r: Result<
    &'b [u8],
    HarnessError,
>)
    requires
        old(buffer)@.len() > 0,
    ensures
        final(buffer)@.len() == old(buffer)@.len(),
        r is Ok,
        r matches Ok(value) ==> value@.len() < old(buffer)@.len() && value@ == final(buffer)@.take(
            value@.len() as int,
        ) && final(buffer)@.skip(value@.len() as int) == old(buffer)@.skip(value@.len() as int),
{
    let size = random_below(rng, buffer.len() as u64) as usize;
    fill_prefix(rng, buffer, size)
}

/// A buffer of the requested size, filled from end to end with random bytes.
///
/// The bytes are written, not merely reserved, so that the operating system
/// has to back every page of the buffer with physical memory. The result is
/// always `Ok`.
pub fn noise_buffer(rng: &mut StdRng, size: usize) -> (r: Result<Vec<u8>, HarnessError>)
    ensures
        r is Ok,
        r matches Ok(noise) ==> noise@.len() == size,
{
    let mut noise: Vec<u8> = vec![0u8; size];
    match fill_bytes(rng, noise.as_mut_slice()) {
        Ok(()) => Ok(noise),
        Err(_) => Err(HarnessError::Randomness),
    }
}

/// Reusable backing storage for the values of a synthetic dataset.
///
/// Each refill overwrites a prefix of the storage and makes that prefix the
/// current value; nothing is allocated after construction.
pub struct RandomValueBuffer {
    storage: Vec<u8>,
    len: usize,
}

impl RandomValueBuffer {
    /// The current value is a proper prefix of the storage.
    pub closed spec fn wf(&self) -> bool {
        self.len < self.storage@.len()
    }

    /// The size of the backing storage: the exclusive bound on value lengths.
    pub closed spec fn capacity(&self) -> nat {
        self.storage@.len()
    }

    /// The current value.
    pub closed spec fn view(&self) -> Seq<u8> {
        self.storage@.take(self.len as int)
    }

    /// A value is always strictly shorter than the capacity.
    pub proof fn lemma_value_shorter_than_capacity(&self)
        requires
            self.wf(),
        ensures
            self@.len() < self.capacity(),
    {
    }

    /// A buffer of `capacity` bytes whose current value is empty.
    pub fn new(capacity: usize) -> (buffer: Self)
        requires
            capacity > 0,
        ensures
            buffer.wf(),
            buffer.capacity() == capacity,
            buffer@.len() == 0,
    {
        RandomValueBuffer { storage: vec![0u8; capacity], len: 0 }
    }

    /// Replaces the current value by a fresh random one, of a length drawn
    /// uniformly from below the capacity. The result is always `Ok`.
    pub fn refill(&mut self, rng: &mut StdRng) -> (r: Result<(), HarnessError>)
        requires
            old(self).wf(),
        ensures
            r == Ok::<(), HarnessError>(()),
            final(self).wf(),
            final(self).capacity() == old(self).capacity(),
            final(self)@.len() < final(self).capacity(),
    {
        match random_fill_buffer(rng, self.storage.as_mut_slice()) {
            Ok(value) => {
                self.len = value.len();
                Ok(())
            },
            Err(e) => {
                self.len = 0;
                Err(e)
            },
        }
    }

    /// The length of the current value.
    pub fn len(&self) -> (len: usize)
        requires
            self.wf(),
        ensures
            len == self@.len(),
    {
        self.len
    }

    /// The current value.
    pub fn value(&self) -> (value: &[u8])
        requires
            self.wf(),
        ensures
            value@ == self@,
    {
        let storage = self.storage.as_slice();
        &storage[0..self.len]
    }
}

} // verus!
