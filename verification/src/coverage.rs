//! What a sequence of probes touches in a dataset.
//!
//! A dataset is modelled by the lengths of its values, indexed by key: the
//! keys of a generated dataset are `0, 1, ..., N - 1`. The lemmas here say
//! that the bytes touched do not depend on the order of the probes, which is
//! why an ordered scan and a shuffled scan report the same total.

use crate::accounting::{entry_size, logical_size};
use vstd::prelude::*;
use vstd::seq_lib::*;

verus! {

/// The keys `0, 1, ..., n - 1` in ascending order.
pub open spec fn ascending_keys(n: nat) -> Seq<u64> {
    Seq::new(n, |i: int| i as u64)
}

/// The bytes touched by fetching `keys`, one after the other, from `dataset`.
/// A key that is fetched twice counts twice.
pub open spec fn bytes_touched(dataset: Seq<nat>, keys: Seq<u64>) -> nat
    decreases keys.len(),
{
    if keys.len() == 0 {
        0
    } else {
        bytes_touched(dataset, keys.drop_last()) + entry_size(dataset[keys.last() as int])
    }
}

/// Whether `sizes` are the value lengths that `dataset` holds under `keys`,
/// probe by probe.
pub open spec fn sizes_match(dataset: Seq<nat>, keys: Seq<u64>, sizes: Seq<nat>) -> bool {
    &&& sizes.len() == keys.len()
    &&& forall|i: int|
        0 <= i < keys.len() ==> (#[trigger] keys[i]) < dataset.len() && sizes[i] == dataset[keys[i] as int]
}

/// The sum of the sizes seen by the probes is the bytes they touched.
pub proof fn lemma_sizes_sum_to_bytes_touched(dataset: Seq<nat>, keys: Seq<u64>, sizes: Seq<nat>)
    requires
        sizes_match(dataset, keys, sizes),
    ensures
        logical_size(sizes) == bytes_touched(dataset, keys),
    decreases keys.len(),
{
    if keys.len() > 0 {
        let i = keys.len() - 1;
        assert(keys[i] < dataset.len() && sizes[i] == dataset[keys[i] as int]);
        assert forall|j: int| 0 <= j < keys.drop_last().len() implies (#[trigger] keys.drop_last()[j])
            < dataset.len() && sizes.drop_last()[j] == dataset[keys.drop_last()[j] as int] by {
            assert(keys[j] < dataset.len() && sizes[j] == dataset[keys[j] as int]);
        }
        lemma_sizes_sum_to_bytes_touched(dataset, keys.drop_last(), sizes.drop_last());
    }
}

/// Fetching the first `n` keys in ascending order touches exactly the first
/// `n` entries.
pub proof fn lemma_ascending_prefix(dataset: Seq<nat>, n: nat)
    requires
        n <= dataset.len(),
        n <= u64::MAX,
    ensures
        bytes_touched(dataset, ascending_keys(n)) == logical_size(dataset.take(n as int)),
    decreases n,
{
    if n > 0 {
        let m = (n - 1) as nat;
        assert(ascending_keys(n).drop_last() =~= ascending_keys(m));
        assert(dataset.take(n as int).drop_last() =~= dataset.take(m as int));
        lemma_ascending_prefix(dataset, m);
    }
}

/// Fetching every key once in ascending order touches the whole dataset.
pub proof fn lemma_ascending_touches_everything(dataset: Seq<nat>)
    requires
        dataset.len() <= u64::MAX,
    ensures
        bytes_touched(dataset, ascending_keys(dataset.len())) == logical_size(dataset),
{
    lemma_ascending_prefix(dataset, dataset.len());
    assert(dataset.take(dataset.len() as int) =~= dataset);
}

/// Dropping one probe from a sequence lowers the bytes touched by the size of
/// the entry it fetched.
pub proof fn lemma_bytes_touched_remove(dataset: Seq<nat>, keys: Seq<u64>, i: int)
    requires
        0 <= i < keys.len(),
    ensures
        bytes_touched(dataset, keys) == bytes_touched(dataset, keys.remove(i)) + entry_size(
            dataset[keys[i] as int],
        ),
    decreases keys.len(),
{
    if i == keys.len() - 1 {
        assert(keys.remove(i) =~= keys.drop_last());
    } else {
        assert(keys.remove(i).drop_last() =~= keys.drop_last().remove(i));
        assert(keys.remove(i).last() == keys.last());
        lemma_bytes_touched_remove(dataset, keys.drop_last(), i);
    }
}

/// The bytes touched depend on which keys are fetched and how often, not on
/// the order of the fetches.
pub proof fn lemma_bytes_touched_any_order(dataset: Seq<nat>, a: Seq<u64>, b: Seq<u64>)
    requires
        a.to_multiset() == b.to_multiset(),
    ensures
        bytes_touched(dataset, a) == bytes_touched(dataset, b),
    decreases a.len(),
{
    to_multiset_len(a);
    to_multiset_len(b);
    if a.len() > 0 {
        let key = a.last();
        assert(a.contains(key));
        to_multiset_contains(a, key);
        to_multiset_contains(b, key);
        let j = choose|j: int| 0 <= j < b.len() && b[j] == key;
        assert(a.drop_last() =~= a.remove(a.len() - 1));
        to_multiset_remove(a, a.len() - 1);
        to_multiset_remove(b, j);
        lemma_bytes_touched_any_order(dataset, a.drop_last(), b.remove(j));
        lemma_bytes_touched_remove(dataset, b, j);
    }
}

/// A sequence that holds the keys `0, ..., n - 1` as a multiset holds each of
/// them, holds nothing else, and holds nothing twice.
pub proof fn lemma_permutation_covers(keys: Seq<u64>, n: nat)
    requires
        n <= u64::MAX,
        keys.to_multiset() == ascending_keys(n).to_multiset(),
    ensures
        keys.len() == n,
        keys.no_duplicates(),
        forall|k: u64| keys.contains(k) <==> k < n,
{
    let ordered = ascending_keys(n);
    to_multiset_len(keys);
    to_multiset_len(ordered);
    assert(ordered.no_duplicates());
    ordered.lemma_multiset_has_no_duplicates();
    keys.lemma_multiset_has_no_duplicates_conv();
    assert forall|k: u64| keys.contains(k) <==> k < n by {
        to_multiset_contains(keys, k);
        to_multiset_contains(ordered, k);
        if k < n {
            assert(ordered[k as int] == k);
        }
    }
}

} // verus!
