//! Reading a dataset back under one of three access patterns.
//!
//! The runner never touches the store. It names the next store operation, the
//! driver performs it inside its read transaction and answers, and the runner
//! accounts for the bytes touched and decides what comes next.
//!
//! A runner is born with a buffer of random noise of a chosen size and keeps it
//! to its end. The noise is never read: it is there to compete with the
//! dataset for resident memory, and it is written in full before the first
//! store operation is named.

use crate::accounting::{entry_size, lemma_logical_size_push, logical_size, SizeAccounting};
use crate::coverage::{
    ascending_keys, bytes_touched, lemma_ascending_touches_everything,
    lemma_bytes_touched_any_order, lemma_permutation_covers, lemma_sizes_sum_to_bytes_touched,
    sizes_match,
};
use crate::error::HarnessError;
use crate::generator::DatasetGenerator;
use crate::random::{random_below, shuffle};
use crate::value_buffer::noise_buffer;
use rand::rngs::StdRng;
use vstd::prelude::*;

verus! {

/// The order in which a run visits the entries of a dataset.
#[derive(Clone, Copy, Debug, PartialEq, Eq, Structural)]
pub enum FetchMethod {
    /// One pass of an ordered cursor, from the lowest key to the highest.
    Iterative,
    /// As many fetches as the store has entries, each of a key drawn
    /// uniformly and independently: some keys are fetched more than once,
    /// others never.
    Random,
    /// Every key once, in an order drawn uniformly from all orders. The keys
    /// are listed in memory to be shuffled.
    Shuffled,
}

/// What the runner wants from the store next.
#[derive(Clone, Copy, Debug, PartialEq, Eq, Structural)]
pub enum Action {
    /// Read the number of entries; answer with `Answer::Cardinality`.
    ReadCardinality,
    /// Move the ordered cursor to its next entry; answer with `Answer::Entry`,
    /// or with `Answer::Nothing` once the cursor is exhausted.
    Advance,
    /// Fetch the value stored under `key`; answer with `Answer::Entry`, or with
    /// `Answer::Nothing` if the key is absent.
    Fetch { key: u64 },
    /// The run is over and touched `total` bytes.
    Report { total: usize },
}

/// What the store gave back.
#[derive(Clone, Copy, Debug, PartialEq, Eq, Structural)]
pub enum Answer {
    /// The store holds `entries` entries.
    Cardinality { entries: u64 },
    /// The store produced an entry whose value is `value_len` bytes long.
    Entry { value_len: usize },
    /// The store had no entry to produce.
    Nothing,
}

/// The first operation of a run.
pub open spec fn first_action(method: FetchMethod) -> Action {
    match method {
        FetchMethod::Iterative => Action::Advance,
        FetchMethod::Random => Action::ReadCardinality,
        FetchMethod::Shuffled => Action::ReadCardinality,
    }
}

/// The refusal of an entry whose size no longer fits on top of `total`.
pub open spec fn overflow(total: nat, value_len: usize) -> Option<HarnessError> {
    if total + entry_size(value_len as nat) > usize::MAX {
        Some(HarnessError::SizeOverflow)
    } else {
        None
    }
}

/// Why `answer` is refused while the runner waits on `pending` with `total`
/// bytes accounted for, or `None` if it is accepted.
pub open spec fn refusal(pending: Action, answer: Answer, total: nat) -> Option<HarnessError> {
    match (pending, answer) {
        (Action::ReadCardinality, Answer::Cardinality { .. }) => None,
        (Action::Advance, Answer::Nothing) => None,
        (Action::Fetch { key }, Answer::Nothing) => Some(HarnessError::MissingKey { key }),
        (Action::Advance, Answer::Entry { value_len }) => overflow(total, value_len),
        (Action::Fetch { .. }, Answer::Entry { value_len }) => overflow(total, value_len),
        _ => Some(HarnessError::UnexpectedAnswer),
    }
}

/// The state of one run over a dataset.
pub struct AccessPatternRunner {
    method: FetchMethod,
    pending: Action,
    cardinality: u64,
    /// The keys in the order in which a shuffled run fetches them.
    plan: Vec<u64>,
    /// How many fetches have been answered.
    fetched: u64,
    accounting: SizeAccounting,
    /// Random bytes that are written once and never read.
    noise: Vec<u8>,
    probed: Ghost<Seq<u64>>,
    sizes: Ghost<Seq<nat>>,
}

impl AccessPatternRunner {
    /// The access pattern of this run.
    pub closed spec fn method(&self) -> FetchMethod {
        self.method
    }

    /// The operation the runner is waiting on.
    pub closed spec fn pending(&self) -> Action {
        self.pending
    }

    /// The number of entries that the store reported.
    pub closed spec fn cardinality(&self) -> nat {
        self.cardinality as nat
    }

    /// The bytes touched so far.
    pub closed spec fn touched(&self) -> nat {
        self.accounting@
    }

    /// The size of the noise that the run holds resident.
    pub closed spec fn noise_len(&self) -> nat {
        self.noise@.len()
    }

    /// The keys fetched so far, in the order of the fetches. An ordered scan
    /// fetches no key: it follows the cursor.
    pub closed spec fn probed(&self) -> Seq<u64> {
        self.probed@
    }

    /// The value lengths seen so far, one for each entry touched, in order.
    pub closed spec fn sizes(&self) -> Seq<nat> {
        self.sizes@
    }

    /// Whether the run is over.
    pub open spec fn finished(&self) -> bool {
        self.pending() is Report
    }

    spec fn fetching_wf(&self) -> bool {
        &&& !(self.pending is Advance)
        &&& self.probed@.len() == self.fetched
        &&& self.sizes@.len() == self.fetched
        &&& forall|i: int| 0 <= i < self.probed@.len() ==> self.probed@[i] < self.cardinality
        &&& self.pending is ReadCardinality ==> self.fetched == 0
        &&& (self.pending matches Action::Fetch { key } ==> key < self.cardinality && self.fetched
            < self.cardinality)
        &&& self.pending is Report ==> self.fetched == self.cardinality
    }

    spec fn plan_wf(&self) -> bool {
        &&& self.plan@.to_multiset() == ascending_keys(self.cardinality as nat).to_multiset()
        &&& self.plan@.len() == self.cardinality
        &&& self.probed@ == self.plan@.take(self.fetched as int)
        &&& (self.pending matches Action::Fetch { key } ==> key == self.plan@[self.fetched as int])
    }

    /// The invariant of a run: the total is the sum of the sizes seen, and the
    /// fetches made so far are those that the access pattern allows.
    pub closed spec fn wf(&self) -> bool {
        &&& self.accounting@ == logical_size(self.sizes@)
        &&& (self.pending matches Action::Report { total } ==> total == self.accounting@)
        &&& match self.method {
            FetchMethod::Iterative => {
                &&& self.probed@.len() == 0
                &&& (self.pending is Advance || self.pending is Report)
            },
            FetchMethod::Random => self.fetching_wf(),
            FetchMethod::Shuffled => {
                &&& self.fetching_wf()
                &&& !(self.pending is ReadCardinality) ==> self.plan_wf()
            },
        }
    }

    /// A run that has touched nothing yet, holding `noise_size` bytes of
    /// random noise. The result is always `Ok`.
    pub fn new(method: FetchMethod, noise_size: usize, rng: &mut StdRng) -> (r: Result<
        Self,
        HarnessError,
    >)
        ensures
            r matches Ok(runner) && {
                &&& runner.wf()
                &&& runner.method() == method
                &&& runner.noise_len() == noise_size
                &&& runner.pending() == first_action(method)
                &&& runner.touched() == 0
                &&& runner.probed().len() == 0
                &&& runner.sizes().len() == 0
            },
    {
        let noise = match noise_buffer(rng, noise_size) {
            Ok(noise) => noise,
            Err(e) => {
                return Err(e);
            },
        };
        let pending = match method {
            FetchMethod::Iterative => Action::Advance,
            FetchMethod::Random => Action::ReadCardinality,
            FetchMethod::Shuffled => Action::ReadCardinality,
        };
        Ok(
            AccessPatternRunner {
                method,
                pending,
                cardinality: 0,
                plan: Vec::new(),
                fetched: 0,
                accounting: SizeAccounting::new(),
                noise,
                probed: Ghost(Seq::empty()),
                sizes: Ghost(Seq::empty()),
            },
        )
    }

    /// The size of the noise that the run holds resident.
    pub fn noise_size(&self) -> (size: usize)
        ensures
            size == self.noise_len(),
    {
        self.noise.len()
    }

    /// The operation the runner is waiting on.
    pub fn next_action(&self) -> (action: Action)
        ensures
            action == self.pending(),
    {
        self.pending
    }

    /// The bytes touched so far. Only the total of a finished run is a result.
    pub fn total(&self) -> (total: usize)
        ensures
            total == self.touched(),
    {
        self.accounting.total()
    }

    /// Takes the store's answer to the pending operation and names the next
    /// one.
    ///
    /// An answer is refused, and the run left as it was, in three cases: it is
    /// not an answer to the pending operation; a fetched key is absent; the
    /// total would overflow. Otherwise the entry, if the answer brought one,
    /// is accounted for, and the run goes on as its access pattern says:
    /// - an ordered scan advances until the cursor is exhausted;
    /// - the two fetching patterns learn the cardinality `n` first and then
    ///   make exactly `n` fetches, of keys below `n`.
    pub fn answer(&mut self, answer: Answer, rng: &mut StdRng) -> (r: Result<
        Action,
        HarnessError,
    >)
        requires
            old(self).wf(),
        ensures
            final(self).wf(),
            final(self).method() == old(self).method(),
            final(self).noise_len() == old(self).noise_len(),
            !(old(self).pending() is ReadCardinality) ==> final(self).cardinality() == old(
                self,
            ).cardinality(),
            match refusal(old(self).pending(), answer, old(self).touched()) {
                Some(e) => r == Err::<Action, HarnessError>(e) && *final(self) == *old(self),
                None => r == Ok::<Action, HarnessError>(final(self).pending()),
            },
            r is Ok ==> match (old(self).pending(), answer) {
                (Action::ReadCardinality, Answer::Cardinality { entries }) => {
                    &&& final(self).cardinality() == entries
                    &&& final(self).touched() == old(self).touched()
                    &&& final(self).probed() == old(self).probed()
                    &&& final(self).sizes() == old(self).sizes()
                    &&& if entries == 0 {
                        final(self).pending() == (Action::Report { total: 0 })
                    } else {
                        final(self).pending() matches Action::Fetch { key } && key < entries
                    }
                },
                (Action::Advance, Answer::Nothing) => {
                    &&& final(self).pending() == (Action::Report {
                        total: old(self).touched() as usize,
                    })
                    &&& final(self).touched() == old(self).touched()
                    &&& final(self).probed() == old(self).probed()
                    &&& final(self).sizes() == old(self).sizes()
                },
                (Action::Advance, Answer::Entry { value_len }) => {
                    &&& final(self).pending() == Action::Advance
                    &&& final(self).touched() == old(self).touched() + entry_size(value_len as nat)
                    &&& final(self).probed() == old(self).probed()
                    &&& final(self).sizes() == old(self).sizes().push(value_len as nat)
                },
                (Action::Fetch { key }, Answer::Entry { value_len }) => {
                    &&& final(self).touched() == old(self).touched() + entry_size(value_len as nat)
                    &&& final(self).probed() == old(self).probed().push(key)
                    &&& final(self).sizes() == old(self).sizes().push(value_len as nat)
                    &&& if final(self).probed().len() == final(self).cardinality() {
                        final(self).pending() == (Action::Report {
                            total: final(self).touched() as usize,
                        })
                    } else {
                        final(self).pending() matches Action::Fetch { key: next } && next
                            < final(self).cardinality()
                    }
                },
                _ => true,
            },
    {
        match (self.pending, answer) {
            (Action::ReadCardinality, Answer::Cardinality { entries }) => {
                self.cardinality = entries;
                if self.method == FetchMethod::Shuffled {
                    self.plan = ordered_keys(entries);
                    shuffle(rng, self.plan.as_mut_slice());
                    proof {
                        vstd::seq_lib::to_multiset_len(self.plan@);
                        vstd::seq_lib::to_multiset_len(ascending_keys(entries as nat));
                        assert(self.plan@.take(0) =~= Seq::<u64>::empty());
                        assert(self.probed@ =~= Seq::<u64>::empty());
                    }
                }
                let next = self.next_fetch(rng);
                self.pending = next;
                Ok(next)
            },
            (Action::Advance, Answer::Nothing) => {
                let next = Action::Report { total: self.accounting.total() };
                self.pending = next;
                Ok(next)
            },
            (Action::Advance, Answer::Entry { value_len }) => {
                match self.accounting.record(value_len) {
                    Ok(()) => {
                        proof {
                            lemma_logical_size_push(self.sizes@, value_len as nat);
                        }
                        self.sizes = Ghost(self.sizes@.push(value_len as nat));
                        Ok(Action::Advance)
                    },
                    Err(e) => Err(e),
                }
            },
            (Action::Fetch { key }, Answer::Entry { value_len }) => {
                match self.accounting.record(value_len) {
                    Ok(()) => {
                        proof {
                            lemma_logical_size_push(self.sizes@, value_len as nat);
                            if self.method == FetchMethod::Shuffled {
                                assert(self.plan@.take(self.fetched as int + 1) =~= self.plan@.take(
                                    self.fetched as int,
                                ).push(key));
                            }
                        }
                        self.sizes = Ghost(self.sizes@.push(value_len as nat));
                        self.probed = Ghost(self.probed@.push(key));
                        self.fetched = self.fetched + 1;
                        let next = self.next_fetch(rng);
                        self.pending = next;
                        Ok(next)
                    },
                    Err(e) => Err(e),
                }
            },
            (Action::Fetch { key }, Answer::Nothing) => Err(HarnessError::MissingKey { key }),
            _ => Err(HarnessError::UnexpectedAnswer),
        }
    }

    /// Whether the run so far is what the store would have answered if it held
    /// `dataset`, given as the value length under each key `0, 1, ...`:
    /// - an ordered scan has been handed every entry once, in key order;
    /// - a fetching run was told the number of entries, and each of its
    ///   fetches was answered with the value under the key it asked for.
    pub open spec fn ran_against(&self, dataset: Seq<nat>) -> bool {
        match self.method() {
            FetchMethod::Iterative => self.sizes() == dataset,
            FetchMethod::Random | FetchMethod::Shuffled => {
                &&& self.cardinality() == dataset.len()
                &&& sizes_match(dataset, self.probed(), self.sizes())
            },
        }
    }

    /// The bytes touched are the sum of the sizes of the entries seen, and a
    /// finished run reports exactly that sum.
    pub proof fn lemma_report_is_sum_of_sizes(&self)
        requires
            self.wf(),
        ensures
            self.touched() == logical_size(self.sizes()),
            self.touched() <= usize::MAX,
            self.finished() ==> self.pending() == (Action::Report { total: self.touched() as usize }),
    {
        self.accounting.lemma_total_fits();
    }

    /// An ordered scan that is handed every entry of a dataset once, in
    /// ascending key order, touches what fetching the keys `0, 1, ..., N - 1`
    /// one by one touches, and reports the logical size of the dataset.
    pub proof fn lemma_iterative_reports_logical_size(&self, dataset: Seq<nat>)
        requires
            self.wf(),
            self.method() == FetchMethod::Iterative,
            self.finished(),
            self.ran_against(dataset),
            dataset.len() <= u64::MAX,
        ensures
            self.sizes().len() == dataset.len(),
            self.touched() == bytes_touched(dataset, ascending_keys(dataset.len())),
            self.touched() == logical_size(dataset),
            self.pending() == (Action::Report { total: logical_size(dataset) as usize }),
    {
        lemma_ascending_touches_everything(dataset);
    }

    /// A finished shuffled run has fetched each of the keys `0, ..., N - 1`
    /// exactly once, and no other key.
    pub proof fn lemma_shuffled_fetches_each_key_once(&self)
        requires
            self.wf(),
            self.method() == FetchMethod::Shuffled,
            self.finished(),
        ensures
            self.probed().len() == self.cardinality(),
            self.probed().to_multiset() == ascending_keys(self.cardinality()).to_multiset(),
            self.probed().no_duplicates(),
            forall|k: u64| self.probed().contains(k) <==> k < self.cardinality(),
    {
        assert(self.plan@.take(self.fetched as int) =~= self.plan@);
        lemma_permutation_covers(self.probed@, self.cardinality as nat);
    }

    /// A shuffled run never fetches a key twice: the keys fetched so far are
    /// distinct, and the key it is about to fetch is not among them.
    pub proof fn lemma_shuffled_never_repeats(&self)
        requires
            self.wf(),
            self.method() == FetchMethod::Shuffled,
        ensures
            self.probed().no_duplicates(),
            self.pending() matches Action::Fetch { key } ==> !self.probed().contains(key),
    {
        if !(self.pending is ReadCardinality) {
            lemma_permutation_covers(self.plan@, self.cardinality as nat);
        }
    }

    /// A finished shuffled run over a dataset reports the logical size of the
    /// dataset, whatever order the shuffle produced.
    pub proof fn lemma_shuffled_reports_logical_size(&self, dataset: Seq<nat>)
        requires
            self.wf(),
            self.method() == FetchMethod::Shuffled,
            self.finished(),
            self.ran_against(dataset),
        ensures
            self.touched() == logical_size(dataset),
            self.pending() == (Action::Report { total: logical_size(dataset) as usize }),
    {
        self.lemma_shuffled_fetches_each_key_once();
        lemma_sizes_sum_to_bytes_touched(dataset, self.probed(), self.sizes());
        lemma_bytes_touched_any_order(dataset, self.probed(), ascending_keys(dataset.len()));
        lemma_ascending_touches_everything(dataset);
    }

    /// A finished random run has made exactly as many fetches as the store
    /// has entries, each of a key below that number, and reports the sum of
    /// the sizes of the entries those fetches returned.
    pub proof fn lemma_random_makes_cardinality_fetches(&self)
        requires
            self.wf(),
            self.method() == FetchMethod::Random,
            self.finished(),
        ensures
            self.probed().len() == self.cardinality(),
            self.sizes().len() == self.cardinality(),
            forall|i: int| 0 <= i < self.probed().len() ==> self.probed()[i] < self.cardinality(),
            self.pending() == (Action::Report { total: logical_size(self.sizes()) as usize }),
    {
    }

    /// A random run over a dataset touches the entries under the keys it
    /// fetched, counting an entry once for each time its key was drawn.
    pub proof fn lemma_random_reports_bytes_touched(&self, dataset: Seq<nat>)
        requires
            self.wf(),
            self.method() == FetchMethod::Random,
            self.ran_against(dataset),
        ensures
            self.touched() == bytes_touched(dataset, self.probed()),
    {
        lemma_sizes_sum_to_bytes_touched(dataset, self.probed(), self.sizes());
    }

    /// Two finished runs over the same dataset, each of them an ordered scan
    /// or a shuffled run, report the same total.
    pub proof fn lemma_exhaustive_runs_agree(&self, other: &Self, dataset: Seq<nat>)
        requires
            self.wf(),
            other.wf(),
            self.method() != FetchMethod::Random,
            other.method() != FetchMethod::Random,
            self.finished(),
            other.finished(),
            self.ran_against(dataset),
            other.ran_against(dataset),
            dataset.len() <= u64::MAX,
        ensures
            self.pending() == other.pending(),
    {
        if self.method() == FetchMethod::Iterative {
            self.lemma_iterative_reports_logical_size(dataset);
        } else {
            self.lemma_shuffled_reports_logical_size(dataset);
        }
        if other.method() == FetchMethod::Iterative {
            other.lemma_iterative_reports_logical_size(dataset);
        } else {
            other.lemma_shuffled_reports_logical_size(dataset);
        }
    }

    /// The operation that follows an answered fetch, or the reading of the
    /// cardinality, in one of the two fetching patterns.
    fn next_fetch(&self, rng: &mut StdRng) -> (next: Action)
        requires
            self.method != FetchMethod::Iterative,
            self.fetched <= self.cardinality,
            self.method == FetchMethod::Shuffled ==> self.plan@.to_multiset() == ascending_keys(
                self.cardinality as nat,
            ).to_multiset(),
        ensures
            self.fetched == self.cardinality ==> next == (Action::Report {
                total: self.accounting@ as usize,
            }),
            self.fetched < self.cardinality ==> (next matches Action::Fetch { key } && key
                < self.cardinality && (self.method == FetchMethod::Shuffled ==> key
                == self.plan@[self.fetched as int])),
    {
        if self.fetched == self.cardinality {
            Action::Report { total: self.accounting.total() }
        } else if self.method == FetchMethod::Shuffled {
            proof {
                lemma_permutation_covers(self.plan@, self.cardinality as nat);
                assert(self.fetched < self.plan.len());
                assert(self.plan@.contains(self.plan@[self.fetched as int]));
            }
            Action::Fetch { key: self.plan[self.fetched as usize] }
        } else {
            Action::Fetch { key: random_below(rng, self.cardinality) }
        }
    }
}

/// A dataset that was loaded to completion and is then read back in full, by
/// an ordered scan or by a shuffled run, is reported with the logical size
/// that its load accounted for.
pub proof fn lemma_run_reports_what_was_loaded(
    generator: &DatasetGenerator,
    runner: &AccessPatternRunner,
)
    requires
        generator.wf(),
        generator.complete(),
        runner.wf(),
        runner.finished(),
        runner.method() != FetchMethod::Random,
        runner.ran_against(generator.value_lens()),
    ensures
        runner.pending() == (Action::Report { total: generator.loaded() as usize }),
        runner.touched() == generator.loaded(),
        runner.touched() >= generator.target(),
{
    generator.lemma_keys_are_contiguous();
    generator.lemma_loaded_is_logical_size();
    if runner.method() == FetchMethod::Iterative {
        runner.lemma_iterative_reports_logical_size(generator.value_lens());
    } else {
        runner.lemma_shuffled_reports_logical_size(generator.value_lens());
    }
}

/// The keys `0, 1, ..., n - 1` in ascending order.
fn ordered_keys(n: u64) -> (keys: Vec<u64>)
    ensures
        keys@ == ascending_keys(n as nat),
{
    let mut keys: Vec<u64> = Vec::new();
    let mut next: u64 = 0;
    while next < n
        invariant
            next <= n,
            keys@ == ascending_keys(next as nat),
        decreases n - next,
    {
        keys.push(next);
        next = next + 1;
        assert(keys@ =~= ascending_keys(next as nat));
    }
    keys
}

} // verus!
