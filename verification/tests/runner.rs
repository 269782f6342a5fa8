use mmap_and_malloc::error::HarnessError;
use mmap_and_malloc::runner::{AccessPatternRunner, Action, Answer, FetchMethod};
use rand::rngs::StdRng;
use rand::SeedableRng;

/// What a finished or failed run looks like from the driver's side.
struct Outcome {
    result: Result<usize, HarnessError>,
    /// The keys fetched, in order.
    fetched: Vec<u64>,
    /// How many times the cursor was advanced.
    advanced: usize,
    /// How many times the cardinality was read.
    counted: usize,
}

/// Runs `method` against a store that holds a value of `value_lens[k]` bytes
/// under each key `k`, and reports `cardinality` entries.
fn run_from(
    rng: &mut StdRng,
    method: FetchMethod,
    value_lens: &[usize],
    cardinality: u64,
) -> Outcome {
    let mut runner = AccessPatternRunner::new(method, 0, rng).unwrap();
    let mut outcome = Outcome { result: Ok(0), fetched: Vec::new(), advanced: 0, counted: 0 };
    let mut action = runner.next_action();
    loop {
        let answer = match action {
            Action::ReadCardinality => {
                outcome.counted += 1;
                Answer::Cardinality { entries: cardinality }
            }
            Action::Advance => {
                outcome.advanced += 1;
                match value_lens.get(outcome.advanced - 1) {
                    Some(value_len) => Answer::Entry { value_len: *value_len },
                    None => Answer::Nothing,
                }
            }
            Action::Fetch { key } => {
                outcome.fetched.push(key);
                match value_lens.get(key as usize) {
                    Some(value_len) => Answer::Entry { value_len: *value_len },
                    None => Answer::Nothing,
                }
            }
            Action::Report { total } => {
                assert_eq!(total, runner.total());
                outcome.result = Ok(total);
                return outcome;
            }
        };
        match runner.answer(answer, rng) {
            Ok(next) => {
                assert_eq!(next, runner.next_action());
                action = next;
            }
            Err(e) => {
                assert_eq!(action, runner.next_action());
                outcome.result = Err(e);
                return outcome;
            }
        }
    }
}

fn run_with_cardinality(method: FetchMethod, value_lens: &[usize], cardinality: u64) -> Outcome {
    run_from(&mut StdRng::from_entropy(), method, value_lens, cardinality)
}

fn run(method: FetchMethod, value_lens: &[usize]) -> Outcome {
    run_with_cardinality(method, value_lens, value_lens.len() as u64)
}

fn logical_size(value_lens: &[usize]) -> usize {
    value_lens.iter().map(|value_len| 8 + value_len).sum()
}

const TEN: [usize; 10] = [0, 1, 10, 100, 1023, 5, 7, 512, 64, 300];

/// A runner without noise.
fn quiet(method: FetchMethod, rng: &mut StdRng) -> AccessPatternRunner {
    AccessPatternRunner::new(method, 0, rng).unwrap()
}

#[test]
fn first_action_depends_on_the_method() {
    let mut rng = StdRng::from_entropy();
    assert_eq!(quiet(FetchMethod::Iterative, &mut rng).next_action(), Action::Advance);
    assert_eq!(quiet(FetchMethod::Random, &mut rng).next_action(), Action::ReadCardinality);
    assert_eq!(quiet(FetchMethod::Shuffled, &mut rng).next_action(), Action::ReadCardinality);
    assert_eq!(quiet(FetchMethod::Shuffled, &mut rng).total(), 0);
}

#[test]
fn runner_holds_noise_of_the_requested_size() {
    let mut rng = StdRng::from_entropy();
    for method in [FetchMethod::Iterative, FetchMethod::Random, FetchMethod::Shuffled] {
        for noise_size in [0usize, 1, 4096, 1 << 20] {
            let mut runner = AccessPatternRunner::new(method, noise_size, &mut rng).unwrap();
            assert_eq!(runner.noise_size(), noise_size);
            assert_eq!(runner.total(), 0);
            if method == FetchMethod::Iterative {
                assert_eq!(
                    runner.answer(Answer::Entry { value_len: 1 }, &mut rng),
                    Ok(Action::Advance)
                );
                assert_eq!(runner.answer(Answer::Nothing, &mut rng), Ok(Action::Report { total: 9 }));
            } else {
                assert_eq!(
                    runner.answer(Answer::Cardinality { entries: 0 }, &mut rng),
                    Ok(Action::Report { total: 0 })
                );
            }
            assert_eq!(runner.noise_size(), noise_size);
        }
    }
}

#[test]
fn noise_is_drawn_from_the_generator_before_the_run_starts() {
    let mut used = StdRng::seed_from_u64(3);
    let untouched = StdRng::seed_from_u64(3);
    let runner = AccessPatternRunner::new(FetchMethod::Iterative, 4096, &mut used).unwrap();
    assert_eq!(runner.next_action(), Action::Advance);
    assert_ne!(used, untouched);
}

#[test]
fn iterative_reports_the_sum_of_ten_known_entries() {
    let outcome = run(FetchMethod::Iterative, &TEN);
    assert_eq!(outcome.result, Ok(2102));
    assert_eq!(outcome.result, Ok(logical_size(&TEN)));
    assert_eq!(outcome.advanced, 11);
    assert_eq!(outcome.counted, 0);
    assert!(outcome.fetched.is_empty());
}

#[test]
fn shuffled_reports_the_sum_of_ten_known_entries() {
    for _ in 0..200 {
        let outcome = run(FetchMethod::Shuffled, &TEN);
        assert_eq!(outcome.result, Ok(2102));
        assert_eq!(outcome.counted, 1);
        assert_eq!(outcome.advanced, 0);
        let mut keys = outcome.fetched.clone();
        keys.sort();
        assert_eq!(keys, vec![0, 1, 2, 3, 4, 5, 6, 7, 8, 9]);
    }
}

#[test]
fn random_reports_the_sum_of_its_ten_probes() {
    let mut differs = false;
    let mut repeats = false;
    for _ in 0..200 {
        let outcome = run(FetchMethod::Random, &TEN);
        assert_eq!(outcome.counted, 1);
        assert_eq!(outcome.advanced, 0);
        assert_eq!(outcome.fetched.len(), 10);
        assert!(outcome.fetched.iter().all(|key| *key < 10));
        let probed: usize = outcome.fetched.iter().map(|key| 8 + TEN[*key as usize]).sum();
        assert_eq!(outcome.result, Ok(probed));
        differs = differs || probed != 2102;
        let mut keys = outcome.fetched.clone();
        keys.sort();
        keys.dedup();
        repeats = repeats || keys.len() < 10;
    }
    assert!(differs);
    assert!(repeats);
}

#[test]
fn iterative_and_shuffled_agree_run_after_run() {
    let value_lens: Vec<usize> = (0..500usize).map(|key| (key * 37) % 1024).collect();
    let expected = logical_size(&value_lens);
    for _ in 0..20 {
        assert_eq!(run(FetchMethod::Iterative, &value_lens).result, Ok(expected));
        assert_eq!(run(FetchMethod::Shuffled, &value_lens).result, Ok(expected));
    }
}

#[test]
fn random_total_varies_between_runs() {
    let value_lens: Vec<usize> = (0..500usize).map(|key| (key * 37) % 1024).collect();
    let first = run(FetchMethod::Random, &value_lens).result.unwrap();
    let mut varied = false;
    for _ in 0..20 {
        varied = varied || run(FetchMethod::Random, &value_lens).result.unwrap() != first;
    }
    assert!(varied);
}

#[test]
fn shuffled_order_is_not_the_ascending_order() {
    let value_lens = vec![3usize; 1000];
    let outcome = run(FetchMethod::Shuffled, &value_lens);
    assert_eq!(outcome.result, Ok(11_000));
    let ascending: Vec<u64> = (0..1000).collect();
    assert_ne!(outcome.fetched, ascending);
    let mut keys = outcome.fetched.clone();
    keys.sort();
    assert_eq!(keys, ascending);
}

#[test]
fn two_shuffled_runs_use_different_orders() {
    let value_lens = vec![0usize; 1000];
    let a = run(FetchMethod::Shuffled, &value_lens);
    let b = run(FetchMethod::Shuffled, &value_lens);
    assert_ne!(a.fetched, b.fetched);
    assert_eq!(a.result, b.result);
}

#[test]
fn random_draws_cover_the_key_range() {
    let value_lens = vec![0usize; 4];
    let mut seen = [false; 4];
    for _ in 0..500 {
        for key in run(FetchMethod::Random, &value_lens).fetched {
            seen[key as usize] = true;
        }
    }
    assert_eq!(seen, [true, true, true, true]);
}

#[test]
fn random_leaves_some_keys_out_of_a_large_dataset() {
    let value_lens = vec![0usize; 10_000];
    let outcome = run(FetchMethod::Random, &value_lens);
    assert_eq!(outcome.fetched.len(), 10_000);
    assert_eq!(outcome.result, Ok(80_000));
    let mut keys = outcome.fetched.clone();
    keys.sort();
    keys.dedup();
    assert!(keys.len() < 10_000);
    assert!(keys.len() > 5_000);
}

#[test]
fn empty_store_reports_zero() {
    for method in [FetchMethod::Iterative, FetchMethod::Random, FetchMethod::Shuffled] {
        let outcome = run(method, &[]);
        assert_eq!(outcome.result, Ok(0));
        assert!(outcome.fetched.is_empty());
    }
}

#[test]
fn single_entry_store_is_read_once() {
    for method in [FetchMethod::Random, FetchMethod::Shuffled] {
        let outcome = run(method, &[1016]);
        assert_eq!(outcome.result, Ok(1024));
        assert_eq!(outcome.fetched, vec![0]);
    }
    let outcome = run(FetchMethod::Iterative, &[1016]);
    assert_eq!(outcome.result, Ok(1024));
    assert_eq!(outcome.advanced, 2);
}

#[test]
fn shuffled_fails_on_a_missing_key() {
    let outcome = run_with_cardinality(FetchMethod::Shuffled, &[1, 2, 3], 4);
    assert_eq!(outcome.result, Err(HarnessError::MissingKey { key: 3 }));
    assert_eq!(outcome.fetched.last(), Some(&3));
}

#[test]
fn random_fails_on_a_missing_key() {
    let outcome = run_with_cardinality(FetchMethod::Random, &[], 1);
    assert_eq!(outcome.result, Err(HarnessError::MissingKey { key: 0 }));
    assert_eq!(outcome.fetched, vec![0]);
}

#[test]
fn failed_fetch_leaves_the_run_where_it_was() {
    let mut rng = StdRng::from_entropy();
    let mut runner = quiet(FetchMethod::Shuffled, &mut rng);
    assert_eq!(
        runner.answer(Answer::Cardinality { entries: 1 }, &mut rng),
        Ok(Action::Fetch { key: 0 })
    );
    assert_eq!(
        runner.answer(Answer::Nothing, &mut rng),
        Err(HarnessError::MissingKey { key: 0 })
    );
    assert_eq!(runner.next_action(), Action::Fetch { key: 0 });
    assert_eq!(runner.total(), 0);
}

#[test]
fn answers_that_were_not_asked_for_are_refused() {
    let mut rng = StdRng::from_entropy();

    let mut runner = quiet(FetchMethod::Iterative, &mut rng);
    assert_eq!(
        runner.answer(Answer::Cardinality { entries: 3 }, &mut rng),
        Err(HarnessError::UnexpectedAnswer)
    );
    assert_eq!(runner.next_action(), Action::Advance);

    let mut runner = quiet(FetchMethod::Random, &mut rng);
    assert_eq!(
        runner.answer(Answer::Entry { value_len: 3 }, &mut rng),
        Err(HarnessError::UnexpectedAnswer)
    );
    assert_eq!(runner.answer(Answer::Nothing, &mut rng), Err(HarnessError::UnexpectedAnswer));
    assert_eq!(runner.next_action(), Action::ReadCardinality);
    assert_eq!(runner.total(), 0);

    let mut runner = quiet(FetchMethod::Shuffled, &mut rng);
    assert_eq!(
        runner.answer(Answer::Cardinality { entries: 2 }, &mut rng).map(|_| ()),
        Ok(())
    );
    assert_eq!(
        runner.answer(Answer::Cardinality { entries: 2 }, &mut rng),
        Err(HarnessError::UnexpectedAnswer)
    );
}

#[test]
fn finished_run_accepts_no_further_answer() {
    let mut rng = StdRng::from_entropy();
    let mut runner = quiet(FetchMethod::Iterative, &mut rng);
    assert_eq!(runner.answer(Answer::Entry { value_len: 10 }, &mut rng), Ok(Action::Advance));
    assert_eq!(runner.answer(Answer::Entry { value_len: 20 }, &mut rng), Ok(Action::Advance));
    assert_eq!(runner.answer(Answer::Nothing, &mut rng), Ok(Action::Report { total: 46 }));
    for answer in [
        Answer::Nothing,
        Answer::Entry { value_len: 1 },
        Answer::Cardinality { entries: 1 },
    ] {
        assert_eq!(runner.answer(answer, &mut rng), Err(HarnessError::UnexpectedAnswer));
        assert_eq!(runner.next_action(), Action::Report { total: 46 });
    }
}

#[test]
fn total_overflow_is_refused() {
    let mut rng = StdRng::from_entropy();
    let mut runner = quiet(FetchMethod::Iterative, &mut rng);
    assert_eq!(
        runner.answer(Answer::Entry { value_len: usize::MAX }, &mut rng),
        Err(HarnessError::SizeOverflow)
    );
    assert_eq!(runner.total(), 0);
    assert_eq!(
        runner.answer(Answer::Entry { value_len: usize::MAX - 8 }, &mut rng),
        Ok(Action::Advance)
    );
    assert_eq!(runner.total(), usize::MAX);
    assert_eq!(
        runner.answer(Answer::Entry { value_len: 0 }, &mut rng),
        Err(HarnessError::SizeOverflow)
    );
    assert_eq!(runner.answer(Answer::Nothing, &mut rng), Ok(Action::Report { total: usize::MAX }));

    let mut runner = quiet(FetchMethod::Shuffled, &mut rng);
    assert_eq!(
        runner.answer(Answer::Cardinality { entries: 1 }, &mut rng),
        Ok(Action::Fetch { key: 0 })
    );
    assert_eq!(
        runner.answer(Answer::Entry { value_len: usize::MAX - 7 }, &mut rng),
        Err(HarnessError::SizeOverflow)
    );
    assert_eq!(runner.next_action(), Action::Fetch { key: 0 });
}

#[test]
fn partial_total_grows_with_each_entry() {
    let mut rng = StdRng::from_entropy();
    let mut runner = quiet(FetchMethod::Iterative, &mut rng);
    let mut expected = 0;
    for value_len in TEN {
        assert_eq!(runner.answer(Answer::Entry { value_len }, &mut rng), Ok(Action::Advance));
        expected += 8 + value_len;
        assert_eq!(runner.total(), expected);
    }
}

#[test]
fn same_seed_gives_the_same_order_of_fetches() {
    let value_lens: Vec<usize> = (0..300usize).map(|key| key % 7).collect();
    for method in [FetchMethod::Random, FetchMethod::Shuffled] {
        let a = run_from(&mut StdRng::seed_from_u64(5), method, &value_lens, 300);
        let b = run_from(&mut StdRng::seed_from_u64(5), method, &value_lens, 300);
        let c = run_from(&mut StdRng::seed_from_u64(6), method, &value_lens, 300);
        assert_eq!(a.fetched, b.fetched);
        assert_eq!(a.result, b.result);
        assert_ne!(a.fetched, c.fetched);
    }
}

#[test]
fn iterative_draws_nothing_from_the_generator() {
    let mut used = StdRng::seed_from_u64(11);
    let untouched = StdRng::seed_from_u64(11);
    let outcome = run_from(&mut used, FetchMethod::Iterative, &TEN, 10);
    assert_eq!(outcome.result, Ok(2102));
    assert_eq!(used, untouched);
}

#[test]
fn entries_of_lengths_zero_to_nine_are_reported_as_125() {
    let value_lens: Vec<usize> = (0..10).collect();
    assert_eq!(run(FetchMethod::Iterative, &value_lens).result, Ok(125));
    for _ in 0..50 {
        assert_eq!(run(FetchMethod::Shuffled, &value_lens).result, Ok(125));
    }
}

#[test]
fn ten_fetches_of_a_nine_byte_value_are_reported_as_170() {
    let mut rng = StdRng::from_entropy();
    let mut runner = quiet(FetchMethod::Random, &mut rng);
    let mut action = runner.answer(Answer::Cardinality { entries: 10 }, &mut rng).unwrap();
    let mut fetches = 0;
    while let Action::Fetch { key } = action {
        assert!(key < 10);
        fetches += 1;
        action = runner.answer(Answer::Entry { value_len: 9 }, &mut rng).unwrap();
    }
    assert_eq!(fetches, 10);
    assert_eq!(action, Action::Report { total: 170 });
}

#[test]
fn making_a_runner_never_fails() {
    let mut rng = StdRng::seed_from_u64(0);
    for method in [FetchMethod::Iterative, FetchMethod::Random, FetchMethod::Shuffled] {
        for noise_size in 0..200usize {
            assert!(AccessPatternRunner::new(method, noise_size, &mut rng).is_ok());
        }
    }
}
