use std::cell::Cell;

use prop_runner::num::{BinarySearch, U32Range};
use prop_runner::runner::RunOutcome;
use prop_runner::{Config, FailurePersistence, TestCaseError, TestError, TestRunner};

#[test]
fn gives_up_after_too_many_rejections() {
    let config = Config::default();
    let mut runner = TestRunner::new(config.clone());
    let runs = Cell::new(0);
    let result = runner
        .run(
            &U32Range { low: 0, high: u32::MAX },
            |_| {
                runs.set(runs.get() + 1);
                Err(TestCaseError::Reject("reject".to_owned()))
            },
            &Vec::new(),
        )
        .result;
    match result {
        Err(TestError::Abort(_)) => (),
        e => panic!("Unexpected result: {:?}", e),
    }
    assert_eq!(config.max_global_rejects + 1, runs.get());
}

#[test]
fn test_pass() {
    let mut runner = TestRunner::default();
    let result = runner
        .run(
            &U32Range { low: 1, high: u32::MAX },
            |&v| {
                assert!(v > 0);
                Ok(())
            },
            &Vec::new(),
        )
        .result;
    assert_eq!(Ok(()), result);
}

#[test]
fn test_fail_via_result() {
    let mut runner = TestRunner::new(Config {
        failure_persistence: FailurePersistence::Off,
        ..Config::default()
    });
    let result = runner
        .run(
            &U32Range { low: 0, high: 10 },
            |&v| {
                if v < 5 {
                    Ok(())
                } else {
                    Err(TestCaseError::Fail("not less than 5".to_owned()))
                }
            },
            &Vec::new(),
        )
        .result;

    assert_eq!(Err(TestError::Fail("not less than 5".to_owned(), 5)), result);
}

#[test]
fn test_fail_via_panic() {
    let mut runner = TestRunner::new(Config {
        failure_persistence: FailurePersistence::Off,
        ..Config::default()
    });
    let result = runner
        .run(
            &U32Range { low: 0, high: 10 },
            |&v| {
                if !(v < 5) {
                    return Err(TestCaseError::from_panic(Some("not less than 5".to_owned())));
                }
                Ok(())
            },
            &Vec::new(),
        )
        .result;
    assert_eq!(Err(TestError::Fail("not less than 5".to_owned(), 5)), result);
}

#[test]
fn panic_without_a_text_fails_with_the_fixed_reason() {
    let mut runner = TestRunner::new(Config::with_cases(3));
    let result = runner
        .run(&U32Range { low: 0, high: 4 }, |_| Err(TestCaseError::from_panic(None)), &Vec::new())
        .result;
    assert_eq!(Err(TestError::Fail("<unknown panic value>".to_owned(), 0)), result);
}

#[test]
fn rejection_budget_does_not_depend_on_cases() {
    for cases in [1u32, 7, 100_000] {
        let config = Config { max_global_rejects: 9, ..Config::with_cases(cases) };
        let mut runner = TestRunner::new(config);
        let runs = Cell::new(0u32);
        let out = runner.run(
            &U32Range { low: 0, high: 100 },
            |_| {
                runs.set(runs.get() + 1);
                Err(TestCaseError::Reject("never".to_owned()))
            },
            &Vec::new(),
        );
        assert_eq!(Err(TestError::Abort("Too many global rejects".to_owned())), out.result);
        assert_eq!(None, out.record);
        assert_eq!(10, runs.get());
        assert_eq!(9, runner.global_rejects());
        assert_eq!(9, runner.global_rejects_at(&"never".to_owned()));
        assert_eq!(0, runner.successes());
    }
}

#[test]
fn nothing_is_run_where_no_case_is_asked_for() {
    let mut runner = TestRunner::new(Config::with_cases(0));
    let runs = Cell::new(0u32);
    let out = runner.run(
        &U32Range { low: 0, high: 100 },
        |_| {
            runs.set(runs.get() + 1);
            Err(TestCaseError::Fail("never".to_owned()))
        },
        &Vec::new(),
    );
    assert_eq!(Ok(()), out.result);
    assert_eq!(0, runs.get());
}

#[test]
fn empty_range_aborts_the_test() {
    let mut runner = TestRunner::new(Config::default());
    let out = runner.run(&U32Range { low: 3, high: 3 }, |_| Ok(()), &Vec::new());
    assert_eq!(Err(TestError::Abort("empty range".to_owned())), out.result);
    assert_eq!(None, out.record);
}

#[test]
fn run_counts_the_cases_that_pass() {
    let mut runner = TestRunner::new(Config::with_cases(17));
    let runs = Cell::new(0u32);
    let out = runner.run(
        &U32Range { low: 0, high: 1000 },
        |&v| {
            runs.set(runs.get() + 1);
            if v % 2 == 0 {
                Ok(())
            } else {
                Err(TestCaseError::Reject("odd".to_owned()))
            }
        },
        &Vec::new(),
    );
    assert_eq!(Ok(()), out.result);
    assert_eq!(17, runner.successes());
    assert_eq!(runs.get(), 17 + runner.global_rejects());
    assert_eq!(runner.global_rejects(), runner.global_rejects_at(&"odd".to_owned()));
}

#[test]
fn run_one_classifies_each_outcome() {
    let config = Config { max_global_rejects: 1, ..Config::default() };
    let mut runner = TestRunner::new(config);
    let tree = prop_runner::num::BinarySearch::new(40);
    assert_eq!(Ok(true), runner.run_one(tree, |_| Ok(())));
    assert_eq!(
        Ok(false),
        runner.run_one(tree, |_| Err(TestCaseError::Reject("here".to_owned())))
    );
    assert_eq!(1, runner.global_rejects());
    assert_eq!(
        Err(TestError::Abort("Too many global rejects".to_owned())),
        runner.run_one(tree, |_| Err(TestCaseError::Reject("here".to_owned())))
    );
    assert_eq!(1, runner.global_rejects());
    assert_eq!(
        Err(TestError::Fail("25 or more".to_owned(), 25)),
        runner.run_one(tree, |&v| {
            if v >= 25 {
                Err(TestCaseError::Fail("25 or more".to_owned()))
            } else {
                Ok(())
            }
        })
    );
    assert_eq!(0, runner.successes());
}

#[test]
fn rejection_while_shrinking_counts_as_a_pass() {
    let mut runner = TestRunner::new(Config::default());
    let tree = prop_runner::num::BinarySearch::new(64);
    let result = runner.run_one(tree, |&v| {
        if v >= 48 {
            Err(TestCaseError::Fail(format!("{} failed", v)))
        } else if v >= 16 {
            Err(TestCaseError::Reject("in between".to_owned()))
        } else {
            Ok(())
        }
    });
    assert_eq!(Err(TestError::Fail("48 failed".to_owned(), 48)), result);
    assert_eq!(0, runner.global_rejects());
}

#[test]
fn run_of_passing_cases_ends_well_with_the_exact_count() {
    for cases in [0u32, 1, 5, 300] {
        let mut runner = TestRunner::new(Config::with_cases(cases));
        let runs = Cell::new(0u32);
        let out = runner.run(
            &U32Range { low: 0, high: 1000 },
            |_| {
                runs.set(runs.get() + 1);
                Ok(())
            },
            &Vec::new(),
        );
        assert_eq!(Ok(()), out.result);
        assert_eq!(None, out.record);
        assert_eq!(cases, runs.get());
        assert_eq!(cases, runner.successes());
        assert_eq!(0, runner.local_rejects());
        assert_eq!(0, runner.global_rejects());
    }
}

#[test]
fn replayed_cases_that_pass_count_as_successes() {
    let mut runner = TestRunner::new(Config::with_cases(2));
    let runs = Cell::new(0u32);
    let out = runner.run(
        &U32Range { low: 0, high: 1000 },
        |_| {
            runs.set(runs.get() + 1);
            Ok(())
        },
        &vec![[1, 2, 3, 4], [5, 6, 7, 8], [9, 9, 9, 9]],
    );
    assert_eq!(Ok(()), out.result);
    assert_eq!(3, runs.get());
    assert_eq!(3, runner.successes());
}

#[test]
fn finish_case_turns_a_declined_strategy_into_an_abort() {
    let mut runner = TestRunner::new(Config::default());
    let declined: Result<BinarySearch, String> = Err("no value".to_owned());
    assert_eq!(
        Err(TestError::Abort("no value".to_owned())),
        runner.finish_case(declined, &|_: &u32| Ok(()))
    );
    assert_eq!(0, runner.successes());
    assert_eq!(0, runner.global_rejects());
}

#[test]
fn finish_case_counts_what_run_one_classifies() {
    let mut runner = TestRunner::new(Config { max_global_rejects: 1, ..Config::default() });
    let tree = BinarySearch::new(40);
    assert_eq!(Ok(()), runner.finish_case(Ok(tree), &|_: &u32| Ok(())));
    assert_eq!(1, runner.successes());
    let reject = |_: &u32| Err(TestCaseError::Reject("here".to_owned()));
    assert_eq!(Ok(()), runner.finish_case(Ok(tree), &reject));
    assert_eq!(1, runner.successes());
    assert_eq!(1, runner.global_rejects());
    assert_eq!(
        Err(TestError::Abort("Too many global rejects".to_owned())),
        runner.finish_case(Ok(tree), &reject)
    );
    assert_eq!(
        Err(TestError::Fail("always".to_owned(), 0)),
        runner.finish_case(Ok(tree), &|_: &u32| Err(TestCaseError::Fail("always".to_owned())))
    );
    assert_eq!(1, runner.successes());
    assert_eq!(1, runner.global_rejects());
}

#[test]
fn tree_that_cannot_be_narrowed_reports_its_candidate() {
    let mut runner = TestRunner::new(Config::default());
    let calls = Cell::new(0u32);
    let result = runner.run_one(BinarySearch::new(0), |v: &u32| {
        calls.set(calls.get() + 1);
        Err(TestCaseError::Fail(format!("call {} on {}", calls.get(), v)))
    });
    assert_eq!(Err(TestError::Fail("call 1 on 0".to_owned(), 0)), result);
    assert_eq!(1, calls.get());
}

#[test]
fn replay_runs_the_seeds_in_order_and_stops_at_the_first_error() {
    let strategy = U32Range { low: 0, high: 1_000_000 };
    let seeds = vec![[1u32, 2, 3, 4], [5, 6, 7, 8], [9, 10, 11, 12]];
    let mut drawn = Vec::new();
    for seed in &seeds {
        let mut one = TestRunner::new(Config::default());
        let seen = Cell::new(0u32);
        assert_eq!(Ok(()), one.replay(&strategy, &|v: &u32| {
            seen.set(*v);
            Ok(())
        }, &vec![*seed]));
        drawn.push(seen.get());
    }
    let mut runner = TestRunner::new(Config::default());
    let seen = std::cell::RefCell::new(Vec::new());
    let second = drawn[1];
    let result = runner.replay(
        &strategy,
        &|v: &u32| {
            if seen.borrow().len() < 2 {
                seen.borrow_mut().push(*v);
            }
            if *v == second || seen.borrow().len() > 2 {
                Err(TestCaseError::Fail("second".to_owned()))
            } else {
                Ok(())
            }
        },
        &seeds,
    );
    assert_eq!(vec![drawn[0], drawn[1]], *seen.borrow());
    assert!(matches!(result, Err(TestError::Fail(_, _))));
    assert_eq!(1, runner.successes());

    let mut idle = TestRunner::new(Config::default());
    assert_eq!(Ok(()), idle.replay(&strategy, &|_: &u32| Err(TestCaseError::Fail("never".to_owned())), &Vec::new()));
    assert_eq!(0, idle.successes());
}

#[test]
fn generate_records_the_seed_of_the_failing_case() {
    let strategy = U32Range { low: 0, high: 1_000 };
    let mut runner = TestRunner::new(Config::default());
    let out: RunOutcome<u32> =
        runner.generate(&strategy, &|v: &u32| if *v < 3 { Ok(()) } else { Err(TestCaseError::Fail("big".to_owned())) });
    assert_eq!(Err(TestError::Fail("big".to_owned(), 3)), out.result);
    let record = out.record.expect("a new failure has a record");
    assert_eq!("3", record.rendered);

    let mut again = TestRunner::new(Config::default());
    let first = Cell::new(None);
    let replayed = again.replay(
        &strategy,
        &|v: &u32| {
            if first.get().is_none() {
                first.set(Some(*v));
            }
            if *v < 3 { Ok(()) } else { Err(TestCaseError::Fail("big".to_owned())) }
        },
        &vec![record.seed],
    );
    assert_eq!(Err(TestError::Fail("big".to_owned(), 3)), replayed);
    assert!(first.get().unwrap() >= 3);

    let mut done = TestRunner::new(Config::with_cases(0));
    let idle = done.generate(&strategy, &|_: &u32| Err(TestCaseError::Fail("never".to_owned())));
    assert_eq!(Ok(()), idle.result);
    assert_eq!(None, idle.record);
}

#[test]
fn reseed_and_next_seed_fix_the_generator() {
    let strategy = U32Range { low: 0, high: u32::MAX };
    let mut one = TestRunner::new(Config::default());
    let mut other = TestRunner::new(Config::default());
    one.reseed([3, 1, 4, 1]);
    other.reseed([3, 1, 4, 1]);
    let seed = one.next_seed();
    assert_eq!(seed, other.next_seed());
    assert_ne!([3, 1, 4, 1], seed);
    let a = prop_runner::Strategy::new_value(&strategy, &mut one).unwrap();
    other.reseed(seed);
    let b = prop_runner::Strategy::new_value(&strategy, &mut other).unwrap();
    assert_eq!(a, b);
    other.reseed([2, 7, 1, 8]);
    let c = prop_runner::Strategy::new_value(&strategy, &mut other).unwrap();
    assert_ne!(a, c);
}
