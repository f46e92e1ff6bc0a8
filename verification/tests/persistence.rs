use std::fmt;

use rand::{Rng, SeedableRng, XorShiftRng};
use prop_runner::num::U32Range;
use prop_runner::persist::{load_persisted_failures, save_persisted_failure, LineNote};
use prop_runner::runner::FailureRecord;
use prop_runner::strategy::{Strategy, ValueTree};
use prop_runner::{Config, FailurePersistence, TestCaseError, TestError, TestRunner};

#[derive(Clone, Copy, PartialEq)]
struct PoorlyBehavedDebug(i32);

impl fmt::Debug for PoorlyBehavedDebug {
    fn fmt(&self, f: &mut fmt::Formatter) -> fmt::Result {
        f.write_str(&format!("\r\n{:?}\r\n", self.0))
    }
}

struct Wrapped<T>(T);

impl<T: ValueTree<Value = u32>> ValueTree for Wrapped<T> {
    type Value = PoorlyBehavedDebug;

    fn current(&self) -> PoorlyBehavedDebug {
        PoorlyBehavedDebug(self.0.current() as i32)
    }

    fn simplify(&mut self) -> bool {
        self.0.simplify()
    }

    fn complicate(&mut self) -> bool {
        self.0.complicate()
    }
}

struct WrappedRange(U32Range);

impl Strategy for WrappedRange {
    type Value = Wrapped<prop_runner::num::BinarySearch>;

    fn new_value(&self, runner: &mut TestRunner) -> Result<Self::Value, String> {
        self.0.new_value(runner).map(Wrapped)
    }
}

fn run_with_file<F: Fn(&PoorlyBehavedDebug) -> Result<(), TestCaseError>>(
    file: &mut String,
    config: &Config,
    input: &WrappedRange,
    f: F,
) -> TestError<PoorlyBehavedDebug> {
    let persisted = load_persisted_failures(file);
    assert!(persisted.notes.is_empty());
    let mut runner = TestRunner::new(config.clone());
    let out = runner.run(input, f, &persisted.seeds);
    if let Some(record) = &out.record {
        file.push_str(&save_persisted_failure(file.is_empty(), record));
    }
    out.result.err().expect("didn't fail?")
}

#[test]
fn failing_cases_persisted_and_reloaded() {
    let mut file = String::new();

    let max = 10_000_000i32;
    let input = WrappedRange(U32Range { low: 0, high: max as u32 });
    let config = Config {
        failure_persistence: FailurePersistence::Direct("persistence-test.txt"),
        ..Config::default()
    };

    // First test with cases that fail above half max, and then below half
    // max, to ensure we can correctly parse both lines of the persistence
    // file.
    let first_sub_failure = run_with_file(&mut file, &config, &input, |v| {
        if v.0 < max / 2 {
            Ok(())
        } else {
            Err(TestCaseError::Fail("too big".to_owned()))
        }
    });
    let first_super_failure = run_with_file(&mut file, &config, &input, |v| {
        if v.0 >= max / 2 {
            Ok(())
        } else {
            Err(TestCaseError::Fail("too small".to_owned()))
        }
    });
    let second_sub_failure = run_with_file(&mut file, &config, &input, |v| {
        if v.0 < max / 2 {
            Ok(())
        } else {
            Err(TestCaseError::Fail("too big".to_owned()))
        }
    });
    let second_super_failure = run_with_file(&mut file, &config, &input, |v| {
        if v.0 >= max / 2 {
            Ok(())
        } else {
            Err(TestCaseError::Fail("too small".to_owned()))
        }
    });

    assert_eq!(first_sub_failure, second_sub_failure);
    assert_eq!(first_super_failure, second_super_failure);

    // Two failures were new, two were replayed: the file holds two records,
    // each on a line of its own, after the comment that begins it.
    let read = load_persisted_failures(&file);
    assert_eq!(2, read.seeds.len());
    assert!(read.notes.is_empty());
    assert_eq!(8, file.lines().count());
    assert!(file.starts_with("# Seeds for failure cases"));
    assert!(file.contains(" # shrinks to   5000000  \n"));
    assert!(file.ends_with(" # shrinks to   0  \n"));
}

#[test]
fn replay_reports_the_failure_before_any_new_case() {
    let strategy = U32Range { low: 0, high: 1_000_000 };
    let fails_from = |k: u32| {
        move |v: &u32| {
            if *v >= k {
                Err(TestCaseError::Fail(format!("{} or more", k)))
            } else {
                Ok(())
            }
        }
    };
    let mut first = TestRunner::new(Config::default());
    let out = first.run(&strategy, fails_from(777), &Vec::new());
    assert_eq!(Err(TestError::Fail("777 or more".to_owned(), 777)), out.result);
    let record = out.record.expect("a new failure has a record");
    assert_eq!("777", record.rendered);

    let text = save_persisted_failure(true, &record);
    let seeds = load_persisted_failures(&text).seeds;
    assert_eq!(vec![record.seed], seeds);

    let mut second = TestRunner::new(Config::default());
    let runs = std::cell::Cell::new(0u32);
    let first_value = std::cell::Cell::new(None);
    let again = second.run(
        &strategy,
        |v: &u32| {
            runs.set(runs.get() + 1);
            if first_value.get().is_none() {
                first_value.set(Some(*v));
            }
            fails_from(777)(v)
        },
        &seeds,
    );
    assert_eq!(Err(TestError::Fail("777 or more".to_owned(), 777)), again.result);
    assert_eq!(None, again.record);
    assert_eq!(0, second.successes());
    assert!(first_value.get().unwrap() >= 777);
}

#[test]
fn same_seed_gives_the_same_case() {
    let strategy = U32Range { low: 10, high: 4_000_000_000 };
    let seed = [1u32, 2, 3, 4];
    let mut values = Vec::new();
    for _ in 0..2 {
        let mut runner = TestRunner::new(Config::with_cases(0));
        let seen = std::cell::Cell::new(None);
        let out = runner.run(
            &strategy,
            |v: &u32| {
                seen.set(Some(*v));
                Ok(())
            },
            &vec![seed],
        );
        assert_eq!(Ok(()), out.result);
        assert_eq!(1, runner.successes());
        values.push(seen.get().unwrap());
    }
    assert_eq!(values[0], values[1]);
    assert!(values[0] >= 10 && values[0] < 4_000_000_000);

    let mut other = TestRunner::new(Config::with_cases(0));
    let seen = std::cell::Cell::new(None);
    other.run(
        &strategy,
        |v: &u32| {
            seen.set(Some(*v));
            Ok(())
        },
        &vec![[4u32, 3, 2, 1]],
    );
    assert_ne!(Some(values[0]), seen.get());
}

#[test]
fn replay_leaves_the_generator_where_it_stood() {
    let strategy = U32Range { low: 0, high: 100 };
    let mut runner = TestRunner::new(Config::with_cases(0));
    *runner.rng() = XorShiftRng::from_seed([9, 8, 7, 6]);
    let out = runner.run(&strategy, |_| Ok(()), &vec![[1, 2, 3, 4], [5, 6, 7, 8]]);
    assert_eq!(Ok(()), out.result);
    assert_eq!(2, runner.successes());
    let mut expected = XorShiftRng::from_seed([9, 8, 7, 6]);
    assert_eq!(expected.next_u32(), runner.rng().next_u32());
    assert_eq!(expected.next_u32(), runner.rng().next_u32());
}

#[test]
fn new_case_starts_from_the_seed_that_is_recorded() {
    let strategy = U32Range { low: 0, high: 1_000 };
    let mut runner = TestRunner::new(Config::default());
    *runner.rng() = XorShiftRng::from_seed([11, 22, 33, 44]);
    let first = std::cell::Cell::new(None);
    let out = runner.run(
        &strategy,
        |v: &u32| {
            first.set(Some(*v));
            Err(TestCaseError::Fail("always".to_owned()))
        },
        &Vec::new(),
    );
    let record = out.record.expect("a new failure has a record");
    let mut source = XorShiftRng::from_seed([11, 22, 33, 44]);
    let drawn = [source.next_u32(), source.next_u32(), source.next_u32(), source.next_u32()];
    assert_eq!(drawn, record.seed);
    assert_eq!(Err(TestError::Fail("always".to_owned(), 0)), out.result);
    assert_eq!("0", record.rendered);
}

#[test]
fn malformed_line_is_noted_and_passed_over() {
    let read = load_persisted_failures("xs 1 2 3 4\nxs 1 2 3\n");
    assert_eq!(vec![[1u32, 2, 3, 4]], read.seeds);
    assert_eq!(vec![LineNote::UnknownType { line: 2, token: "xs".to_owned() }], read.notes);
}

#[test]
fn lines_of_every_kind_are_told_apart() {
    let text = "# a comment\n\
                \n\
                xs 10 20 30 4294967295 # shrinks to 7\n\
                xs 1 2 3 4294967296\n\
                \t xs +1 02 3 4 \r\n\
                xs  1 2 3 4\n\
                ys 1 2 3 4\n\
                lonely\n\
                xs 1 2 x 4\n\
                xs 1 2 3 4 5\n\
                #xs 1 2 3 4\n\
                xs 5 6 7 8";
    let read = load_persisted_failures(text);
    assert_eq!(vec![[10u32, 20, 30, 4294967295], [1, 2, 3, 4], [5, 6, 7, 8]], read.seeds);
    assert_eq!(
        vec![
            LineNote::Unparsable { line: 4 },
            LineNote::UnknownType { line: 6, token: "xs".to_owned() },
            LineNote::UnknownType { line: 7, token: "ys".to_owned() },
            LineNote::Unparsable { line: 9 },
            LineNote::UnknownType { line: 10, token: "xs".to_owned() },
        ],
        read.notes
    );
}

#[test]
fn empty_file_holds_nothing() {
    let read = load_persisted_failures("");
    assert!(read.seeds.is_empty());
    assert!(read.notes.is_empty());
}

#[test]
fn record_takes_one_line() {
    let record = FailureRecord { seed: [0, 7, 4294967295, 1000], rendered: "a\nb\rc\r\n".to_owned() };
    assert_eq!("xs 0 7 4294967295 1000 # shrinks to a b c  \n", save_persisted_failure(false, &record));
    let fresh = save_persisted_failure(true, &record);
    let header = "# Seeds for failure cases proptest has generated in the past. It is\n\
                  # automatically read and these particular cases re-run before any\n\
                  # novel cases are generated.\n\
                  #\n\
                  # It is recommended to check this file in to source control so that\n\
                  # everyone who runs the test benefits from these saved cases.\n";
    assert_eq!(format!("{}xs 0 7 4294967295 1000 # shrinks to a b c  \n", header), fresh);
    let read = load_persisted_failures(&fresh);
    assert_eq!(vec![[0u32, 7, 4294967295, 1000]], read.seeds);
    assert!(read.notes.is_empty());
}
