use std::collections::BTreeMap;

use prop_runner::histogram::Histogram;
use prop_runner::order::{rank, Rank};
use prop_runner::runner::regen_permitted;
use prop_runner::{Config, TestCaseError, TestError, TestRunner};

#[test]
fn local_rejections_at_one_place_make_one_entry() {
    let n = 37;
    let mut runner = TestRunner::new(Config::default());
    for _ in 0..n {
        assert_eq!(Ok(()), runner.reject_local("A".to_owned()));
    }
    assert_eq!(n, runner.local_rejects());
    assert_eq!(n, runner.local_rejects_at(&"A".to_owned()));
    assert_eq!(0, runner.local_rejects_at(&"B".to_owned()));
    assert_eq!(0, runner.global_rejects());
    assert_eq!(
        "\tsuccesses: 0\n\tlocal rejects: 37\n\t\t37 times at A\n\tglobal rejects: 0\n",
        runner.to_string()
    );
}

#[test]
fn local_budget_is_used_up_exactly() {
    let mut runner = TestRunner::new(Config { max_local_rejects: 3, ..Config::default() });
    assert_eq!(Ok(()), runner.reject_local("a".to_owned()));
    assert_eq!(Ok(()), runner.reject_local("b".to_owned()));
    assert_eq!(Ok(()), runner.reject_local("a".to_owned()));
    assert_eq!(Err("Too many local rejects".to_owned()), runner.reject_local("a".to_owned()));
    assert_eq!(Err("Too many local rejects".to_owned()), runner.reject_local("c".to_owned()));
    assert_eq!(3, runner.local_rejects());
    assert_eq!(2, runner.local_rejects_at(&"a".to_owned()));
    assert_eq!(1, runner.local_rejects_at(&"b".to_owned()));
    assert_eq!(0, runner.local_rejects_at(&"c".to_owned()));

    let mut none = TestRunner::new(Config { max_local_rejects: 0, ..Config::default() });
    assert_eq!(Err("Too many local rejects".to_owned()), none.reject_local("a".to_owned()));
    assert_eq!(0, none.local_rejects());
}

#[test]
fn global_budget_is_apart_from_the_local_one() {
    let mut runner = TestRunner::new(Config {
        max_local_rejects: 1,
        max_global_rejects: 2,
        ..Config::default()
    });
    assert_eq!(Ok(()), runner.reject_global::<u8>("h"));
    assert_eq!(Ok(()), runner.reject_local("l".to_owned()));
    assert_eq!(Ok(()), runner.reject_global::<u8>("g"));
    assert_eq!(
        Err(TestError::Abort("Too many global rejects".to_owned())),
        runner.reject_global::<u8>("h")
    );
    assert_eq!(Err("Too many local rejects".to_owned()), runner.reject_local("l".to_owned()));
    assert_eq!(2, runner.global_rejects());
    assert_eq!(1, runner.local_rejects());
    assert_eq!(1, runner.global_rejects_at(&"g".to_owned()));
    assert_eq!(1, runner.global_rejects_at(&"h".to_owned()));
    assert_eq!(0, runner.global_rejects_at(&"l".to_owned()));
    assert_eq!(
        "\tsuccesses: 0\n\tlocal rejects: 1\n\t\t1 times at l\n\tglobal rejects: 2\n\
         \t\t1 times at g\n\t\t1 times at h\n",
        runner.to_string()
    );
}

#[test]
fn histogram_counts_by_place() {
    let mut h = Histogram::new();
    assert_eq!(0, h.len());
    assert_eq!(0, h.get(&"x".to_owned()));
    h.note("x".to_owned());
    h.note("y".to_owned());
    h.note("x".to_owned());
    h.note("".to_owned());
    h.note("x".to_owned());
    assert_eq!(3, h.len());
    assert_eq!(3, h.get(&"x".to_owned()));
    assert_eq!(1, h.get(&"y".to_owned()));
    assert_eq!(1, h.get(&"".to_owned()));
    assert_eq!(0, h.get(&"z".to_owned()));
    assert_eq!("", h.place(0));
    assert_eq!(1, h.tally(0));
    assert_eq!("x", h.place(1));
    assert_eq!(3, h.tally(1));
    assert_eq!("y", h.place(2));
    assert_eq!(1, h.tally(2));
    let mut out = Vec::new();
    h.push_listing(&mut out);
    let listing: String = out.into_iter().collect();
    assert_eq!("\t\t1 times at \n\t\t3 times at x\n\t\t1 times at y\n", listing);
}

#[test]
fn histogram_lists_places_in_the_order_of_a_sorted_map() {
    let labels = [
        "b", "a", "ab", "", "B", "a", "\u{e9}", "z", "aa", "b", "\u{10000}", "\u{ffff}", "a b", "a\u{0}",
        "zz", "a", "10", "9", "b",
    ];
    let mut h = Histogram::new();
    let mut map = BTreeMap::new();
    for label in labels {
        h.note(label.to_owned());
        *map.entry(label.to_owned()).or_insert(0u32) += 1;
    }
    assert_eq!(map.len(), h.len());
    for (i, (place, count)) in map.iter().enumerate() {
        assert_eq!(place, h.place(i));
        assert_eq!(*count, h.tally(i));
        assert_eq!(*count, h.get(place));
    }
}

#[test]
fn rank_is_the_order_of_strings() {
    let texts = ["", "a", "b", "ab", "ba", "a\u{e9}", "\u{e9}", "\u{ffff}", "\u{10000}", "A", "aa"];
    for a in texts {
        for b in texts {
            let expected = if a < b {
                Rank::Before
            } else if a == b {
                Rank::Same
            } else {
                Rank::After
            };
            let x: Vec<char> = a.chars().collect();
            let y: Vec<char> = b.chars().collect();
            assert_eq!(expected, rank(&x, &y), "{:?} {:?}", a, b);
        }
    }
}

#[test]
fn regenerations_are_counted_over_all_clones() {
    let runner = TestRunner::new(Config { max_flat_map_regens: 3, ..Config::default() });
    let partial = runner.partial_clone();
    let full = runner.clone();
    assert!(runner.flat_map_regen());
    assert!(partial.flat_map_regen());
    assert!(full.flat_map_regen());
    assert!(!runner.flat_map_regen());
    assert!(!partial.flat_map_regen());
    assert!(!partial.partial_clone().flat_map_regen());

    let other = TestRunner::new(Config { max_flat_map_regens: 3, ..Config::default() });
    assert!(other.flat_map_regen());

    let never = TestRunner::new(Config { max_flat_map_regens: 0, ..Config::default() });
    assert!(!never.flat_map_regen());
}

#[test]
fn regeneration_is_permitted_under_the_limit() {
    assert!(regen_permitted(0, 1));
    assert!(!regen_permitted(1, 1));
    assert!(!regen_permitted(0, 0));
    assert!(regen_permitted(999_999, 1_000_000));
    assert!(!regen_permitted(1_000_000, 1_000_000));
    assert!(!regen_permitted(usize::MAX, u32::MAX));
    assert!(regen_permitted(4294967294, u32::MAX));
}

#[test]
fn partial_clone_keeps_the_configuration_and_the_counter_only() {
    let mut runner = TestRunner::new(Config::with_cases(9));
    runner.set_source_file("src/some/test.rs");
    assert_eq!(Ok(()), runner.reject_local("l".to_owned()));
    assert_eq!(Ok(()), runner.reject_global::<u8>("g"));
    assert_eq!(Ok(true), runner.run_one(prop_runner::num::BinarySearch::new(1), |_| Ok(())));
    let clone = runner.partial_clone();
    assert_eq!(&Config::with_cases(9), clone.config());
    assert_eq!(None, clone.source_file());
    assert_eq!(Some("src/some/test.rs"), runner.source_file());
    assert_eq!(0, clone.successes());
    assert_eq!(0, clone.local_rejects());
    assert_eq!(0, clone.global_rejects());
    assert_eq!(0, clone.local_rejects_at(&"l".to_owned()));
    assert_eq!(0, clone.global_rejects_at(&"g".to_owned()));
    assert_eq!(1, runner.local_rejects());
    assert_eq!(None, TestRunner::default().source_file());
    assert_eq!(&Config::default(), TestRunner::default().config());
}

#[test]
fn errors_are_rendered_for_the_person_who_runs_the_test() {
    assert_eq!("Input rejected at here", TestCaseError::Reject("here".to_owned()).to_string());
    assert_eq!("Case failed: why", TestCaseError::Fail("why".to_owned()).to_string());
    let abort: TestError<u32> = TestError::Abort("enough".to_owned());
    assert_eq!("Test aborted: enough", abort.to_string());
    assert_eq!("Test aborted: enough", abort.describe("ignored"));
    assert_eq!("Abort", abort.description());
    let fail = TestError::Fail("bad".to_owned(), vec![1u8, 2]);
    assert_eq!("Test failed: bad; minimal failing input: [1, 2]", fail.to_string());
    assert_eq!("Test failed: bad; minimal failing input: <it>", fail.describe("<it>"));
    assert_eq!("Fail", fail.description());
}

#[test]
fn failures_are_made_from_errors_and_panics() {
    let parsed = "x".parse::<u32>().unwrap_err();
    match TestCaseError::from_error(&parsed) {
        TestCaseError::Fail(why) => assert_eq!(parsed.to_string(), why),
        other => panic!("Unexpected result: {:?}", other),
    }
    match TestCaseError::from_panic(Some("M".to_owned())) {
        TestCaseError::Fail(why) => assert_eq!("M", why),
        other => panic!("Unexpected result: {:?}", other),
    }
    match TestCaseError::from_panic(None) {
        TestCaseError::Fail(why) => assert_eq!("<unknown panic value>", why),
        other => panic!("Unexpected result: {:?}", other),
    }
}
