use prop_runner::num::{BinarySearch, U32Range};
use prop_runner::rng::is_usable_seed;
use prop_runner::{Config, Strategy, TestCaseError, TestError, TestRunner, ValueTree};

fn fails_from(k: u32) -> impl Fn(&u32) -> Result<(), TestCaseError> {
    move |v: &u32| {
        if *v >= k {
            Err(TestCaseError::Fail(format!("{} is {} or more", v, k)))
        } else {
            Ok(())
        }
    }
}

#[test]
fn search_finds_the_threshold() {
    let mut runner = TestRunner::new(Config::default());
    for n in [1u32, 2, 3, 10, 100, 1000, u32::MAX] {
        for k in [0u32, 1, 2, 5, 9, 99, 500, 999, n - 1] {
            if k >= n {
                continue;
            }
            for start in [k, k + (n - 1 - k) / 2, n - 1] {
                let tree = BinarySearch::new(start);
                assert_eq!(
                    Err(TestError::Fail(format!("{} is {} or more", k, k), k)),
                    runner.run_one(tree, fails_from(k)),
                    "n = {}, k = {}, start = {}",
                    n,
                    k,
                    start
                );
            }
        }
    }
}

#[test]
fn search_stays_above_the_lower_bound() {
    let mut runner = TestRunner::new(Config::default());
    let tree = BinarySearch::new_above(20, 90);
    assert_eq!(
        Err(TestError::Fail("20 is 3 or more".to_owned(), 20)),
        runner.run_one(tree, fails_from(3))
    );
}

#[test]
fn tree_moves_by_halves() {
    let mut tree = BinarySearch::new(100);
    assert_eq!(100, tree.current());
    assert!(!tree.complicate());
    assert_eq!(BinarySearch { lo: 0, curr: 100, hi: 100 }, tree);
    assert!(tree.simplify());
    assert_eq!(BinarySearch { lo: 0, curr: 50, hi: 100 }, tree);
    assert!(tree.simplify());
    assert_eq!(BinarySearch { lo: 0, curr: 25, hi: 50 }, tree);
    assert!(tree.complicate());
    assert_eq!(BinarySearch { lo: 26, curr: 38, hi: 50 }, tree);
    assert!(tree.complicate());
    assert_eq!(BinarySearch { lo: 39, curr: 44, hi: 50 }, tree);
    assert!(tree.simplify());
    assert_eq!(BinarySearch { lo: 39, curr: 41, hi: 44 }, tree);
    assert!(tree.simplify());
    assert_eq!(BinarySearch { lo: 39, curr: 40, hi: 41 }, tree);
    assert!(tree.simplify());
    assert_eq!(BinarySearch { lo: 39, curr: 39, hi: 40 }, tree);
    assert!(!tree.simplify());
    assert_eq!(BinarySearch { lo: 39, curr: 39, hi: 39 }, tree);
    assert!(!tree.simplify());
    assert!(!tree.complicate());
    assert_eq!(39, tree.current());
}

#[test]
fn tree_at_its_bounds_does_not_move() {
    let mut zero = BinarySearch::new(0);
    assert!(!zero.simplify());
    assert!(!zero.complicate());
    let mut top = BinarySearch::new(u32::MAX);
    assert!(!top.complicate());
    assert!(top.simplify());
    assert_eq!(BinarySearch { lo: 0, curr: u32::MAX / 2, hi: u32::MAX }, top);
    assert!(top.complicate());
    assert_eq!(BinarySearch { lo: 2147483648, curr: 3221225471, hi: u32::MAX }, top);
}

#[test]
fn range_draws_within_its_bounds() {
    let mut runner = TestRunner::new(Config::default());
    let range = U32Range { low: 5, high: 8 };
    let mut seen = [false; 3];
    for _ in 0..200 {
        let tree = range.new_value(&mut runner).unwrap();
        assert!(5 <= tree.curr && tree.curr < 8);
        assert_eq!(BinarySearch { lo: 5, curr: tree.curr, hi: tree.curr }, tree);
        seen[(tree.curr - 5) as usize] = true;
    }
    assert_eq!([true; 3], seen);
    assert_eq!(0, runner.local_rejects());
    assert_eq!(Err("empty range".to_owned()), U32Range { low: 8, high: 8 }.new_value(&mut runner));
    assert_eq!(Err("empty range".to_owned()), U32Range { low: 9, high: 8 }.new_value(&mut runner));
}

#[test]
fn only_the_zero_seed_is_unusable() {
    assert!(!is_usable_seed(&[0, 0, 0, 0]));
    assert!(is_usable_seed(&[1, 0, 0, 0]));
    assert!(is_usable_seed(&[0, 1, 0, 0]));
    assert!(is_usable_seed(&[0, 0, 1, 0]));
    assert!(is_usable_seed(&[0, 0, 0, 1]));
    assert!(is_usable_seed(&[u32::MAX; 4]));
}
