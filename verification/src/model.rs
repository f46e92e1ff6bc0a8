//! A test run as a function of what goes into it.
//!
//! Where the strategy is deterministic, the state of the runner, the seeds
//! to replay, the strategy and the verdict of the predicate on each input
//! fix how a run ends. The functions here say how.

use vstd::prelude::*;
use crate::outcome::TestError;
use crate::rng::{drawn_seed, Seed};
use crate::runner::{FailureRecord, RunnerState, TestRunner};
use crate::shrink::Verdict;
use crate::strategy::{Strategy, ValueFor, ValueTree};

verus! {

/// How a case or a run ended: well, or with a reason and, for a failure,
/// the minimal failing input.
pub type Ended<T> = Result<(), (Seq<char>, Option<T>)>;

/// What an error stands for: its reason and, for a failure, the minimal
/// failing input.
pub open spec fn error_of<T>(e: TestError<T>) -> (Seq<char>, Option<T>) {
    match e {
        TestError::Abort(why) => (why@, None),
        TestError::Fail(why, v) => (why@, Some(v)),
    }
}

/// What a result stands for.
pub open spec fn ended<T>(r: Result<(), TestError<T>>) -> Ended<T> {
    match r {
        Ok(_) => Ok(()),
        Err(e) => Err(error_of(e)),
    }
}

/// The seed of a record, if there is one.
pub open spec fn seed_of(record: Option<FailureRecord>) -> Option<Seq<u32>> {
    match record {
        Some(r) => Some(r.seed@),
        None => None,
    }
}

/// The words of each seed.
pub open spec fn words_of(seeds: Seq<Seed>) -> Seq<Seq<u32>> {
    Seq::new(seeds.len(), |i: int| seeds[i]@)
}

/// How the case of a tree that was produced ends, from the state `before`:
/// the predicate, whose verdicts `verdict` gives, is run on it, and a case
/// that passes counts as a success.
pub open spec fn finished<V: ValueTree>(
    before: RunnerState,
    case: V,
    verdict: spec_fn(V::Value) -> Verdict,
) -> (Ended<V::Value>, RunnerState) {
    let (r, after) = TestRunner::case_outcome(before, case, verdict);
    match r {
        Ok(passed) => if passed {
            (Ok(()), RunnerState { successes: after.successes + 1, ..after })
        } else {
            (Ok(()), after)
        },
        Err(e) => (Err(e), after),
    }
}

/// One case: the strategy produces a tree from the state `before`, and the
/// predicate, whose verdicts `verdict` gives, is run on it. A strategy that
/// declines aborts the test; a case that passes counts as a success.
pub open spec fn case_step<S: Strategy>(
    strategy: S,
    verdict: spec_fn(ValueFor<S>) -> Verdict,
    before: RunnerState,
) -> (Ended<ValueFor<S>>, RunnerState) {
    let (tree, drawn) = strategy.produced(before);
    match tree {
        Err(msg) => (Err((msg, None)), drawn),
        Ok(case) => finished(drawn, case, verdict),
    }
}

/// The cases of the seeds in `seeds`, in their order, up to the first that
/// does not end well: each is generated from its seed.
pub open spec fn replayed<S: Strategy>(
    strategy: S,
    verdict: spec_fn(ValueFor<S>) -> Verdict,
    seeds: Seq<Seq<u32>>,
    before: RunnerState,
) -> (Ended<ValueFor<S>>, RunnerState)
    decreases seeds.len(),
{
    if seeds.len() == 0 {
        (Ok(()), before)
    } else {
        let (r, after) = case_step(strategy, verdict, RunnerState { rng: seeds[0], ..before });
        if r is Err {
            (r, after)
        } else {
            replayed(strategy, verdict, seeds.skip(1), after)
        }
    }
}

/// What bounds the number of cases that can still end well: the successes
/// that are still asked for, and the global rejections that the budget
/// still allows.
pub open spec fn cases_left(state: RunnerState) -> int {
    (state.config.cases - state.successes) + (state.config.max_global_rejects
        - state.global_rejects)
}

/// New cases, until as many have passed as the configuration asks for or
/// one does not end well: each is generated from a seed that is drawn from
/// the generator. With a failure comes the seed of the failing case.
pub open spec fn generated<S: Strategy>(
    strategy: S,
    verdict: spec_fn(ValueFor<S>) -> Verdict,
    before: RunnerState,
) -> (Ended<ValueFor<S>>, Option<Seq<u32>>, RunnerState)
    decreases cases_left(before),
{
    if before.successes >= before.config.cases {
        (Ok(()), None, before)
    } else {
        let seed = drawn_seed(before.rng);
        let (r, after) = case_step(strategy, verdict, RunnerState { rng: seed, ..before });
        match r {
            Err((why, Some(v))) => (r, Some(seed), after),
            Err((why, None)) => (r, None, after),
            Ok(_) => if 0 <= cases_left(after) < cases_left(before) {
                generated(strategy, verdict, after)
            } else {
                (r, None, after)
            },
        }
    }
}

/// A whole run from the state `before`: the seeds in `seeds` are replayed;
/// where all their cases end well, the generator is put back to where it
/// stood and new cases are generated.
pub open spec fn run_model<S: Strategy>(
    strategy: S,
    verdict: spec_fn(ValueFor<S>) -> Verdict,
    seeds: Seq<Seq<u32>>,
    before: RunnerState,
) -> (Ended<ValueFor<S>>, Option<Seq<u32>>, RunnerState) {
    let (r, after) = replayed(strategy, verdict, seeds, before);
    if r is Err {
        (r, None, after)
    } else {
        generated(strategy, verdict, RunnerState { rng: before.rng, ..after })
    }
}

} // verus!
