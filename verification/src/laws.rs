//! What holds of the engine as a whole.

use vstd::prelude::*;
use crate::num::{BinarySearch, U32Range};
use crate::config::Config;
use crate::model::{case_step, cases_left, generated, replayed, run_model};
use crate::outcome::{TestCaseError, TestCaseResult};
use crate::runner::{noted, RunnerState, TestRunner};
use crate::shrink::{agrees, minimized, search, verdict_of, Verdict};
use crate::strategy::{Strategy, ValueFor, ValueTree};

verus! {

/// Whether the verdict is a failure for exactly those numbers from `lo` to
/// `hi` that are `k` or more.
pub open spec fn fails_from(verdict: spec_fn(u32) -> Verdict, k: u32, lo: u32, hi: u32) -> bool {
    forall|v: u32| lo <= v <= hi ==> ((#[trigger] verdict(v)) is Fail <==> v >= k)
}

/// The search over a tree of numbers ends at the threshold of a predicate
/// that fails from the threshold up: wherever the tree points when the
/// search goes on, the failure that it reports is the one at `k`.
pub proof fn lemma_search_ends_at_threshold(
    tree: BinarySearch,
    verdict: spec_fn(u32) -> Verdict,
    k: u32,
    why: Seq<char>,
    best: u32,
)
    requires
        tree.inv(),
        tree.lo <= k <= tree.hi,
        fails_from(verdict, k, tree.lo, tree.hi),
    ensures
        search(tree, verdict, why, best).1 == k,
        verdict(k) == Verdict::Fail(search(tree, verdict, why, best).0),
    decreases tree.moves_left(),
{
    assert(verdict(tree.curr) is Fail <==> tree.curr >= k);
    match verdict(tree.curr) {
        Verdict::Fail(new_why) => {
            if tree.can_simplify() {
                let next = tree.simplified();
                assert(next.moves_left() < tree.moves_left());
                assert(fails_from(verdict, k, next.lo, next.hi));
                lemma_search_ends_at_threshold(next, verdict, k, new_why, tree.curr);
            }
        },
        _ => {
            let next = tree.complicated();
            assert(tree.can_complicate());
            assert(next.moves_left() < tree.moves_left());
            assert(fails_from(verdict, k, next.lo, next.hi));
            lemma_search_ends_at_threshold(next, verdict, k, why, best);
        },
    }
}

/// For a predicate over numbers that fails exactly from `k` up, the
/// minimal failing input that the search finds from a failing number is
/// `k`, with the reason for which the predicate fails on `k`.
pub proof fn lemma_minimized_is_threshold(
    tree: BinarySearch,
    verdict: spec_fn(u32) -> Verdict,
    k: u32,
    why: Seq<char>,
)
    requires
        tree.inv(),
        tree.lo <= k <= tree.curr,
        fails_from(verdict, k, tree.lo, tree.hi),
        verdict(tree.curr) == Verdict::Fail(why),
    ensures
        minimized(tree, verdict, why) == (why_at(verdict, k), k),
        verdict(k) == Verdict::Fail(why_at(verdict, k)),
{
    assert(verdict(k) is Fail);
    if tree.can_simplify() {
        let next = tree.simplified();
        assert(fails_from(verdict, k, next.lo, next.hi));
        lemma_search_ends_at_threshold(next, verdict, k, why, tree.curr);
    }
}

/// The reason of the failure on `v`, where the verdict is one.
pub open spec fn why_at(verdict: spec_fn(u32) -> Verdict, v: u32) -> Seq<char> {
    verdict(v)->Fail_0
}

/// The state after `n` more local rejections at `whence`.
pub open spec fn after_local_rejects(state: RunnerState, whence: Seq<char>, n: nat) -> RunnerState
    decreases n,
{
    if n == 0 {
        state
    } else {
        after_local_rejects(state, whence, (n - 1) as nat).with_local_reject(whence)
    }
}

/// After `n` local rejections at one place, and none before, the runner has
/// counted `n` local rejections, and its histogram of them has exactly one
/// entry: the place, with the count `n`.
pub proof fn lemma_rejections_at_one_place(state: RunnerState, whence: Seq<char>, n: nat)
    requires
        state.local_rejects == 0,
        state.local_reject_detail == Map::<Seq<char>, nat>::empty(),
        n > 0,
    ensures
        after_local_rejects(state, whence, n).local_rejects == n,
        after_local_rejects(state, whence, n).local_reject_detail == Map::<
            Seq<char>,
            nat,
        >::empty().insert(whence, n),
        after_local_rejects(state, whence, n) == (RunnerState {
            local_rejects: n,
            local_reject_detail: Map::<Seq<char>, nat>::empty().insert(whence, n),
            ..state
        }),
    decreases n,
{
    let empty = Map::<Seq<char>, nat>::empty();
    if n == 1 {
        assert(after_local_rejects(state, whence, 0) == state);
        assert(noted(empty, whence) =~= empty.insert(whence, 1));
    } else {
        lemma_rejections_at_one_place(state, whence, (n - 1) as nat);
        let before = empty.insert(whence, (n - 1) as nat);
        assert(noted(before, whence) =~= empty.insert(whence, n));
    }
}

/// The case of a seed is fixed by the seed: whatever state the generators
/// of two new runners with one configuration are in, the strategy produces
/// the same tree for both from the seed, and the case ends in the same way
/// and leaves both runners in the same state.
pub proof fn lemma_same_seed_same_case<S: Strategy>(
    strategy: S,
    verdict: spec_fn(ValueFor<S>) -> Verdict,
    seed: Seq<u32>,
    config: Config,
    source_file: Option<Seq<char>>,
    rng_one: Seq<u32>,
    rng_other: Seq<u32>,
)
    ensures
        replayed(strategy, verdict, seq![seed], RunnerState::fresh(config, rng_one, source_file))
            == replayed(strategy, verdict, seq![seed], RunnerState::fresh(config, rng_other, source_file)),
        replayed(strategy, verdict, seq![seed], RunnerState::fresh(config, rng_one, source_file))
            == case_step(strategy, verdict, RunnerState::fresh(config, seed, source_file)),
{
    let one = RunnerState::fresh(config, rng_one, source_file);
    let other = RunnerState::fresh(config, rng_other, source_file);
    let seeded = RunnerState::fresh(config, seed, source_file);
    let seeds = seq![seed];
    assert((RunnerState { rng: seed, ..one }) == seeded);
    assert((RunnerState { rng: seed, ..other }) == seeded);
    assert(seeds.len() == 1 && seeds[0] == seed);
    let (r, after) = case_step(strategy, verdict, seeded);
    assert(seeds.skip(1).len() == 0);
    assert(replayed(strategy, verdict, seeds.skip(1), after) == (
        Ok::<(), (Seq<char>, Option<ValueFor<S>>)>(()),
        after,
    ));
    assert(r is Ok ==> r->Ok_0 == ());
    assert(replayed(strategy, verdict, seeds, one) == (r, after));
    assert(replayed(strategy, verdict, seeds, other) == (r, after));
}

/// Whether the tree that a strategy produces depends on nothing but the
/// state of the generator.
pub open spec fn draws_from_generator_only<S: Strategy>(strategy: S) -> bool {
    forall|a: RunnerState, b: RunnerState|
        a.rng == b.rng ==> (#[trigger] strategy.produced(a)).0 == (#[trigger] strategy.produced(
            b,
        )).0
}

/// Where a case fails from one state, the case of the same seed fails in
/// the same way from every other state, for a strategy that draws from the
/// generator only.
pub proof fn lemma_failure_is_fixed_by_the_seed<S: Strategy>(
    strategy: S,
    verdict: spec_fn(ValueFor<S>) -> Verdict,
    one: RunnerState,
    other: RunnerState,
)
    requires
        draws_from_generator_only(strategy),
        one.rng == other.rng,
        case_step(strategy, verdict, one).0 is Err,
        case_step(strategy, verdict, one).0->Err_0.1 is Some,
    ensures
        case_step(strategy, verdict, other).0 == case_step(strategy, verdict, one).0,
{
    assert(strategy.produced(one).0 == strategy.produced(other).0);
}

/// The seed that comes with the failure of a newly generated case gives
/// that failure again, from whatever state its case is run.
pub proof fn lemma_generated_failure_has_its_seed<S: Strategy>(
    strategy: S,
    verdict: spec_fn(ValueFor<S>) -> Verdict,
    before: RunnerState, other: RunnerState)
    requires
        draws_from_generator_only(strategy),
        generated(strategy, verdict, before).0 is Err,
        generated(strategy, verdict, before).0->Err_0.1 is Some,
    ensures
        generated(strategy, verdict, before).1 is Some,
        case_step(
            strategy,
            verdict,
            RunnerState { rng: generated(strategy, verdict, before).1->Some_0, ..other },
        ).0 == generated(strategy, verdict, before).0,
    decreases cases_left(before),
{
    if before.successes < before.config.cases {
        let seed = crate::rng::drawn_seed(before.rng);
        let seeded = RunnerState { rng: seed, ..before };
        let (r, after) = case_step(strategy, verdict, seeded);
        match r {
            Err((why, Some(v))) => {
                lemma_failure_is_fixed_by_the_seed(
                    strategy,
                    verdict,
                    seeded,
                    RunnerState { rng: seed, ..other },
                );
            },
            Err((why, None)) => {},
            Ok(_) => {
                if 0 <= cases_left(after) < cases_left(before) {
                    lemma_generated_failure_has_its_seed(strategy, verdict, after, other);
                }
            },
        }
    }
}

/// A failure that was persisted is reproduced: where a run that replays
/// nothing ends in the failure of a new case, a later run that replays the
/// seed of that case ends in the same failure, with the same minimal failing
/// input, before it generates any new case, and has nothing to persist.
/// This holds from whatever state the later run starts, for a strategy that
/// draws from the generator only.
pub proof fn lemma_persisted_failure_is_replayed<S: Strategy>(
    strategy: S,
    verdict: spec_fn(ValueFor<S>) -> Verdict,
    first: RunnerState, later: RunnerState)
    requires
        draws_from_generator_only(strategy),
        run_model(strategy, verdict, Seq::empty(), first).0 is Err,
        run_model(strategy, verdict, Seq::empty(), first).0->Err_0.1 is Some,
    ensures
        run_model(strategy, verdict, Seq::empty(), first).1 is Some,
        run_model(
            strategy,
            verdict,
            seq![run_model(strategy, verdict, Seq::empty(), first).1->Some_0],
            later,
        ).0 == run_model(strategy, verdict, Seq::empty(), first).0,
        run_model(
            strategy,
            verdict,
            seq![run_model(strategy, verdict, Seq::empty(), first).1->Some_0],
            later,
        ).1 is None,
{
    let none = Seq::<Seq<u32>>::empty();
    assert(replayed(strategy, verdict, none, first) == (Ok::<(), (Seq<char>, Option<ValueFor<S>>)>(()), first));
    assert((RunnerState { rng: first.rng, ..first }) == first);
    lemma_generated_failure_has_its_seed(strategy, verdict, first, later);
    let seed = run_model(strategy, verdict, none, first).1->Some_0;
    assert(seq![seed][0] == seed);
}

/// A strategy of numbers in a range draws from the generator only.
pub proof fn lemma_range_draws_from_generator_only(range: U32Range)
    ensures
        range.deterministic(),
        draws_from_generator_only(range),
{
}

/// A predicate that ends abnormally with a message has the verdict of one
/// that returns the failure with that message: the failure that stands for
/// the panic (see `TestCaseError::from_panic`) and the failure that is
/// returned stand for the same verdict. Since a case and a run end by the
/// verdicts alone, both predicates end in the same failure, with the same
/// reason.
pub proof fn lemma_panic_has_the_verdict_of_failure(
    caught: TestCaseError,
    returned: TestCaseError,
    message: Seq<char>,
)
    requires
        caught is Fail,
        caught.text() == message,
        returned is Fail,
        returned.text() == message,
    ensures
        verdict_of(Err(caught)) == Verdict::Fail(message),
        verdict_of(Err(caught)) == verdict_of(Err(returned)),
{
}

/// Two predicates that agree with one way of giving each input a verdict
/// end each case in the same way: what `run_one` returns for either is fixed
/// by the verdicts.
pub proof fn lemma_case_goes_by_verdicts<
    V: ValueTree,
    F: Fn(&V::Value) -> TestCaseResult,
    G: Fn(&V::Value) -> TestCaseResult,
>(
    before: RunnerState,
    case: V,
    f: F,
    g: G,
    verdict: spec_fn(V::Value) -> Verdict,
    with_f: (Result<bool, (Seq<char>, Option<V::Value>)>, RunnerState),
    with_g: (Result<bool, (Seq<char>, Option<V::Value>)>, RunnerState),
)
    requires
        agrees(f, verdict),
        agrees(g, verdict),
        forall|any: spec_fn(V::Value) -> Verdict| #[trigger]
            agrees(f, any) ==> with_f == TestRunner::case_outcome(before, case, any),
        forall|any: spec_fn(V::Value) -> Verdict| #[trigger]
            agrees(g, any) ==> with_g == TestRunner::case_outcome(before, case, any),
    ensures
        with_f == with_g,
{
}

} // verus!
