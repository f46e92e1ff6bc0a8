//! The state of one test run, and the rules by which it counts.

use vstd::prelude::*;
use vstd::string::*;
use std::sync::Arc;
use std::sync::atomic::AtomicUsize;
use rand::XorShiftRng;
use crate::config::{default_config, Config};
use crate::decimal::{decimal, push_decimal};
use crate::histogram::{listing, Histogram};
use crate::model::{
    case_step, ended, error_of, finished, generated, replayed, run_model, seed_of, words_of,
};
use crate::outcome::{TestCaseError, TestCaseResult, TestError};
use crate::regen::{count_one, new_counter, same_counter};
use crate::rng::{
    draw_seed, drawn_seed, fresh_rng, is_usable_seed, rng_words, seeded_rng, usable_seed, Seed,
};
use crate::shrink::{agrees, minimize, minimized, Verdict};
use crate::strategy::{Strategy, ValueFor, ValueTree};
use crate::text::{debug_text, push_word, string_of};

verus! {

/// What a runner holds, as plain values. The counter of regenerations is
/// shared with other runners and can change at any time, so it has no part
/// in this.
pub struct RunnerState {
    /// The configuration of the run.
    pub config: Config,
    /// The number of test cases that passed.
    pub successes: nat,
    /// The number of local rejections counted.
    pub local_rejects: nat,
    /// The number of global rejections counted.
    pub global_rejects: nat,
    /// The four words of the random generator.
    pub rng: Seq<u32>,
    /// The local rejections, by place.
    pub local_reject_detail: Map<Seq<char>, nat>,
    /// The global rejections, by place.
    pub global_reject_detail: Map<Seq<char>, nat>,
    /// The source file of the test, where it is known.
    pub source_file: Option<Seq<char>>,
}

/// State used when running a test.
#[derive(Clone, Debug)]
pub struct TestRunner {
    config: Config,
    successes: u32,
    local_rejects: u32,
    global_rejects: u32,
    rng: XorShiftRng,
    flat_map_regens: Arc<AtomicUsize>,
    local_reject_detail: Histogram,
    global_reject_detail: Histogram,
    source_file: Option<&'static str>,
}

impl View for TestRunner {
    type V = RunnerState;

    closed spec fn view(&self) -> RunnerState {
        RunnerState {
            config: self.config,
            successes: self.successes as nat,
            local_rejects: self.local_rejects as nat,
            global_rejects: self.global_rejects as nat,
            rng: rng_words(self.rng),
            local_reject_detail: self.local_reject_detail@,
            global_reject_detail: self.global_reject_detail@,
            source_file: match self.source_file {
                Some(path) => Some(path@),
                None => None,
            },
        }
    }
}

/// Equivalent to `TestRunner::new(Config::default())`.
impl Default for TestRunner {
    fn default() -> (runner: Self)
        ensures
            runner.wf(),
            runner@ == RunnerState::fresh(default_config(), runner@.rng, None),
    {
        TestRunner::new(Config::default())
    }
}

/// The number of inputs that a histogram counts at `whence`.
pub open spec fn count_at(detail: Map<Seq<char>, nat>, whence: Seq<char>) -> nat {
    if detail.dom().contains(whence) {
        detail[whence]
    } else {
        0
    }
}

/// The histogram with one more input counted at `whence`.
pub open spec fn noted(detail: Map<Seq<char>, nat>, whence: Seq<char>) -> Map<Seq<char>, nat> {
    detail.insert(whence, count_at(detail, whence) + 1)
}

impl RunnerState {
    /// The state of a runner that has not run anything yet.
    pub open spec fn fresh(config: Config, rng: Seq<u32>, source_file: Option<Seq<char>>) -> Self {
        RunnerState {
            config,
            successes: 0,
            local_rejects: 0,
            global_rejects: 0,
            rng,
            local_reject_detail: Map::empty(),
            global_reject_detail: Map::empty(),
            source_file,
        }
    }

    /// The state after one more local rejection at `whence`.
    pub open spec fn with_local_reject(self, whence: Seq<char>) -> Self {
        RunnerState {
            local_rejects: self.local_rejects + 1,
            local_reject_detail: noted(self.local_reject_detail, whence),
            ..self
        }
    }

    /// The state after one more global rejection at `whence`.
    pub open spec fn with_global_reject(self, whence: Seq<char>) -> Self {
        RunnerState {
            global_rejects: self.global_rejects + 1,
            global_reject_detail: noted(self.global_reject_detail, whence),
            ..self
        }
    }
}

impl TestRunner {
    /// The counter of regenerations that the runner shares.
    pub closed spec fn regens(&self) -> Arc<AtomicUsize> {
        self.flat_map_regens
    }

    /// The histogram of the local rejections.
    pub closed spec fn local_detail(&self) -> Histogram {
        self.local_reject_detail
    }

    /// The histogram of the global rejections.
    pub closed spec fn global_detail(&self) -> Histogram {
        self.global_reject_detail
    }

    /// What `to_string` renders: the successes, and each kind of rejection
    /// with one line for each place where it was counted.
    pub open spec fn summary(&self) -> Seq<char> {
        "\tsuccesses: "@ + decimal(self@.successes) + "\n\tlocal rejects: "@ + decimal(
            self@.local_rejects,
        ) + "\n"@ + listing(self.local_detail().places(), self.local_detail().tallies())
            + "\tglobal rejects: "@ + decimal(self@.global_rejects) + "\n"@ + listing(
            self.global_detail().places(),
            self.global_detail().tallies(),
        )
    }

    /// Whether the histograms are well formed and account for every
    /// rejection that was counted.
    pub closed spec fn accounted(&self) -> bool {
        &&& self.local_reject_detail.wf()
        &&& self.global_reject_detail.wf()
        &&& self.local_reject_detail.total() == self.local_rejects
        &&& self.global_reject_detail.total() == self.global_rejects
    }

    /// Whether the runner is well formed: its histograms account for the
    /// rejections counted, and no count of rejections is over its budget.
    pub open spec fn wf(&self) -> bool {
        &&& self.accounted()
        &&& self@.local_rejects <= self@.config.max_local_rejects
        &&& self@.global_rejects <= self@.config.max_global_rejects
    }

    /// The histograms of a well-formed runner are well formed, and their
    /// views are the counts by place that the view of the runner holds.
    pub proof fn lemma_details(&self)
        requires
            self.wf(),
        ensures
            self.local_detail().wf(),
            self.global_detail().wf(),
            self.local_detail()@ == self@.local_reject_detail,
            self.global_detail()@ == self@.global_reject_detail,
            self.local_detail().total() == self@.local_rejects,
            self.global_detail().total() == self@.global_rejects,
    {
    }

    /// Whether the runner is `before` after value generation only: the
    /// generator may have moved and local rejections may have been counted,
    /// and nothing else has changed.
    pub open spec fn continues(&self, before: TestRunner) -> bool {
        &&& self@.config == before@.config
        &&& self@.successes == before@.successes
        &&& self@.global_rejects == before@.global_rejects
        &&& self@.global_reject_detail == before@.global_reject_detail
        &&& self@.source_file == before@.source_file
        &&& self@.local_rejects >= before@.local_rejects
        &&& self.regens() == before.regens()
    }

    /// Create a fresh `TestRunner` with the given configuration.
    pub fn new(config: Config) -> (runner: Self)
        ensures
            runner.wf(),
            runner@ == RunnerState::fresh(config, runner@.rng, None),
    {
        TestRunner {
            config,
            successes: 0,
            local_rejects: 0,
            global_rejects: 0,
            rng: fresh_rng(),
            flat_map_regens: new_counter(),
            local_reject_detail: Histogram::new(),
            global_reject_detail: Histogram::new(),
            source_file: None,
        }
    }

    /// Create a fresh `TestRunner` with the same configuration and the same
    /// counter of regenerations as this one. Nothing else is kept: the
    /// counts start at zero, no source file is known, and the random
    /// generator is one of its own.
    pub fn partial_clone(&self) -> (runner: Self)
        ensures
            runner.wf(),
            runner@ == RunnerState::fresh(self@.config, runner@.rng, None),
            runner.regens() == self.regens(),
    {
        TestRunner {
            config: self.config,
            successes: 0,
            local_rejects: 0,
            global_rejects: 0,
            rng: fresh_rng(),
            flat_map_regens: same_counter(&self.flat_map_regens),
            local_reject_detail: Histogram::new(),
            global_reject_detail: Histogram::new(),
            source_file: None,
        }
    }

    /// Returns the random generator of this test run.
    ///
    /// What the borrower leaves in the generator is what the runner holds
    /// afterwards; nothing else of the runner changes.
    pub fn rng(&mut self) -> (rng: &mut XorShiftRng)
        ensures
            rng_words(*rng) == old(self)@.rng,
            final(self)@ == (RunnerState { rng: rng_words(*final(rng)), ..old(self)@ }),
            final(self).regens() == old(self).regens(),
            final(self).accounted() == old(self).accounted(),
    {
        &mut self.rng
    }

    /// Returns the configuration of this runner.
    pub fn config(&self) -> (config: &Config)
        ensures
            *config == self@.config,
    {
        &self.config
    }

    /// Set the source file to use for resolving the location of the file
    /// that persists failing cases.
    pub fn set_source_file(&mut self, source: &'static str)
        ensures
            final(self)@ == (RunnerState { source_file: Some(source@), ..old(self)@ }),
            final(self).regens() == old(self).regens(),
            final(self).accounted() == old(self).accounted(),
    {
        self.source_file = Some(source);
    }

    /// The source file that was set, if any.
    pub fn source_file(&self) -> (source: Option<&'static str>)
        ensures
            source is Some == self@.source_file is Some,
            source is Some ==> self@.source_file == Some(source->Some_0@),
    {
        self.source_file
    }

    /// The number of test cases that passed so far.
    pub fn successes(&self) -> (n: u32)
        ensures
            n == self@.successes,
    {
        self.successes
    }

    /// The number of local rejections counted so far.
    pub fn local_rejects(&self) -> (n: u32)
        ensures
            n == self@.local_rejects,
    {
        self.local_rejects
    }

    /// The number of global rejections counted so far.
    pub fn global_rejects(&self) -> (n: u32)
        ensures
            n == self@.global_rejects,
    {
        self.global_rejects
    }

    /// The number of local rejections counted at `whence`.
    pub fn local_rejects_at(&self, whence: &String) -> (n: u32)
        requires
            self.wf(),
        ensures
            n == count_at(self@.local_reject_detail, whence@),
    {
        self.local_reject_detail.get(whence)
    }

    /// The number of global rejections counted at `whence`.
    pub fn global_rejects_at(&self, whence: &String) -> (n: u32)
        requires
            self.wf(),
        ensures
            n == count_at(self@.global_reject_detail, whence@),
    {
        self.global_reject_detail.get(whence)
    }

    /// The counts of the run as a text of several lines, for the person who
    /// runs the test.
    pub fn to_string(&self) -> (s: String)
        requires
            self.wf(),
        ensures
            s@ == self.summary(),
    {
        let mut out: Vec<char> = Vec::new();
        push_word(&mut out, "\tsuccesses: ");
        push_decimal(&mut out, self.successes);
        push_word(&mut out, "\n\tlocal rejects: ");
        push_decimal(&mut out, self.local_rejects);
        push_word(&mut out, "\n");
        self.local_reject_detail.push_listing(&mut out);
        push_word(&mut out, "\tglobal rejects: ");
        push_decimal(&mut out, self.global_rejects);
        push_word(&mut out, "\n");
        self.global_reject_detail.push_listing(&mut out);
        assert(out@ =~= self.summary());
        string_of(&out)
    }

    /// Update the state to account for a local rejection from `whence`, and
    /// return `Ok` if the caller should keep going or `Err` to abort.
    ///
    /// The rejection is counted, in total and under `whence`, while the
    /// count is under `max_local_rejects`; after that nothing changes and the
    /// error says that there were too many.
    pub fn reject_local(&mut self, whence: String) -> (r: Result<(), String>)
        requires
            old(self).wf(),
        ensures
            final(self).wf(),
            final(self).regens() == old(self).regens(),
            r is Ok <==> old(self)@.local_rejects < old(self)@.config.max_local_rejects,
            r is Ok ==> final(self)@ == old(self)@.with_local_reject(whence@),
            r is Err ==> *final(self) == *old(self) && r->Err_0@ == "Too many local rejects"@,
    {
        if self.local_rejects >= self.config.max_local_rejects {
            Err("Too many local rejects".to_owned())
        } else {
            self.local_rejects += 1;
            self.local_reject_detail.note(whence);
            Ok(())
        }
    }

    /// Update the state to account for a global rejection from `whence`, and
    /// return `Ok` if the caller should keep going or `Err` to abort.
    ///
    /// The rejection is counted, in total and under `whence`, while the
    /// count is under `max_global_rejects`; after that nothing changes and
    /// the test is aborted for too many of them.
    pub fn reject_global<T>(&mut self, whence: &str) -> (r: Result<(), TestError<T>>)
        requires
            old(self).wf(),
        ensures
            final(self).wf(),
            final(self).regens() == old(self).regens(),
            r is Ok <==> old(self)@.global_rejects < old(self)@.config.max_global_rejects,
            r is Ok ==> final(self)@ == old(self)@.with_global_reject(whence@),
            r is Err ==> *final(self) == *old(self) && r->Err_0 is Abort && r->Err_0.reason()
                == "Too many global rejects"@,
    {
        if self.global_rejects >= self.config.max_global_rejects {
            Err(TestError::Abort("Too many global rejects".to_owned()))
        } else {
            self.global_rejects += 1;
            self.global_reject_detail.note(whence.to_owned());
            Ok(())
        }
    }

    /// Increment the counter of regenerations and return whether it was
    /// still under the configured limit before.
    ///
    /// The counter is shared with every runner cloned from the same one, so
    /// the answer depends on what the others did; `regen_permitted` says how
    /// it follows from the count that was found.
    pub fn flat_map_regen(&self) -> (permitted: bool)
        ensures
            permitted ==> self@.config.max_flat_map_regens > 0,
    {
        let prior = count_one(&self.flat_map_regens);
        regen_permitted(prior, self.config.max_flat_map_regens)
    }
}

/// Whether a regeneration is permitted where `prior` were counted before
/// it: while the count before is under the limit.
pub fn regen_permitted(prior: usize, max_flat_map_regens: u32) -> (permitted: bool)
    ensures
        permitted == (prior < max_flat_map_regens),
{
    prior < max_flat_map_regens as usize
}

/// A failing case as it is persisted: the seed from which the case was
/// generated, and the rendering of the minimal failing input that was found.
#[derive(Clone, Debug, PartialEq, Eq)]
pub struct FailureRecord {
    /// The seed of the failing case.
    pub seed: Seed,
    /// The minimal failing input, as `Debug` renders it.
    pub rendered: String,
}

/// How a test ended.
#[derive(Debug)]
pub struct RunOutcome<T> {
    /// Success, or the error that ended the test.
    pub result: Result<(), TestError<T>>,
    /// The record to persist: present where a newly generated case failed.
    pub record: Option<FailureRecord>,
}

/// What a result of `run_one` stands for: whether the case passed, or the
/// reason of the error and, for a failure, the minimal failing input.
pub open spec fn case_ended<T>(r: Result<bool, TestError<T>>) -> Result<
    bool,
    (Seq<char>, Option<T>),
> {
    match r {
        Ok(passed) => Ok(passed),
        Err(e) => Err(error_of(e)),
    }
}

/// Whether `f` rejects no input.
pub open spec fn never_rejects<T, F: Fn(&T) -> TestCaseResult>(f: F) -> bool {
    forall|v: T, r: TestCaseResult| #[trigger]
        call_ensures(f, (&v,), r) ==> !(r is Err && r->Err_0 is Reject)
}

/// Whether `f` passes every input.
pub open spec fn always_passes<T, F: Fn(&T) -> TestCaseResult>(f: F) -> bool {
    forall|v: T, r: TestCaseResult| #[trigger] call_ensures(f, (&v,), r) ==> r is Ok
}

/// The greater of two numbers.
pub open spec fn at_least(a: int, b: int) -> int {
    if a >= b {
        a
    } else {
        b
    }
}

/// Whether `f` rejects every input.
pub open spec fn always_rejects<T, F: Fn(&T) -> TestCaseResult>(f: F) -> bool {
    forall|v: T, r: TestCaseResult| #[trigger]
        call_ensures(f, (&v,), r) ==> r is Err && r->Err_0 is Reject
}

impl TestRunner {
    /// What `run_one` returns and leaves for a predicate whose verdicts
    /// `verdict` gives, from the state `before`: the result with the reason
    /// as a sequence of characters, and the state after.
    pub open spec fn case_outcome<V: ValueTree>(
        before: RunnerState,
        case: V,
        verdict: spec_fn(V::Value) -> Verdict,
    ) -> (Result<bool, (Seq<char>, Option<V::Value>)>, RunnerState) {
        match verdict(case.value()) {
            Verdict::Pass => (Ok(true), before),
            Verdict::Reject(whence) => if before.global_rejects
                < before.config.max_global_rejects {
                (Ok(false), before.with_global_reject(whence))
            } else {
                (Err(("Too many global rejects"@, None)), before)
            },
            Verdict::Fail(why) => {
                let found = minimized(case, verdict, why);
                (Err((found.0, Some(found.1))), before)
            },
        }
    }

    /// What each result of `run_one` tells, whatever the predicate does: what
    /// `f` returned for the current candidate of `case`, and how the runner
    /// has changed from `before` to `after`.
    ///
    /// `Ok(true)`: `f` passed the candidate, and nothing has changed.
    /// `Ok(false)`: `f` rejected it, the budget was not used up, and the
    /// rejection was counted. An abort: `f` rejected it, the budget was used
    /// up, and nothing has changed. A failure: `f` failed on the candidate
    /// and, for the reason reported, on the input reported, and nothing has
    /// changed; where the tree cannot be narrowed, what is reported is the
    /// candidate, with the reason for which `f` failed on it.
    pub open spec fn reported<V: ValueTree, F: Fn(&V::Value) -> TestCaseResult>(
        before: TestRunner,
        after: TestRunner,
        case: V,
        f: F,
        r: Result<bool, TestError<V::Value>>,
    ) -> bool {
        match r {
            Ok(passed) => if passed {
                &&& after == before
                &&& call_ensures(f, (&case.value(),), Ok(()))
            } else {
                exists|whence: String|
                    {
                        &&& #[trigger] call_ensures(
                            f,
                            (&case.value(),),
                            Err(TestCaseError::Reject(whence)),
                        )
                        &&& before@.global_rejects < before@.config.max_global_rejects
                        &&& after@ == before@.with_global_reject(whence@)
                    }
            },
            Err(TestError::Abort(why)) => {
                &&& after == before
                &&& why@ == "Too many global rejects"@
                &&& before@.global_rejects == before@.config.max_global_rejects
                &&& exists|whence: String| #[trigger]
                    call_ensures(f, (&case.value(),), Err(TestCaseError::Reject(whence)))
            },
            Err(TestError::Fail(why, v)) => {
                &&& after == before
                &&& call_ensures(f, (&v,), Err(TestCaseError::Fail(why)))
                &&& exists|first: String| #[trigger]
                    call_ensures(f, (&case.value(),), Err(TestCaseError::Fail(first)))
                &&& !case.can_simplify() ==> v == case.value() && call_ensures(
                    f,
                    (&case.value(),),
                    Err(TestCaseError::Fail(why)),
                )
            },
        }
    }

    /// Run one specific test case against this runner.
    ///
    /// If the predicate passes, the result is `Ok(true)`. If it rejects the
    /// input, the rejection is counted as a global one: the result is
    /// `Ok(false)` while the budget lasts, and the test is aborted once it is
    /// used up. If it fails, the minimal failing input that the search finds
    /// is reported. Nothing but a counted rejection changes the runner.
    ///
    /// A panic of `f` is not caught here: a predicate that may panic is to be
    /// wrapped so that it returns `TestCaseError::from_panic` instead.
    ///
    /// Whatever `f` does, each result reports what `f` really returned. The
    /// result is the one that `case_outcome` describes, for every way of
    /// giving each input one verdict with which `f` agrees.
    pub fn run_one<V: ValueTree, F: Fn(&V::Value) -> TestCaseResult>(
        &mut self,
        case: V,
        f: F,
    ) -> (r: Result<bool, TestError<V::Value>>)
        requires
            old(self).wf(),
            case.inv(),
            forall|v: V::Value| call_requires(f, (&v,)),
        ensures
            final(self).wf(),
            final(self).regens() == old(self).regens(),
            Self::reported(*old(self), *final(self), case, f, r),
            forall|verdict: spec_fn(V::Value) -> Verdict| #[trigger]
                agrees(f, verdict) ==> (case_ended(r), final(self)@) == Self::case_outcome(
                    old(self)@,
                    case,
                    verdict,
                ),
    {
        self.run_case(case, &f)
    }

    /// `run_one` for a borrowed predicate.
    fn run_case<V: ValueTree, F: Fn(&V::Value) -> TestCaseResult>(
        &mut self,
        case: V,
        f: &F,
    ) -> (r: Result<bool, TestError<V::Value>>)
        requires
            old(self).wf(),
            case.inv(),
            forall|v: V::Value| call_requires(*f, (&v,)),
        ensures
            final(self).wf(),
            final(self).regens() == old(self).regens(),
            Self::reported(*old(self), *final(self), case, *f, r),
            forall|verdict: spec_fn(V::Value) -> Verdict| #[trigger]
                agrees(*f, verdict) ==> (case_ended(r), final(self)@) == Self::case_outcome(
                    old(self)@,
                    case,
                    verdict,
                ),
    {
        let candidate = case.current();
        let outcome = f(&candidate);
        assert(outcome is Ok ==> outcome->Ok_0 == ());
        match outcome {
            Ok(_) => Ok(true),
            Err(TestCaseError::Fail(why)) => {
                let ghost first = why;
                let found = minimize(case, f, why);
                assert(call_ensures(*f, (&case.value(),), Err(TestCaseError::Fail(first))));
                Err(TestError::Fail(found.0, found.1))
            },
            Err(TestCaseError::Reject(whence)) => {
                assert(call_ensures(*f, (&case.value(),), Err(TestCaseError::Reject(whence))));
                match self.reject_global(whence.as_str()) {
                    Ok(_) => Ok(false),
                    Err(e) => Err(e),
                }
            },
        }
    }

    /// Starts the generator anew from `seed`, so that the seed alone fixes
    /// what is drawn next. Nothing else of the runner changes.
    pub fn reseed(&mut self, seed: Seed)
        requires
            usable_seed(seed@),
        ensures
            final(self)@ == (RunnerState { rng: seed@, ..old(self)@ }),
            final(self).regens() == old(self).regens(),
            final(self).accounted() == old(self).accounted(),
    {
        self.rng = seeded_rng(seed);
    }

    /// Draws the seed of a new case from the generator, and leaves the
    /// generator in the state of that seed. Nothing else of the runner
    /// changes.
    pub fn next_seed(&mut self) -> (seed: Seed)
        ensures
            seed@ == drawn_seed(old(self)@.rng),
            final(self)@ == (RunnerState { rng: seed@, ..old(self)@ }),
            final(self).regens() == old(self).regens(),
            final(self).accounted() == old(self).accounted(),
    {
        // No generator can be started from the seed of all zeros: the
        // generator then goes on from where the draw has left it, which is
        // the state of that seed.
        let seed = draw_seed(&mut self.rng);
        if is_usable_seed(&seed) {
            self.rng = seeded_rng(seed);
        }
        seed
    }

    /// What each result of `finish_case` tells of a tree that was produced,
    /// whatever the predicate does. `Ok`: `f` passed the current candidate
    /// of `case` and one more success was counted, or `f` rejected it and
    /// the rejection was counted. An error: what `reported` tells of it.
    pub open spec fn settled<V: ValueTree, F: Fn(&V::Value) -> TestCaseResult>(
        before: TestRunner,
        after: TestRunner,
        case: V,
        f: F,
        r: Result<(), TestError<V::Value>>,
    ) -> bool {
        match r {
            Ok(_) => {
                ||| {
                    &&& after@ == (RunnerState { successes: before@.successes + 1, ..before@ })
                    &&& call_ensures(f, (&case.value(),), Ok(()))
                }
                ||| Self::reported(before, after, case, f, Ok(false))
            },
            Err(e) => Self::reported(before, after, case, f, Err(e)),
        }
    }

    /// Ends one case, given what the strategy answered when it was asked for
    /// a tree.
    ///
    /// A strategy that declined aborts the test with its reason, and nothing
    /// changes. A tree is run as `run_one` runs it: a case that passes is
    /// counted as a success, one that is rejected as a global rejection, and
    /// a failure or a used-up budget is the error.
    pub fn finish_case<V: ValueTree, F: Fn(&V::Value) -> TestCaseResult>(
        &mut self,
        drawn: Result<V, String>,
        f: &F,
    ) -> (r: Result<(), TestError<V::Value>>)
        requires
            old(self).wf(),
            old(self)@.successes < u32::MAX,
            drawn is Ok ==> drawn->Ok_0.inv(),
            forall|v: V::Value| call_requires(*f, (&v,)),
        ensures
            final(self).wf(),
            final(self).regens() == old(self).regens(),
            match drawn {
                Err(msg) => r == Err::<(), TestError<V::Value>>(TestError::Abort(msg))
                    && *final(self) == *old(self),
                Ok(case) => Self::settled(*old(self), *final(self), case, *f, r),
            },
            forall|verdict: spec_fn(V::Value) -> Verdict| #[trigger]
                agrees(*f, verdict) && drawn is Ok ==> (ended(r), final(self)@) == finished(
                    old(self)@,
                    drawn->Ok_0,
                    verdict,
                ),
    {
        let case = match drawn {
            Ok(tree) => tree,
            Err(msg) => {
                return Err(TestError::Abort(msg));
            },
        };
        match self.run_case(case, f) {
            Ok(passed) => {
                if passed {
                    self.successes += 1;
                }
                Ok(())
            },
            Err(e) => Err(e),
        }
    }

    /// Generates one case from the generator as it stands and runs it.
    ///
    /// What the strategy answers is handed to `finish_case`.
    fn gen_and_run_case<S: Strategy, F: Fn(&ValueFor<S>) -> TestCaseResult>(
        &mut self,
        strategy: &S,
        f: &F,
    ) -> (r: Result<(), TestError<ValueFor<S>>>)
        requires
            old(self).wf(),
            old(self)@.successes < u32::MAX,
            forall|v: ValueFor<S>| call_requires(*f, (&v,)),
        ensures
            final(self).wf(),
            final(self)@.config == old(self)@.config,
            final(self)@.source_file == old(self)@.source_file,
            final(self).regens() == old(self).regens(),
            final(self)@.successes >= old(self)@.successes,
            final(self)@.global_rejects >= old(self)@.global_rejects,
            match r {
                Ok(_) => {
                    ||| {
                        &&& final(self)@.successes == old(self)@.successes + 1
                        &&& final(self)@.global_rejects == old(self)@.global_rejects
                        &&& final(self)@.global_reject_detail == old(self)@.global_reject_detail
                        &&& !always_rejects(*f)
                    }
                    ||| {
                        &&& final(self)@.successes == old(self)@.successes
                        &&& final(self)@.global_rejects == old(self)@.global_rejects + 1
                        &&& !never_rejects(*f)
                    }
                },
                Err(TestError::Abort(why)) => {
                    &&& final(self)@.successes == old(self)@.successes
                    &&& final(self)@.global_rejects == old(self)@.global_rejects
                    &&& final(self)@.global_reject_detail == old(self)@.global_reject_detail
                    &&& strategy.may_decline() || {
                        &&& why@ == "Too many global rejects"@
                        &&& final(self)@.global_rejects == final(self)@.config.max_global_rejects
                        &&& !never_rejects(*f)
                    }
                },
                Err(TestError::Fail(why, v)) => {
                    &&& final(self)@.successes == old(self)@.successes
                    &&& final(self)@.global_rejects == old(self)@.global_rejects
                    &&& final(self)@.global_reject_detail == old(self)@.global_reject_detail
                    &&& call_ensures(*f, (&v,), Err(TestCaseError::Fail(why)))
                    &&& !always_rejects(*f)
                    &&& !always_passes(*f)
                },
            },
            strategy.deterministic() ==> forall|verdict: spec_fn(ValueFor<S>) -> Verdict| #[trigger]
                agrees(*f, verdict) ==> (ended(r), final(self)@) == case_step(
                    *strategy,
                    verdict,
                    old(self)@,
                ),
    {
        let drawn = strategy.new_value(self);
        self.finish_case(drawn, f)
    }

    /// Runs the cases of the seeds in `persisted`, in their order, each
    /// generated from its seed, up to the first that does not end well.
    ///
    /// These are the failing cases of earlier runs. A case that fails ends
    /// the replay with its minimal failing input; a rejection budget that is
    /// used up, or a strategy that declines, ends it as aborted. A case that
    /// passes counts as a success. The generator is left where the last case
    /// has left it.
    pub fn replay<S: Strategy, F: Fn(&ValueFor<S>) -> TestCaseResult>(
        &mut self,
        strategy: &S,
        f: &F,
        persisted: &Vec<Seed>,
    ) -> (r: Result<(), TestError<ValueFor<S>>>)
        requires
            old(self).wf(),
            forall|v: ValueFor<S>| call_requires(*f, (&v,)),
            forall|i: int| 0 <= i < persisted.len() ==> usable_seed(#[trigger] persisted[i]@),
            old(self)@.successes + persisted.len() <= u32::MAX,
        ensures
            final(self).wf(),
            final(self)@.config == old(self)@.config,
            final(self)@.source_file == old(self)@.source_file,
            final(self).regens() == old(self).regens(),
            old(self)@.successes <= final(self)@.successes <= old(self)@.successes
                + persisted.len(),
            final(self)@.global_rejects >= old(self)@.global_rejects,
            persisted.len() == 0 ==> r is Ok && *final(self) == *old(self),
            match r {
                Ok(_) => true,
                Err(TestError::Abort(why)) => strategy.may_decline() || {
                    &&& why@ == "Too many global rejects"@
                    &&& final(self)@.global_rejects == final(self)@.config.max_global_rejects
                    &&& !never_rejects(*f)
                },
                Err(TestError::Fail(why, v)) => {
                    &&& call_ensures(*f, (&v,), Err(TestCaseError::Fail(why)))
                    &&& persisted.len() > 0
                },
            },
            always_rejects(*f) ==> final(self)@.successes == old(self)@.successes,
            never_rejects(*f) ==> {
                &&& final(self)@.global_rejects == old(self)@.global_rejects
                &&& final(self)@.global_reject_detail == old(self)@.global_reject_detail
            },
            always_passes(*f) && !strategy.may_decline() ==> {
                &&& r is Ok
                &&& final(self)@.successes == old(self)@.successes + persisted.len()
            },
            strategy.deterministic() ==> forall|verdict: spec_fn(ValueFor<S>) -> Verdict| #[trigger]
                agrees(*f, verdict) ==> (ended(r), final(self)@) == replayed(
                    *strategy,
                    verdict,
                    words_of(persisted@),
                    old(self)@,
                ),
    {
        let ghost seeds = words_of(persisted@);
        assert(seeds.skip(0) =~= seeds);
        let mut i: usize = 0;
        while i < persisted.len()
            invariant
                self.wf(),
                i <= persisted.len(),
                forall|v: ValueFor<S>| call_requires(*f, (&v,)),
                forall|k: int| 0 <= k < persisted.len() ==> usable_seed(#[trigger] persisted[k]@),
                old(self)@.successes + persisted.len() <= u32::MAX,
                self@.successes <= old(self)@.successes + i,
                self@.config == old(self)@.config,
                self@.source_file == old(self)@.source_file,
                self.regens() == old(self).regens(),
                self@.successes >= old(self)@.successes,
                self@.global_rejects >= old(self)@.global_rejects,
                i == 0 ==> *self == *old(self),
                always_rejects(*f) ==> self@.successes == old(self)@.successes,
                never_rejects(*f) ==> {
                    &&& self@.global_rejects == old(self)@.global_rejects
                    &&& self@.global_reject_detail == old(self)@.global_reject_detail
                },
                always_passes(*f) && !strategy.may_decline() ==> self@.successes == old(
                    self,
                )@.successes + i,
                seeds == words_of(persisted@),
                strategy.deterministic() ==> forall|verdict: spec_fn(ValueFor<S>) -> Verdict| #[trigger]
                    agrees(*f, verdict) ==> replayed(*strategy, verdict, seeds, old(self)@)
                        == replayed(*strategy, verdict, seeds.skip(i as int), self@),
            decreases persisted.len() - i,
        {
            proof {
                let rest = seeds.skip(i as int);
                assert(rest[0] == persisted[i as int]@);
                assert(rest.skip(1) =~= seeds.skip(i + 1));
            }
            self.reseed(persisted[i]);
            match self.gen_and_run_case(strategy, f) {
                Ok(_) => {},
                Err(e) => {
                    return Err(e);
                },
            }
            i += 1;
        }
        Ok(())
    }

    /// Generates new cases and runs them, each from a seed of its own that
    /// is drawn from the generator, until as many cases have passed as the
    /// configuration asks for, or one does not end well.
    ///
    /// A case that fails ends the test with its minimal failing input, and
    /// with the record under which the case is to be persisted. A rejection
    /// budget that is used up, or a strategy that declines, ends the test as
    /// aborted. Where enough cases have passed already, nothing is run.
    pub fn generate<S: Strategy, F: Fn(&ValueFor<S>) -> TestCaseResult>(
        &mut self,
        strategy: &S,
        f: &F,
    ) -> (out: RunOutcome<ValueFor<S>>)
        requires
            old(self).wf(),
            forall|v: ValueFor<S>| call_requires(*f, (&v,)),
        ensures
            final(self).wf(),
            final(self)@.config == old(self)@.config,
            final(self)@.source_file == old(self)@.source_file,
            final(self).regens() == old(self).regens(),
            old(self)@.successes <= final(self)@.successes <= at_least(
                old(self)@.successes as int,
                old(self)@.config.cases as int,
            ),
            final(self)@.global_rejects >= old(self)@.global_rejects,
            old(self)@.successes >= old(self)@.config.cases ==> {
                &&& out.result is Ok
                &&& *final(self) == *old(self)
            },
            out.record is Some <==> out.result is Err && out.result->Err_0 is Fail,
            match out.result {
                Ok(_) => final(self)@.successes >= final(self)@.config.cases,
                Err(TestError::Abort(why)) => strategy.may_decline() || {
                    &&& why@ == "Too many global rejects"@
                    &&& final(self)@.global_rejects == final(self)@.config.max_global_rejects
                    &&& !never_rejects(*f)
                },
                Err(TestError::Fail(why, v)) => call_ensures(
                    *f,
                    (&v,),
                    Err(TestCaseError::Fail(why)),
                ),
            },
            always_rejects(*f) && old(self)@.successes < old(self)@.config.cases ==> {
                &&& out.result is Err
                &&& out.result->Err_0 is Abort
                &&& final(self)@.successes == old(self)@.successes
            },
            never_rejects(*f) ==> {
                &&& final(self)@.global_rejects == old(self)@.global_rejects
                &&& final(self)@.global_reject_detail == old(self)@.global_reject_detail
            },
            always_passes(*f) && !strategy.may_decline() ==> out.result is Ok,
            strategy.deterministic() ==> forall|verdict: spec_fn(ValueFor<S>) -> Verdict| #[trigger]
                agrees(*f, verdict) ==> (ended(out.result), seed_of(out.record), final(self)@)
                    == generated(*strategy, verdict, old(self)@),
    {
        while self.successes < self.config.cases
            invariant
                strategy.deterministic() ==> forall|verdict: spec_fn(ValueFor<S>) -> Verdict| #[trigger]
                    agrees(*f, verdict) ==> generated(*strategy, verdict, old(self)@)
                        == generated(*strategy, verdict, self@),
                self.wf(),
                forall|v: ValueFor<S>| call_requires(*f, (&v,)),
                self@.config == old(self)@.config,
                self@.source_file == old(self)@.source_file,
                self.regens() == old(self).regens(),
                old(self)@.successes <= self@.successes <= at_least(
                    old(self)@.successes as int,
                    old(self)@.config.cases as int,
                ),
                self@.global_rejects >= old(self)@.global_rejects,
                old(self)@.successes >= old(self)@.config.cases ==> *self == *old(self),
                always_rejects(*f) ==> self@.successes == old(self)@.successes,
                never_rejects(*f) ==> {
                    &&& self@.global_rejects == old(self)@.global_rejects
                    &&& self@.global_reject_detail == old(self)@.global_reject_detail
                },
            decreases
                    (self@.config.cases - self@.successes) + (self@.config.max_global_rejects
                        - self@.global_rejects),
        {
            let seed = self.next_seed();
            match self.gen_and_run_case(strategy, f) {
                Ok(_) => {},
                Err(TestError::Fail(why, value)) => {
                    let rendered = debug_text(&value);
                    return RunOutcome {
                        result: Err(TestError::Fail(why, value)),
                        record: Some(FailureRecord { seed, rendered }),
                    };
                },
                Err(e) => {
                    return RunOutcome { result: Err(e), record: None };
                },
            }
        }
        RunOutcome { result: Ok(()), record: None }
    }

    /// Run test cases against `f`, choosing inputs via `strategy`.
    ///
    /// The cases of the seeds in `persisted` are replayed first, as `replay`
    /// does. Where they all end well, the generator is put back to where it
    /// stood, and new cases are generated and run as `generate` does, until
    /// `cases` of them have passed.
    ///
    /// The first case that fails ends the test: the search looks for a
    /// minimal failing input, and that is reported. Where the case was newly
    /// generated, the outcome also holds the record under which it is to be
    /// persisted. A rejection budget that is used up, or a strategy that
    /// declines, ends the test as aborted.
    ///
    /// A runner that has nothing to replay and has seen enough cases pass
    /// ends well at once and is left as it was. A predicate that rejects no
    /// input leaves the count of global rejections as it was, and with a
    /// strategy that never declines it cannot end the test as aborted. A
    /// predicate that rejects every input ends the test as aborted for too
    /// many global rejects, whatever `cases` asks for, as long as it asks for
    /// more than have passed: the budget is then used up, and the predicate
    /// was called once more.
    ///
    /// A panic of `f` is not caught here: a predicate that may panic is to be
    /// wrapped so that it returns `TestCaseError::from_panic` instead.
    pub fn run<S: Strategy, F: Fn(&ValueFor<S>) -> TestCaseResult>(
        &mut self,
        strategy: &S,
        f: F,
        persisted: &Vec<Seed>,
    ) -> (out: RunOutcome<ValueFor<S>>)
        requires
            old(self).wf(),
            forall|v: ValueFor<S>| call_requires(f, (&v,)),
            forall|i: int| 0 <= i < persisted.len() ==> usable_seed(#[trigger] persisted[i]@),
            old(self)@.successes + persisted.len() <= u32::MAX,
        ensures
            final(self).wf(),
            final(self)@.config == old(self)@.config,
            final(self)@.source_file == old(self)@.source_file,
            final(self).regens() == old(self).regens(),
            old(self)@.successes <= final(self)@.successes <= at_least(
                old(self)@.successes + persisted.len(),
                old(self)@.config.cases as int,
            ),
            final(self)@.global_rejects >= old(self)@.global_rejects,
            persisted.len() == 0 && old(self)@.successes >= old(self)@.config.cases ==> {
                &&& out.result is Ok
                &&& out.record is None
                &&& final(self)@ == old(self)@
            },
            out.record is Some ==> out.result is Err && out.result->Err_0 is Fail,
            match out.result {
                Ok(_) => final(self)@.successes >= final(self)@.config.cases,
                Err(TestError::Abort(why)) => strategy.may_decline() || {
                    &&& why@ == "Too many global rejects"@
                    &&& final(self)@.global_rejects == final(self)@.config.max_global_rejects
                    &&& !never_rejects(f)
                },
                Err(TestError::Fail(why, v)) => {
                    &&& call_ensures(f, (&v,), Err(TestCaseError::Fail(why)))
                    &&& out.record is None ==> persisted.len() > 0
                },
            },
            always_rejects(f) && old(self)@.successes < old(self)@.config.cases ==> {
                &&& out.result is Err
                &&& out.result->Err_0 is Abort
                &&& final(self)@.successes == old(self)@.successes
            },
            never_rejects(f) ==> {
                &&& final(self)@.global_rejects == old(self)@.global_rejects
                &&& final(self)@.global_reject_detail == old(self)@.global_reject_detail
            },
            always_passes(f) && !strategy.may_decline() ==> {
                &&& out.result is Ok
                &&& out.record is None
                &&& final(self)@.successes == at_least(
                    old(self)@.successes + persisted.len(),
                    old(self)@.config.cases as int,
                )
            },
            strategy.deterministic() ==> forall|verdict: spec_fn(ValueFor<S>) -> Verdict| #[trigger]
                agrees(f, verdict) ==> (ended(out.result), seed_of(out.record), final(self)@)
                    == run_model(*strategy, verdict, words_of(persisted@), old(self)@),
    {
        let old_rng = self.rng.clone();
        match self.replay(strategy, &f, persisted) {
            Ok(_) => {},
            Err(e) => {
                return RunOutcome { result: Err(e), record: None };
            },
        }
        self.rng = old_rng;
        self.generate(strategy, &f)
    }
}

} // verus!
