//! The search for a locally minimal failing input.
//!
//! Once a predicate has failed on the candidate that a value tree points at,
//! the search narrows the tree while the predicate keeps failing and widens
//! it again whenever a narrower candidate passes. It reports the candidate of
//! the last failure that it saw, which need not be the one that the tree is
//! left pointing at.

use vstd::prelude::*;
use crate::outcome::{TestCaseError, TestCaseResult};
use crate::strategy::ValueTree;

verus! {

/// What a predicate says of one input, with the texts as sequences of
/// characters.
pub enum Verdict {
    /// The input passed.
    Pass,
    /// The input was judged unsuitable, at the given place.
    Reject(Seq<char>),
    /// The predicate failed on the input, for the given reason.
    Fail(Seq<char>),
}

/// The verdict that a predicate's result stands for.
pub open spec fn verdict_of(r: TestCaseResult) -> Verdict {
    match r {
        Ok(_) => Verdict::Pass,
        Err(TestCaseError::Reject(whence)) => Verdict::Reject(whence@),
        Err(TestCaseError::Fail(why)) => Verdict::Fail(why@),
    }
}

/// Whether `verdict` says for each input what `f` says of it: whatever `f`
/// returns for an input stands for the verdict of that input.
pub open spec fn agrees<T, F: Fn(&T) -> TestCaseResult>(f: F, verdict: spec_fn(T) -> Verdict) -> bool {
    forall|v: T, r: TestCaseResult| #[trigger]
        call_ensures(f, (&v,), r) ==> verdict_of(r) == verdict(v)
}

/// What the search reports from a tree that points at a candidate not yet
/// tried, where `best` with the reason `why` is the last failure seen and
/// `verdict` gives the verdict of each candidate.
pub open spec fn search<V: ValueTree>(
    tree: V,
    verdict: spec_fn(V::Value) -> Verdict,
    why: Seq<char>,
    best: V::Value,
) -> (Seq<char>, V::Value)
    decreases tree.moves_left(),
{
    match verdict(tree.value()) {
        Verdict::Fail(new_why) => {
            if tree.can_simplify() && tree.simplified().moves_left() < tree.moves_left() {
                search(tree.simplified(), verdict, new_why, tree.value())
            } else {
                (new_why, tree.value())
            }
        },
        _ => {
            if tree.can_complicate() && tree.complicated().moves_left() < tree.moves_left() {
                search(tree.complicated(), verdict, why, best)
            } else {
                (why, best)
            }
        },
    }
}

/// What the search reports for a tree whose current candidate has just
/// failed for the reason `why`.
pub open spec fn minimized<V: ValueTree>(
    tree: V,
    verdict: spec_fn(V::Value) -> Verdict,
    why: Seq<char>,
) -> (Seq<char>, V::Value) {
    if tree.can_simplify() {
        search(tree.simplified(), verdict, why, tree.value())
    } else {
        (why, tree.value())
    }
}

/// Searches for a locally minimal failing input, from a tree on whose
/// current candidate `f` has just failed for the reason `why`.
///
/// The pair that comes back is the failure that the search was given, or one
/// that `f` reported during the search; from a tree that cannot be narrowed
/// it is the failure that the search was given. It is the pair that `minimized`
/// describes, for every way of giving each input one verdict with which `f`
/// agrees.
pub fn minimize<V: ValueTree, F: Fn(&V::Value) -> TestCaseResult>(
    case: V,
    f: &F,
    why: String,
) -> (found: (String, V::Value))
    requires
        case.inv(),
        forall|v: V::Value| call_requires(*f, (&v,)),
    ensures
        found == (why, case.value()) || call_ensures(
            *f,
            (&found.1,),
            Err(TestCaseError::Fail(found.0)),
        ),
        !case.can_simplify() ==> found == (why, case.value()),
        forall|verdict: spec_fn(V::Value) -> Verdict| #[trigger]
            agrees(*f, verdict) ==> (found.0@, found.1) == minimized(case, verdict, why@),
{
    let mut case = case;
    let mut last_why = why;
    let mut last_value = case.current();
    let ghost start = case;
    if !case.simplify() {
        return (last_why, last_value);
    }
    loop
        invariant_except_break
            forall|verdict: spec_fn(V::Value) -> Verdict| #[trigger]
                agrees(*f, verdict) ==> minimized(start, verdict, why@) == search(
                    case,
                    verdict,
                    last_why@,
                    last_value,
                ),
        invariant
            case.inv(),
            forall|v: V::Value| call_requires(*f, (&v,)),
            (last_why, last_value) == (why, start.value()) || call_ensures(
                *f,
                (&last_value,),
                Err(TestCaseError::Fail(last_why)),
            ),
        ensures
            (last_why, last_value) == (why, start.value()) || call_ensures(
                *f,
                (&last_value,),
                Err(TestCaseError::Fail(last_why)),
            ),
            forall|verdict: spec_fn(V::Value) -> Verdict| #[trigger]
                agrees(*f, verdict) ==> (last_why@, last_value) == minimized(
                    start,
                    verdict,
                    why@,
                ),
        decreases case.moves_left(),
    {
        let candidate = case.current();
        let outcome = f(&candidate);
        match outcome {
            Err(TestCaseError::Fail(new_why)) => {
                last_why = new_why;
                last_value = candidate;
                if !case.simplify() {
                    break ;
                }
            },
            _ => {
                if !case.complicate() {
                    break ;
                }
            },
        }
    }
    (last_why, last_value)
}

} // verus!
