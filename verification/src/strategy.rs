//! What the engine asks of the value-generation side: a tree over one
//! generated candidate that can be narrowed and widened again.

use vstd::prelude::*;
use std::fmt::Debug;
use crate::runner::{RunnerState, TestRunner};

verus! {

/// What stands for the `which`-th operation of an implementation that does
/// not state what the operation does: some function of the state, of which
/// nothing is known.
pub open spec fn unstated<T, U>(which: int, state: T) -> U {
    arbitrary::<spec_fn(int, T) -> U>()(which, state)
}

/// A stateful handle over one generated candidate.
///
/// The engine drives a tree through three operations only: it reads the
/// current candidate, narrows the tree toward a simpler candidate, and widens
/// it again when a narrowing step went too far. An implementation describes
/// each operation by a spec function, so that what a search over the tree
/// returns can be stated, and bounds the number of moves that it can still
/// make, so that every search ends.
///
/// An implementation that states none of this leaves the spec functions as
/// they are given here: each operation is then some function of the state
/// of the tree, of which nothing is known.
pub trait ValueTree: Sized {
    /// The type of the candidates.
    type Value: Debug;

    /// What the implementation needs to hold of a tree between operations.
    open spec fn inv(&self) -> bool {
        true
    }

    /// The candidate that the tree points at.
    open spec fn value(&self) -> Self::Value {
        unstated(0, *self)
    }

    /// Whether `simplify` makes progress from this state.
    open spec fn can_simplify(&self) -> bool {
        unstated(1, *self)
    }

    /// The state that `simplify` leaves.
    open spec fn simplified(&self) -> Self {
        unstated(2, *self)
    }

    /// Whether `complicate` makes progress from this state.
    open spec fn can_complicate(&self) -> bool {
        unstated(3, *self)
    }

    /// The state that `complicate` leaves.
    open spec fn complicated(&self) -> Self {
        unstated(4, *self)
    }

    /// A bound on the number of moves that can still make progress.
    open spec fn moves_left(&self) -> nat {
        unstated(5, *self)
    }

    /// The current candidate.
    fn current(&self) -> (v: Self::Value)
        requires
            self.inv(),
        ensures
            v == self.value(),
    ;

    /// Narrows the tree toward a simpler candidate; `false` where no simpler
    /// candidate is left.
    fn simplify(&mut self) -> (moved: bool)
        requires
            old(self).inv(),
        ensures
            moved == old(self).can_simplify(),
            *final(self) == old(self).simplified(),
            final(self).inv(),
            moved ==> final(self).moves_left() < old(self).moves_left(),
    ;

    /// Widens the tree back toward a more complex candidate, after a
    /// narrowing step that turned out to go too far; `false` where nothing
    /// is left to widen.
    fn complicate(&mut self) -> (moved: bool)
        requires
            old(self).inv(),
        ensures
            moved == old(self).can_complicate(),
            *final(self) == old(self).complicated(),
            final(self).inv(),
            moved ==> final(self).moves_left() < old(self).moves_left(),
    ;
}

/// A policy of value generation: it produces value trees from the random
/// stream of a runner.
pub trait Strategy {
    /// The type of the trees that the strategy produces.
    type Value: ValueTree;

    /// Whether the strategy may decline to produce a tree. A strategy that
    /// never declines says so by answering `false`.
    open spec fn may_decline(&self) -> bool {
        true
    }

    /// Whether what the strategy produces is fixed by the state of the
    /// runner that it is given. A strategy that counts regenerations is not
    /// of this kind: that count is shared with other runners.
    open spec fn deterministic(&self) -> bool {
        false
    }

    /// For a deterministic strategy: the tree that it produces for a runner
    /// in the state `before`, or the reason for which it declines, and the
    /// state in which it leaves the runner.
    open spec fn produced(&self, before: RunnerState) -> (
        Result<Self::Value, Seq<char>>,
        RunnerState,
    ) {
        arbitrary()
    }

    /// Produces a tree from the random stream of `runner`, or declines with
    /// the reason for which the whole test is to be aborted.
    ///
    /// The strategy may draw from the runner's generator and count local
    /// rejections and regenerations. It leaves the rest of the runner as it
    /// found it.
    fn new_value(&self, runner: &mut TestRunner) -> (tree: Result<Self::Value, String>)
        requires
            old(runner).wf(),
        ensures
            final(runner).wf(),
            final(runner).continues(*old(runner)),
            tree is Ok ==> tree->Ok_0.inv(),
            !self.may_decline() ==> tree is Ok,
            self.deterministic() ==> (match tree {
                Ok(t) => Ok(t),
                Err(msg) => Err(msg@),
            }, final(runner)@) == self.produced(old(runner)@),
    ;
}

/// The type of the candidates of the trees that a strategy produces.
pub type ValueFor<S> = <<S as Strategy>::Value as ValueTree>::Value;

} // verus!
