//! A strategy for unsigned 32-bit numbers in a range, whose trees shrink by
//! binary search.

use vstd::prelude::*;
use vstd::string::*;
use crate::rng::{draw_in_range, drawn_in_range};
use crate::runner::{RunnerState, TestRunner};
use crate::strategy::{Strategy, ValueTree};

verus! {

/// A tree over one number, which narrows toward `lo` by binary search.
///
/// The candidates still in question are those from `lo` to `hi`; `curr` is
/// the current one.
#[derive(Clone, Copy, Debug, PartialEq, Eq)]
pub struct BinarySearch {
    /// The least candidate that is still in question.
    pub lo: u32,
    /// The current candidate.
    pub curr: u32,
    /// The greatest candidate that is still in question.
    pub hi: u32,
}

impl BinarySearch {
    /// The tree that `reposition` leaves: its current candidate is the
    /// middle of what is in question.
    pub open spec fn repositioned(self) -> BinarySearch {
        BinarySearch { curr: (self.lo + (self.hi - self.lo) / 2) as u32, ..self }
    }

    /// A tree that starts at `start` and narrows toward zero.
    pub fn new(start: u32) -> (tree: Self)
        ensures
            tree == (BinarySearch { lo: 0, curr: start, hi: start }),
            tree.inv(),
    {
        BinarySearch { lo: 0, curr: start, hi: start }
    }

    /// A tree that starts at `start` and narrows toward `lo`.
    pub fn new_above(lo: u32, start: u32) -> (tree: Self)
        requires
            lo <= start,
        ensures
            tree == (BinarySearch { lo, curr: start, hi: start }),
            tree.inv(),
    {
        BinarySearch { lo, curr: start, hi: start }
    }

    /// Moves the current candidate to the middle of what is in question, and
    /// says whether that moved it.
    fn reposition(&mut self) -> (moved: bool)
        requires
            old(self).lo <= old(self).hi,
        ensures
            *final(self) == old(self).repositioned(),
            moved == (final(self).curr != old(self).curr),
    {
        let interval = self.hi - self.lo;
        let new_mid = self.lo + interval / 2;
        if new_mid == self.curr {
            false
        } else {
            self.curr = new_mid;
            true
        }
    }
}

impl ValueTree for BinarySearch {
    type Value = u32;

    open spec fn inv(&self) -> bool {
        self.lo <= self.curr <= self.hi
    }

    open spec fn value(&self) -> u32 {
        self.curr
    }

    open spec fn can_simplify(&self) -> bool {
        self.lo < self.hi && self.lo < self.curr
    }

    open spec fn simplified(&self) -> Self {
        if self.hi <= self.lo {
            *self
        } else {
            (BinarySearch { hi: self.curr, ..*self }).repositioned()
        }
    }

    open spec fn can_complicate(&self) -> bool {
        self.lo < self.hi && self.curr < self.hi
    }

    open spec fn complicated(&self) -> Self {
        if self.hi <= self.lo || self.hi <= self.curr {
            *self
        } else {
            (BinarySearch { lo: (self.curr + 1) as u32, ..*self }).repositioned()
        }
    }

    open spec fn moves_left(&self) -> nat {
        if self.lo <= self.curr <= self.hi {
            ((self.hi - self.lo) * 0x1_0000_0000 + (self.curr - self.lo)) as nat
        } else {
            0
        }
    }

    fn current(&self) -> (v: u32) {
        self.curr
    }

    fn simplify(&mut self) -> (moved: bool) {
        if self.hi <= self.lo {
            return false;
        }
        self.hi = self.curr;
        self.reposition()
    }

    fn complicate(&mut self) -> (moved: bool) {
        if self.hi <= self.lo || self.hi <= self.curr {
            return false;
        }
        self.lo = self.curr + 1;
        self.reposition()
    }
}

/// The strategy of the numbers from `low` up to, but not including, `high`.
#[derive(Clone, Copy, Debug, PartialEq, Eq)]
pub struct U32Range {
    /// The least number of the range.
    pub low: u32,
    /// The number that bounds the range from above.
    pub high: u32,
}

impl U32Range {
    /// The tree that the strategy produces from a generator in the state
    /// `words`, and the state in which it leaves the generator.
    pub open spec fn drawn(self, words: Seq<u32>) -> (BinarySearch, Seq<u32>) {
        let (start, after) = drawn_in_range(words, self.low, self.high);
        (BinarySearch { lo: self.low, curr: start, hi: start }, after)
    }
}

impl Strategy for U32Range {
    type Value = BinarySearch;

    /// Only the empty range declines.
    open spec fn may_decline(&self) -> bool {
        self.low >= self.high
    }

    /// What is produced is fixed by the state of the generator.
    open spec fn deterministic(&self) -> bool {
        true
    }

    open spec fn produced(&self, before: RunnerState) -> (
        Result<BinarySearch, Seq<char>>,
        RunnerState,
    ) {
        if self.low < self.high {
            (
                Ok(self.drawn(before.rng).0),
                RunnerState { rng: self.drawn(before.rng).1, ..before },
            )
        } else {
            (Err("empty range"@), before)
        }
    }

    /// Draws the number at which the tree starts from the generator of
    /// `runner`. Nothing else of the runner changes, and what comes back is
    /// fixed by the state of the generator before.
    fn new_value(&self, runner: &mut TestRunner) -> (tree: Result<BinarySearch, String>)
        ensures
            tree is Ok <==> self.low < self.high,
            tree is Ok ==> {
                &&& tree->Ok_0 == self.drawn(old(runner)@.rng).0
                &&& self.low <= tree->Ok_0.curr < self.high
                &&& final(runner)@ == (RunnerState {
                    rng: self.drawn(old(runner)@.rng).1,
                    ..old(runner)@
                })
            },
            tree is Err ==> *final(runner) == *old(runner) && tree->Err_0@ == "empty range"@,
    {
        if self.low >= self.high {
            return Err("empty range".to_owned());
        }
        let rng = runner.rng();
        let start = draw_in_range(rng, self.low, self.high);
        Ok(BinarySearch { lo: self.low, curr: start, hi: start })
    }
}

} // verus!
