//! The counter of regenerations, which a runner shares with the runners
//! that were cloned from it.

use vstd::prelude::*;
use std::sync::Arc;
use std::sync::atomic::{AtomicUsize, Ordering};

verus! {

/// A counter that starts at zero. What a counter holds is no part of its
/// value: every holder adds to it through a shared reference. So no
/// contract speaks of the count.
pub(crate) fn new_counter() -> (counter: Arc<AtomicUsize>) {
    Arc::new(AtomicUsize::new(0))
}

/// `Arc::clone`: another handle to the same counter.
#[verifier::external_body]
pub(crate) fn same_counter(counter: &Arc<AtomicUsize>) -> (same: Arc<AtomicUsize>)
    ensures
        same == *counter,
{
    Arc::clone(counter)
}

/// Adds one to the counter, in one step that is ordered with all other
/// accesses, and returns the count before. Other holders of the counter may
/// add to it at any time, so nothing is known of the count.
pub(crate) fn count_one(counter: &Arc<AtomicUsize>) -> (prior: usize) {
    counter.fetch_add(1, Ordering::SeqCst)
}

} // verus!
