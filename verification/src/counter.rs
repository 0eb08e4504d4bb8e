//! The counter of claimed slots that the workers of a search share.

use crate::claim::{claim_outcome, claim_request, should_attempt};
use std::sync::atomic::{AtomicUsize, Ordering};
use vstd::prelude::*;

verus! {

/// The number of matches claimed so far, shared by all workers of a search. It
/// only ever changes by a swap that [`MatchCounter::try_claim`] makes.
#[derive(Debug)]
pub struct MatchCounter {
    claimed: AtomicUsize,
}

impl MatchCounter {
    /// A counter that starts at zero.
    pub fn new() -> MatchCounter {
        MatchCounter { claimed: AtomicUsize::new(0) }
    }

    /// The value of the counter at some moment of the call. Other workers may
    /// have changed it by the time the caller looks at the result.
    pub fn current(&self) -> usize {
        self.claimed.load(Ordering::Relaxed)
    }

    /// Whether the counter, read now, leaves room below `target` for another
    /// attempt. Below a target of zero there is never room.
    pub fn has_room(&self, target: usize) -> (room: bool)
        ensures
            target == 0 ==> !room,
    {
        should_attempt(self.current(), target)
    }

    /// Tries once to claim the next slot below `target`, and returns its ordinal.
    pub fn try_claim(&self, target: usize) -> (r: Option<usize>)
        ensures
            r matches Some(ordinal) ==> 1 <= ordinal <= target,
    {
        // The counter is read and, if it is below the target, the next value is
        // swapped in, provided that no other worker got there first. A lost
        // swap is not repeated.
        let observed = self.current();
        match claim_request(observed, target) {
            Some(desired) => {
                let swap = self.claimed.compare_exchange_weak(
                    observed,
                    desired,
                    Ordering::Relaxed,
                    Ordering::Relaxed,
                );
                claim_outcome(desired, swap)
            },
            None => None,
        }
    }
}

} // verus!
