//! The rules by which workers claim the slots of a search: when a worker may
//! try, what it asks of the shared counter, and what a try is worth.

use vstd::prelude::*;

verus! {

/// Whether an attempt is still worth making when the counter was seen at
/// `observed`: only while the target has not been reached.
pub fn should_attempt(observed: usize, target: usize) -> (go: bool)
    ensures
        go == (observed < target),
{
    observed < target
}

/// The value that a worker asks the counter to take, having seen it at
/// `observed`: one more, and nothing once the target is reached.
pub open spec fn requested_value(observed: int, target: int) -> Option<int> {
    if observed < target {
        Some(observed + 1)
    } else {
        None
    }
}

/// The value to swap into the counter, having seen it at `observed`; `None`
/// where the target is reached and no swap is to be tried.
pub fn claim_request(observed: usize, target: usize) -> (r: Option<usize>)
    ensures
        match r {
            Some(desired) => requested_value(observed as int, target as int) == Some(
                desired as int,
            ),
            None => requested_value(observed as int, target as int) is None,
        },
{
    if observed < target {
        Some(observed + 1)
    } else {
        None
    }
}

/// What a swap is worth: the ordinal `desired` where the swap landed, nothing
/// where it did not. A lost swap is not tried again.
pub fn claim_outcome(desired: usize, swap: Result<usize, usize>) -> (r: Option<usize>)
    ensures
        r == if swap is Ok {
            Some(desired)
        } else {
            None
        },
{
    match swap {
        Ok(_) => Some(desired),
        Err(_) => None,
    }
}

/// One try at a slot, as the counter sees it: the value that the worker had
/// read before, and whether its swap fails although the counter still holds
/// that value, as a weak compare-and-swap may.
pub struct ClaimAttempt {
    pub observed: nat,
    pub fails_spuriously: bool,
}

/// The counter, and the ordinals handed out so far in the order of the swaps
/// that won them.
pub struct ClaimState {
    pub counter: nat,
    pub emitted: Seq<nat>,
}

/// The state before any try.
pub open spec fn initial_claims() -> ClaimState {
    ClaimState { counter: 0, emitted: Seq::empty() }
}

/// Whether the swap of `attempt` lands on a counter that holds `counter`.
pub open spec fn swap_lands(counter: nat, attempt: ClaimAttempt) -> bool {
    counter == attempt.observed && !attempt.fails_spuriously
}

/// The state after one try. The worker asks for a swap only below the target;
/// the swap lands only on the value that the worker had read; a swap that
/// lands raises the counter by one and hands out the new value as ordinal.
pub open spec fn claim_step(state: ClaimState, target: nat, attempt: ClaimAttempt) -> ClaimState {
    match requested_value(attempt.observed as int, target as int) {
        Some(desired) => if swap_lands(state.counter, attempt) {
            ClaimState { counter: desired as nat, emitted: state.emitted.push(desired as nat) }
        } else {
            state
        },
        None => state,
    }
}

/// The state after the tries `attempts`, taken in the order in which their
/// swaps reach the counter.
pub open spec fn run_claims(target: nat, attempts: Seq<ClaimAttempt>) -> ClaimState
    decreases attempts.len(),
{
    if attempts.len() == 0 {
        initial_claims()
    } else {
        claim_step(run_claims(target, attempts.drop_last()), target, attempts.last())
    }
}

/// The number of tries among `attempts` whose swap landed.
pub open spec fn swaps_won(target: nat, attempts: Seq<ClaimAttempt>) -> nat
    decreases attempts.len(),
{
    if attempts.len() == 0 {
        0
    } else {
        let before = run_claims(target, attempts.drop_last());
        let won: nat = if requested_value(attempts.last().observed as int, target as int) is Some
            && swap_lands(before.counter, attempts.last()) {
            1
        } else {
            0
        };
        swaps_won(target, attempts.drop_last()) + won
    }
}

/// Whatever the workers read and in whatever order their swaps arrive, the
/// counter never passes the target, one ordinal is handed out for each swap
/// that landed and none without one, and the ordinals are 1, 2, 3 and so on
/// up to the counter, each once.
pub proof fn lemma_claims_bounded(target: nat, attempts: Seq<ClaimAttempt>)
    ensures
        run_claims(target, attempts).counter <= target,
        run_claims(target, attempts).emitted.len() == run_claims(target, attempts).counter,
        run_claims(target, attempts).emitted.len() == swaps_won(target, attempts),
        forall|i: int|
            0 <= i < run_claims(target, attempts).emitted.len() ==> #[trigger] run_claims(
                target,
                attempts,
            ).emitted[i] == i + 1,
    decreases attempts.len(),
{
    if attempts.len() > 0 {
        lemma_claims_bounded(target, attempts.drop_last());
    }
}

/// Once the counter has reached the target, no further try changes anything.
pub proof fn lemma_full_counter_is_final(state: ClaimState, target: nat, attempt: ClaimAttempt)
    requires
        state.counter >= target,
    ensures
        claim_step(state, target, attempt) == state,
{
}

} // verus!
