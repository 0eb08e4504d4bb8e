//! A search by one worker over candidates that are given in the order of
//! their generation: what the search does when no other worker interferes.

use crate::config::VanityConfig;
use crate::error::SearchError;
use crate::record::{key_file_path_of, MatchOutput, MatchRecord};
use crate::search::{optional_text, plan_accepts, plan_spec, PlanView, SearchPlan};
use vstd::prelude::*;

verus! {

/// What key generation gave: an address, and its key in encoded form.
#[derive(Debug, Clone)]
pub struct Candidate {
    pub address: String,
    pub encoded_key: String,
}

/// How a search over given candidates ended.
#[derive(Debug)]
pub struct SearchOutcome {
    /// The number of generation outcomes that the search took, from the first
    /// on.
    pub generated: usize,
    /// The number of rounds that the search ran.
    pub rounds: usize,
    /// The matches, in the order of their ordinals.
    pub records: Vec<MatchRecord>,
}

/// The course of a search: how many outcomes it took, and which of them it
/// claimed, in the order of the claims.
pub struct Run {
    pub generated: nat,
    pub claimed: Seq<int>,
}

/// Whether outcome `i` is a candidate that the plan accepts. An outcome of
/// `None` is a generation that failed.
pub open spec fn accepted_at(plan: PlanView, outcomes: Seq<Option<Candidate>>, i: int) -> bool {
    outcomes[i] matches Some(candidate) && plan_accepts(plan, candidate.address@)
}

/// For each outcome, whether it is a candidate that the plan accepts.
pub open spec fn accepted(plan: PlanView, outcomes: Seq<Option<Candidate>>) -> Seq<bool> {
    Seq::new(outcomes.len(), |i: int| accepted_at(plan, outcomes, i))
}

/// The course of a search for `target` matches over outcomes of which
/// `accepted` says which ones match. The search takes the outcomes in order.
/// Once it has claimed `target` of them it takes no more; until then each
/// outcome is taken, and claimed if it matches.
pub open spec fn run(accepted: Seq<bool>, target: nat) -> Run
    decreases accepted.len(),
{
    if accepted.len() == 0 {
        Run { generated: 0, claimed: Seq::empty() }
    } else {
        let before = run(accepted.drop_last(), target);
        if before.claimed.len() >= target {
            before
        } else {
            Run {
                generated: accepted.len(),
                claimed: if accepted.last() {
                    before.claimed.push(accepted.len() - 1)
                } else {
                    before.claimed
                },
            }
        }
    }
}

/// The course of a search in rounds of `batch` attempts: with rounds of no
/// attempts nothing is ever taken.
pub open spec fn run_in_rounds(accepted: Seq<bool>, target: nat, batch: nat) -> Run {
    if batch == 0 {
        Run { generated: 0, claimed: Seq::empty() }
    } else {
        run(accepted, target)
    }
}

/// Whether `rounds` rounds of `batch` attempts are what it takes to take
/// `generated` outcomes: none for none, and else all rounds but the last are
/// full and the last is not empty.
pub open spec fn rounds_cover(rounds: nat, batch: nat, generated: nat) -> bool {
    if generated == 0 {
        rounds == 0
    } else {
        rounds >= 1 && (rounds - 1) * batch < generated <= rounds * batch
    }
}

/// Whether `record` is the record of the match with ordinal `ordinal` for the
/// candidate of `outcome`: it shows the candidate's address and, with a
/// directory given, the path of its key file there, else its encoded key.
pub open spec fn is_record_of(
    record: MatchRecord,
    ordinal: int,
    outcome: Option<Candidate>,
    destination: Option<String>,
) -> bool {
    &&& outcome matches Some(candidate)
    &&& record.ordinal == ordinal
    &&& record.address@ == candidate.address@
    &&& match destination {
        Some(directory) => record.output matches MatchOutput::KeyFile { path } && path@
            == key_file_path_of(directory@, candidate.address@),
        None => record.output matches MatchOutput::EncodedKey { encoded } && encoded@
            == candidate.encoded_key@,
    }
}

/// Whether `records` are the records of the claimed outcomes, in their order
/// and with the ordinals counted from one.
pub open spec fn are_records_of(
    records: Seq<MatchRecord>,
    claimed: Seq<int>,
    outcomes: Seq<Option<Candidate>>,
    destination: Option<String>,
) -> bool {
    &&& records.len() == claimed.len()
    &&& forall|i: int|
        0 <= i < claimed.len() ==> 0 <= #[trigger] claimed[i] < outcomes.len() && is_record_of(
            records[i],
            i + 1,
            outcomes[claimed[i]],
            destination,
        )
}

/// Whether `outcome` is how the search of `plan` for `target` matches, in
/// rounds of `batch` attempts, ends on `outcomes`.
pub open spec fn is_outcome_of(
    outcome: SearchOutcome,
    plan: PlanView,
    target: usize,
    batch: usize,
    destination: Option<String>,
    outcomes: Seq<Option<Candidate>>,
) -> bool {
    let course = run_in_rounds(accepted(plan, outcomes), target as nat, batch as nat);
    &&& outcome.generated == course.generated
    &&& rounds_cover(outcome.rounds as nat, batch as nat, outcome.generated as nat)
    &&& are_records_of(outcome.records@, course.claimed, outcomes, destination)
}

/// A search takes no more outcomes than there are, claims no more than its
/// target, and while it is short of its target it has taken them all.
pub proof fn lemma_run_bounds(accepted: Seq<bool>, target: nat)
    ensures
        run(accepted, target).generated <= accepted.len(),
        run(accepted, target).claimed.len() <= target,
        run(accepted, target).claimed.len() < target ==> run(accepted, target).generated
            == accepted.len(),
        forall|i: int|
            0 <= i < run(accepted, target).claimed.len() ==> 0 <= #[trigger] run(
                accepted,
                target,
            ).claimed[i] < run(accepted, target).generated,
    decreases accepted.len(),
{
    if accepted.len() > 0 {
        lemma_run_bounds(accepted.drop_last(), target);
    }
}

/// Once a search has reached its target on the first `taken` outcomes, what
/// follows them changes nothing.
pub proof fn lemma_run_ends_at_target(accepted: Seq<bool>, target: nat, taken: int)
    requires
        0 <= taken <= accepted.len(),
        run(accepted.take(taken), target).claimed.len() >= target,
    ensures
        run(accepted, target) == run(accepted.take(taken), target),
    decreases accepted.len(),
{
    if taken < accepted.len() {
        assert(accepted.drop_last().take(taken) =~= accepted.take(taken));
        lemma_run_ends_at_target(accepted.drop_last(), target, taken);
    } else {
        assert(accepted.take(taken) =~= accepted);
    }
}

/// A search takes every outcome up to its first match.
pub proof fn lemma_run_without_match(accepted: Seq<bool>, target: nat)
    requires
        target >= 1,
        forall|i: int| 0 <= i < accepted.len() ==> !accepted[i],
    ensures
        run(accepted, target) == (Run { generated: accepted.len(), claimed: Seq::empty() }),
    decreases accepted.len(),
{
    if accepted.len() > 0 {
        lemma_run_without_match(accepted.drop_last(), target);
    }
}

/// A search for one match takes the outcomes up to the first that matches, and
/// no more: it claims that one, and what follows it is never generated.
pub proof fn lemma_first_match_ends_search(accepted: Seq<bool>, first: int)
    requires
        0 <= first < accepted.len(),
        accepted[first],
        forall|i: int| 0 <= i < first ==> !accepted[i],
    ensures
        run(accepted, 1) == (Run { generated: (first + 1) as nat, claimed: seq![first] }),
{
    let upto = accepted.take(first + 1);
    assert(upto.drop_last() =~= accepted.take(first));
    lemma_run_without_match(accepted.take(first), 1);
    assert(run(upto, 1).claimed =~= seq![first]);
    lemma_run_ends_at_target(accepted, 1, first + 1);
}

/// Where the first `count` outcomes all match, the search has claimed the
/// first `count` of them, or its target if that is less, in their order.
pub proof fn lemma_run_of_matches(accepted: Seq<bool>, target: nat, count: nat)
    requires
        count <= target,
        count <= accepted.len(),
        forall|i: int| 0 <= i < count ==> accepted[i],
    ensures
        run(accepted.take(count as int), target) == (Run {
            generated: count,
            claimed: Seq::new(count, |i: int| i),
        }),
    decreases count,
{
    let upto = accepted.take(count as int);
    if count > 0 {
        let shorter = accepted.take(count - 1);
        assert(upto.drop_last() =~= shorter);
        assert(upto.last() == accepted[count - 1]);
        lemma_run_of_matches(accepted, target, (count - 1) as nat);
        let before = run(shorter, target);
        assert(before.claimed.len() == count - 1);
        assert(run(upto, target).generated == count);
        assert(run(upto, target).claimed == before.claimed.push(count - 1));
        assert(before.claimed.push(count - 1) =~= Seq::new(count, |i: int| i));
    } else {
        assert(run(upto, target).claimed =~= Seq::new(count, |i: int| i));
    }
}

/// Where as many outcomes as the target asks for match from the first on, the
/// search takes exactly those, and hands out the ordinals one to `target` in
/// their order, each once and none beyond.
pub proof fn lemma_matches_from_the_start(accepted: Seq<bool>, target: nat)
    requires
        target <= accepted.len(),
        forall|i: int| 0 <= i < target ==> accepted[i],
    ensures
        run(accepted, target) == (Run { generated: target, claimed: Seq::new(target, |i: int| i) }),
{
    lemma_run_of_matches(accepted, target, target);
    lemma_run_ends_at_target(accepted, target, target as int);
}

/// Outcomes that fit into one round take one round.
pub proof fn lemma_one_round(rounds: nat, batch: nat, generated: nat)
    requires
        rounds_cover(rounds, batch, generated),
        1 <= generated <= batch,
    ensures
        rounds == 1,
{
    if rounds >= 2 {
        assert((rounds - 1) * batch >= batch) by (nonlinear_arith)
            requires
                rounds >= 2,
                batch >= 0,
        ;
    }
}

/// In rounds of one attempt, every outcome taken is a round.
pub proof fn lemma_rounds_of_one(rounds: nat, generated: nat)
    requires
        rounds_cover(rounds, 1, generated),
    ensures
        rounds == generated,
{
}

/// A search for one match, whose first matching outcome falls into the first
/// round, takes the outcomes up to that one and no more, runs that one round
/// and no second, and hands out one record: ordinal one, for that candidate.
pub proof fn lemma_search_ends_at_first_match(
    outcome: SearchOutcome,
    plan: PlanView,
    batch: usize,
    destination: Option<String>,
    outcomes: Seq<Option<Candidate>>,
    first: int,
)
    requires
        is_outcome_of(outcome, plan, 1, batch, destination, outcomes),
        0 <= first < outcomes.len(),
        first < batch,
        accepted_at(plan, outcomes, first),
        forall|i: int| 0 <= i < first ==> !accepted_at(plan, outcomes, i),
    ensures
        outcome.generated == first + 1,
        outcome.rounds == 1,
        outcome.records@.len() == 1,
        is_record_of(outcome.records@[0], 1, outcomes[first], destination),
{
    let flags = accepted(plan, outcomes);
    lemma_first_match_ends_search(flags, first);
    let course = run(flags, 1);
    assert(course.claimed[0] == first);
    lemma_one_round(outcome.rounds as nat, batch as nat, outcome.generated as nat);
}

/// Where as many outcomes as the target asks for match from the first on, the
/// search takes exactly those and hands out one record for each, with the
/// ordinals one to `target` in the order of the candidates: never fewer, and
/// never one more. In rounds of one attempt it runs as many rounds.
pub proof fn lemma_search_claims_matches_in_order(
    outcome: SearchOutcome,
    plan: PlanView,
    target: usize,
    batch: usize,
    destination: Option<String>,
    outcomes: Seq<Option<Candidate>>,
)
    requires
        is_outcome_of(outcome, plan, target, batch, destination, outcomes),
        batch >= 1,
        target <= outcomes.len(),
        forall|i: int| 0 <= i < target ==> accepted_at(plan, outcomes, i),
    ensures
        outcome.generated == target,
        outcome.records@.len() == target,
        forall|i: int|
            0 <= i < target ==> is_record_of(
                #[trigger] outcome.records@[i],
                i + 1,
                outcomes[i],
                destination,
            ),
        batch == 1 ==> outcome.rounds == target,
{
    let flags = accepted(plan, outcomes);
    lemma_matches_from_the_start(flags, target as nat);
    let course = run(flags, target as nat);
    assert forall|i: int| 0 <= i < target implies is_record_of(
        #[trigger] outcome.records@[i],
        i + 1,
        outcomes[i],
        destination,
    ) by {
        assert(course.claimed[i] == i);
    }
    if batch == 1 {
        lemma_rounds_of_one(outcome.rounds as nat, outcome.generated as nat);
    }
}

/// Runs the search of `plan` for `target` matches over the given generation
/// outcomes, by one worker and in rounds of `batch` attempts. An attempt takes
/// the next outcome, unless the target is reached; an outcome of `None` is a
/// generation that failed, and is dropped. A candidate that the plan accepts
/// is claimed, with the ordinals counted from one. The search ends after the
/// round in which the target is reached, or when the outcomes run out.
pub fn search_candidates(
    plan: &SearchPlan,
    target: usize,
    batch: usize,
    destination: &Option<String>,
    outcomes: &Vec<Option<Candidate>>,
) -> (outcome: SearchOutcome)
    ensures
        is_outcome_of(outcome, plan@, target, batch, *destination, outcomes@),
{
    let n = outcomes.len();
    let ghost flags = accepted(plan@, outcomes@);
    let ghost mut claimed: Seq<int> = Seq::empty();
    let mut records: Vec<MatchRecord> = Vec::new();
    let mut generated: usize = 0;
    let mut rounds: usize = 0;
    assert(flags.take(0).len() == 0);
    while batch > 0 && records.len() < target && generated < n
        invariant
            n == outcomes.len(),
            flags == accepted(plan@, outcomes@),
            generated <= n,
            rounds <= generated,
            run(flags.take(generated as int), target as nat) == (Run {
                generated: generated as nat,
                claimed,
            }),
            records@.len() <= target,
            are_records_of(records@, claimed, outcomes@, *destination),
            rounds_cover(rounds as nat, batch as nat, generated as nat),
            (records.len() < target && generated < n) ==> generated == rounds * batch,
        decreases n - generated,
    {
        let ghost start = generated;
        let mut attempt: usize = 0;
        while attempt < batch && records.len() < target && generated < n
            invariant
                n == outcomes.len(),
                flags == accepted(plan@, outcomes@),
                generated <= n,
                attempt <= batch,
                generated == start + attempt,
                run(flags.take(generated as int), target as nat) == (Run {
                    generated: generated as nat,
                    claimed,
                }),
                records@.len() <= target,
                are_records_of(records@, claimed, outcomes@, *destination),
            decreases batch - attempt,
        {
            proof {
                let next = flags.take(generated + 1);
                assert(next.drop_last() =~= flags.take(generated as int));
                assert(next.last() == accepted_at(plan@, outcomes@, generated as int));
            }
            match &outcomes[generated] {
                Some(candidate) => {
                    if plan.accepts(candidate.address.as_str()) {
                        let ordinal = records.len() + 1;
                        let record = match destination {
                            Some(directory) => MatchRecord::persisted(
                                ordinal,
                                candidate.address.as_str(),
                                directory.as_str(),
                            ),
                            None => MatchRecord::printed(
                                ordinal,
                                candidate.address.as_str(),
                                candidate.encoded_key.clone(),
                            ),
                        };
                        let ghost before = records@;
                        let ghost claimed_before = claimed;
                        records.push(record);
                        proof {
                            claimed = claimed.push(generated as int);
                            assert forall|i: int| 0 <= i < claimed.len() implies 0
                                <= #[trigger] claimed[i] < outcomes@.len() && is_record_of(
                                records@[i],
                                i + 1,
                                outcomes@[claimed[i]],
                                *destination,
                            ) by {
                                if i < claimed_before.len() {
                                    assert(claimed[i] == claimed_before[i]);
                                    assert(records@[i] == before[i]);
                                }
                            }
                        }
                    }
                },
                None => {},
            }
            generated = generated + 1;
            attempt = attempt + 1;
        }
        proof {
            assert(start + batch == (rounds + 1) * batch) by (nonlinear_arith)
                requires
                    start == rounds * batch,
            ;
            assert(rounds * batch == ((rounds + 1) - 1) * batch);
        }
        rounds = rounds + 1;
    }
    proof {
        lemma_run_bounds(flags.take(generated as int), target as nat);
        if batch > 0 {
            if generated < n {
                lemma_run_ends_at_target(flags, target as nat, generated as int);
            } else {
                assert(flags.take(generated as int) =~= flags);
            }
        }
    }
    SearchOutcome { generated, rounds, records }
}

/// Reads the patterns of `config` and runs its search over the given
/// generation outcomes, by one worker. An unreadable pattern ends the search
/// before any outcome is taken.
pub fn generate_vanity_addresses_from(
    config: &VanityConfig,
    outcomes: &Vec<Option<Candidate>>,
) -> (r: Result<SearchOutcome, SearchError>)
    ensures
        match plan_spec(optional_text(config.starts_with), optional_text(config.ends_with)) {
            Ok(plan) => r matches Ok(outcome) && is_outcome_of(
                outcome,
                plan,
                config.max_addresses,
                config.addresses_per_round,
                config.save_path,
                outcomes@,
            ),
            Err(e) => r matches Err(f) && f == e,
        },
{
    match SearchPlan::prepare(config) {
        Ok(plan) => Ok(
            search_candidates(
                &plan,
                config.max_addresses,
                config.addresses_per_round,
                &config.save_path,
                outcomes,
            ),
        ),
        Err(e) => Err(e),
    }
}

} // verus!
