//! A search run: the patterns it looks for, the workers it uses and the
//! bookkeeping between rounds.

use crate::config::VanityConfig;
use crate::counter::MatchCounter;
use crate::error::{PatternError, SearchError};
use crate::matcher::{matches_pattern, pattern_matches, Anchor};
use crate::pattern::{parse_pattern, parse_spec, ParsedPattern, PatternView};
use vstd::prelude::*;

verus! {

/// The patterns of a search, parsed once and shared by all workers.
#[derive(Debug)]
pub struct SearchPlan {
    /// What the address must start with, if anything.
    pub prefix: Option<ParsedPattern>,
    /// What the address must end with, if anything.
    pub suffix: Option<ParsedPattern>,
}

/// What a [`SearchPlan`] stands for.
pub struct PlanView {
    pub prefix: Option<PatternView>,
    pub suffix: Option<PatternView>,
}

impl View for SearchPlan {
    type V = PlanView;

    open spec fn view(&self) -> PlanView {
        PlanView {
            prefix: match self.prefix {
                Some(p) => Some(p@),
                None => None,
            },
            suffix: match self.suffix {
                Some(p) => Some(p@),
                None => None,
            },
        }
    }
}

/// Whether the address satisfies every pattern of the plan: the prefix pattern
/// at its start and the suffix pattern at its end. A pattern that is absent is
/// satisfied by any address.
pub open spec fn plan_accepts(plan: PlanView, address: Seq<char>) -> bool {
    &&& plan.prefix matches Some(p) ==> pattern_matches(address, p, Anchor::Prefix)
    &&& plan.suffix matches Some(p) ==> pattern_matches(address, p, Anchor::Suffix)
}

/// The text of an optional string.
pub open spec fn optional_text(s: Option<String>) -> Option<Seq<char>> {
    match s {
        Some(text) => Some(text@),
        None => None,
    }
}

/// The parse of a pattern string that may be absent.
pub open spec fn parse_optional(pattern: Option<Seq<char>>) -> Result<
    Option<PatternView>,
    PatternError,
> {
    match pattern {
        Some(s) => match parse_spec(s) {
            Ok(p) => Ok(Some(p)),
            Err(e) => Err(e),
        },
        None => Ok(None),
    }
}

/// The plan for the two pattern strings of a configuration. The prefix pattern
/// is read first, so that where both are unreadable the prefix is reported.
pub open spec fn plan_spec(starts_with: Option<Seq<char>>, ends_with: Option<Seq<char>>) -> Result<
    PlanView,
    SearchError,
> {
    match parse_optional(starts_with) {
        Err(e) => Err(SearchError::Prefix(e)),
        Ok(prefix) => match parse_optional(ends_with) {
            Err(e) => Err(SearchError::Suffix(e)),
            Ok(suffix) => Ok(PlanView { prefix, suffix }),
        },
    }
}

impl SearchPlan {
    /// Parses the patterns of `config`, and says which of them is unreadable
    /// where one is.
    pub fn prepare(config: &VanityConfig) -> (r: Result<SearchPlan, SearchError>)
        ensures
            match r {
                Ok(plan) => plan_spec(
                    optional_text(config.starts_with),
                    optional_text(config.ends_with),
                ) == Ok::<PlanView, SearchError>(plan@),
                Err(e) => plan_spec(
                    optional_text(config.starts_with),
                    optional_text(config.ends_with),
                ) == Err::<PlanView, SearchError>(e),
            },
    {
        let prefix = match &config.starts_with {
            Some(text) => match parse_pattern(text.as_str()) {
                Ok(pattern) => Some(pattern),
                Err(e) => {
                    return Err(SearchError::Prefix(e));
                },
            },
            None => None,
        };
        let suffix = match &config.ends_with {
            Some(text) => match parse_pattern(text.as_str()) {
                Ok(pattern) => Some(pattern),
                Err(e) => {
                    return Err(SearchError::Suffix(e));
                },
            },
            None => None,
        };
        Ok(SearchPlan { prefix, suffix })
    }

    /// Whether `address` satisfies every pattern of the plan.
    pub fn accepts(&self, address: &str) -> (b: bool)
        ensures
            b == plan_accepts(self@, address@),
    {
        let at_start = match &self.prefix {
            Some(pattern) => matches_pattern(address, pattern, Anchor::Prefix),
            None => true,
        };
        if !at_start {
            return false;
        }
        match &self.suffix {
            Some(pattern) => matches_pattern(address, pattern, Anchor::Suffix),
            None => true,
        }
    }

    /// Tests a candidate address and, where it satisfies the plan, tries once
    /// to claim a slot for it. Returns the ordinal of the slot. A candidate
    /// that the plan rejects claims nothing, and one that loses the claim to
    /// another worker is dropped.
    pub fn claim_if_match(&self, address: &str, counter: &MatchCounter, target: usize) -> (r:
        Option<usize>)
        ensures
            r is Some ==> plan_accepts(self@, address@),
            r matches Some(ordinal) ==> 1 <= ordinal <= target,
    {
        if self.accepts(address) {
            counter.try_claim(target)
        } else {
            None
        }
    }
}

/// A candidate that satisfies only one of two patterns is rejected, and so is
/// one that satisfies neither: with both patterns given, the plan accepts an
/// address exactly when it matches the prefix pattern at its start and the
/// suffix pattern at its end.
pub proof fn lemma_both_patterns_required(
    prefix: PatternView,
    suffix: PatternView,
    address: Seq<char>,
)
    ensures
        plan_accepts(PlanView { prefix: Some(prefix), suffix: Some(suffix) }, address) <==> (
        pattern_matches(address, prefix, Anchor::Prefix) && pattern_matches(
            address,
            suffix,
            Anchor::Suffix,
        )),
{
}

/// The number of workers for a request of `requested`, on a machine that
/// offers `available`: zero asks for all of them.
pub fn worker_count(requested: usize, available: usize) -> (n: usize)
    ensures
        n == if requested == 0 { available } else { requested },
{
    if requested == 0 {
        available
    } else {
        requested
    }
}

/// Calls `rayon::current_num_threads`: the number of threads of the pool that
/// the caller runs in, or of the global pool. The number depends on the
/// machine and its settings. Claimed of it, and not proved: it is at least
/// one, since rayon builds no pool without a thread.
#[verifier::external_body]
fn available_workers() -> (n: usize)
    ensures
        n >= 1,
{
    rayon::current_num_threads()
}

/// The number of workers for a request of `requested` on this machine.
pub fn resolve_worker_count(requested: usize) -> (n: usize)
    ensures
        requested != 0 ==> n == requested,
        n >= 1,
{
    if requested == 0 {
        worker_count(requested, available_workers())
    } else {
        worker_count(requested, requested)
    }
}

/// What the coordinator does after a round.
#[derive(Debug, Clone, Copy, PartialEq, Eq, Structural)]
pub enum RoundReport {
    /// The target is not reached: show the attempts and matches so far, and
    /// run another round.
    Progress { attempted: usize, found: usize },
    /// The target is reached: stop, and sum up.
    Finished { found: usize },
}

/// The attempts that the rounds of a search have dispatched so far.
#[derive(Debug)]
pub struct SearchProgress {
    attempted: usize,
}

/// The sum of attempts so far and one more round, held at the largest number
/// that the machine can count to.
pub open spec fn attempts_after(attempted: usize, batch: usize) -> usize {
    if attempted + batch > usize::MAX {
        usize::MAX
    } else {
        (attempted + batch) as usize
    }
}

/// What follows a round after which `found` matches are claimed.
pub open spec fn report_after(attempted: usize, found: usize, target: usize) -> RoundReport {
    if found < target {
        RoundReport::Progress { attempted, found }
    } else {
        RoundReport::Finished { found }
    }
}

impl SearchProgress {
    /// The attempts dispatched so far.
    pub closed spec fn attempted_spec(&self) -> usize {
        self.attempted
    }

    /// No round has run yet.
    pub fn new() -> (p: SearchProgress)
        ensures
            p.attempted_spec() == 0,
    {
        SearchProgress { attempted: 0 }
    }

    /// The attempts dispatched so far.
    #[verifier::when_used_as_spec(attempted_spec)]
    pub fn attempted(&self) -> (n: usize)
        ensures
            n == self.attempted_spec(),
    {
        self.attempted
    }

    /// Books a round of `batch` attempts that has run to its end, with `found`
    /// matches claimed by then, and says what follows: a progress line and
    /// another round while `found` is below `target`, the end of the search
    /// otherwise.
    pub fn finish_round(&mut self, batch: usize, found: usize, target: usize) -> (report:
        RoundReport)
        ensures
            final(self).attempted_spec() == attempts_after(old(self).attempted_spec(), batch),
            report == report_after(final(self).attempted_spec(), found, target),
    {
        self.attempted = self.attempted.saturating_add(batch);
        if found < target {
            RoundReport::Progress { attempted: self.attempted, found }
        } else {
            RoundReport::Finished { found }
        }
    }
}

} // verus!
