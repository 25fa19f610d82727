//! Race-checked reads of the finalized store, and when to retry them.

use vstd::prelude::*;

use crate::amount::AmountError;
use crate::location::TransactionLocation;

verus! {

/// How many times a finalized read is attempted before the query fails.
pub const FINALIZED_STATE_QUERY_RETRIES: u32 = 3;

/// The closed range of finalized tip heights `start..=end` seen during a read.
#[derive(Clone, Copy, Debug, PartialEq, Eq, Structural, Hash)]
pub struct HeightRange {
    pub start: u32,
    pub end: u32,
}

/// The tip range of a read that saw `start` before and `end` after it, or
/// `None` when the store was empty at either observation.
pub open spec fn tip_range(start: Option<u32>, end: Option<u32>) -> Option<HeightRange> {
    match (start, end) {
        (Some(s), Some(e)) => Some(HeightRange { start: s, end: e }),
        _ => None,
    }
}

/// What to do after one attempt at a finalized read.
#[derive(Clone, Copy, Debug, PartialEq, Eq, Structural, Hash)]
pub enum ReadStep {
    /// The tip did not move during the read: its result holds at this range
    /// (`None`: the store is empty).
    Certified(Option<HeightRange>),
    /// The tip moved and attempts are left: read again from the top.
    Retry,
    /// The tip moved on the last allowed attempt.
    Exhausted,
}

/// The step after attempt number `attempt` (counting from one) of at most
/// `bound`, which saw the tip `start` before and `end` after its lookup.
pub open spec fn read_step(attempt: nat, bound: nat, start: Option<u32>, end: Option<u32>) -> ReadStep {
    if start == end {
        ReadStep::Certified(tip_range(start, end))
    } else if attempt < bound {
        ReadStep::Retry
    } else {
        ReadStep::Exhausted
    }
}

/// Decides what follows attempt number `attempt` of at most `bound`, given the
/// tips seen before and after its lookup.
pub fn next_read_step(attempt: u32, bound: u32, start: Option<u32>, end: Option<u32>) -> (r: ReadStep)
    requires
        1 <= attempt <= bound,
    ensures
        r == read_step(attempt as nat, bound as nat, start, end),
{
    if start == end {
        let range = match (start, end) {
            (Some(s), Some(e)) => Some(HeightRange { start: s, end: e }),
            _ => None,
        };
        ReadStep::Certified(range)
    } else if attempt < bound {
        ReadStep::Retry
    } else {
        ReadStep::Exhausted
    }
}

/// The tips seen around a read did not agree.
pub open spec fn unstable(o: (Option<u32>, Option<u32>)) -> bool {
    o.0 != o.1
}

/// Runs the protocol from attempt number `attempt` over the tip observations
/// `obs` (the pair of attempt `n` at index `n - 1`): whether it ends certified,
/// and on which attempt it ends.
pub open spec fn run_reads(obs: Seq<(Option<u32>, Option<u32>)>, bound: nat, attempt: nat) -> (bool, nat)
    decreases bound - attempt,
{
    if attempt < 1 || attempt > bound || attempt > obs.len() {
        (false, attempt)
    } else {
        match read_step(attempt, bound, obs[attempt - 1].0, obs[attempt - 1].1) {
            ReadStep::Certified(_) => (true, attempt),
            ReadStep::Retry => run_reads(obs, bound, attempt + 1),
            ReadStep::Exhausted => (false, attempt),
        }
    }
}

/// A read whose tips first agree on attempt `k`, with `k` within the bound,
/// is certified on attempt `k`; one whose tips never agree within the bound
/// fails on attempt `bound`, after exactly `bound` attempts.
pub proof fn lemma_retry_terminates(obs: Seq<(Option<u32>, Option<u32>)>, bound: nat, k: nat)
    requires
        1 <= bound,
    ensures
        1 <= k <= bound && k <= obs.len() && !unstable(obs[k - 1])
            && (forall|j: int| 0 <= j < k - 1 ==> unstable(#[trigger] obs[j]))
            ==> run_reads(obs, bound, 1) == (true, k),
        bound <= obs.len() && (forall|j: int| 0 <= j < bound ==> unstable(#[trigger] obs[j]))
            ==> run_reads(obs, bound, 1) == (false, bound),
{
    lemma_run_from(obs, bound, k, 1);
    if bound <= obs.len() {
        lemma_run_unstable_from(obs, bound, 1);
    }
}

proof fn lemma_run_from(obs: Seq<(Option<u32>, Option<u32>)>, bound: nat, k: nat, a: nat)
    requires
        1 <= a,
    ensures
        a <= k <= bound && k <= obs.len() && !unstable(obs[k - 1])
            && (forall|j: int| a - 1 <= j < k - 1 ==> unstable(#[trigger] obs[j]))
            ==> run_reads(obs, bound, a) == (true, k),
    decreases bound - a,
{
    if a <= k <= bound && k <= obs.len() && !unstable(obs[k - 1])
        && (forall|j: int| a - 1 <= j < k - 1 ==> unstable(#[trigger] obs[j])) {
        if a < k {
            assert(unstable(obs[a - 1]));
            lemma_run_from(obs, bound, k, a + 1);
        }
    }
}

proof fn lemma_run_unstable_from(obs: Seq<(Option<u32>, Option<u32>)>, bound: nat, a: nat)
    requires
        1 <= bound <= obs.len(),
        1 <= a <= bound,
    ensures
        (forall|j: int| a - 1 <= j < bound ==> unstable(#[trigger] obs[j])) ==> run_reads(obs, bound, a) == (false, bound),
    decreases bound - a,
{
    if forall|j: int| a - 1 <= j < bound ==> unstable(#[trigger] obs[j]) {
        assert(unstable(obs[a - 1]));
        if a < bound {
            lemma_run_unstable_from(obs, bound, a + 1);
        }
    }
}

/// Why an address query failed.
#[derive(Clone, Copy, Debug, PartialEq, Eq, Structural, Hash)]
pub enum QueryError {
    /// The finalized tip moved while the finalized store was read.
    TipChanged { range: HeightRange },
    /// An output's transaction has no id in either region.
    MissingTransactionId { location: TransactionLocation },
    /// The combined balance is not a valid amount.
    Amount { error: AmountError },
}

} // verus!
