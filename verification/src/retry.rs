//! Per-target retry policy: a bounded sequence of probe attempts that stops
//! at the first success, with one log record per attempt.
//!
//! The budget is the total number of attempts allowed, not the number of
//! retries after a first try.

use vstd::prelude::*;

verus! {

/// Fixed delay between two failed probe attempts of the same target, in
/// milliseconds.
pub const RETRY_BACKOFF_MS: u64 = 500;

/// Log record of one probe attempt: its 1-based index and its outcome
/// (round-trip latency in milliseconds, or a failure reason).
#[derive(Debug, PartialEq)]
pub struct AttemptRecord {
    pub attempt: u8,
    pub outcome: Result<u64, String>,
}

/// Spec-level image of an [`AttemptRecord`].
pub struct AttemptRecordModel {
    pub attempt: u8,
    pub outcome: Result<u64, Seq<char>>,
}

impl View for AttemptRecord {
    type V = AttemptRecordModel;

    open spec fn view(&self) -> AttemptRecordModel {
        AttemptRecordModel {
            attempt: self.attempt,
            outcome: match self.outcome {
                Ok(latency) => Ok(latency),
                Err(ref reason) => Err(reason@),
            },
        }
    }
}

impl Clone for AttemptRecord {
    fn clone(&self) -> (res: Self)
        ensures
            res == *self,
    {
        AttemptRecord {
            attempt: self.attempt,
            outcome: match &self.outcome {
                Ok(latency) => Ok(*latency),
                Err(reason) => Err(reason.clone()),
            },
        }
    }
}

/// The retry policy for one target within one poll cycle: up to `budget`
/// probe attempts, stopping at the first success, each attempt logged.
#[derive(Debug)]
pub struct RetrySession {
    pub budget: u8,
    pub attempts: u8,
    pub succeeded: bool,
    pub log: Vec<AttemptRecord>,
}

/// Abstract retry state: number of attempts made and whether one succeeded.
/// The transition ignores further outcomes once the session is done.
pub open spec fn retry_step(budget: u8, st: (nat, bool), ok: bool) -> (nat, bool) {
    if st.1 || st.0 >= budget {
        st
    } else {
        ((st.0 + 1) as nat, ok)
    }
}

/// Folds a sequence of attempt outcomes through [`retry_step`], starting
/// from `st`.
pub open spec fn retry_run_from(budget: u8, st: (nat, bool), outcomes: Seq<bool>) -> (nat, bool)
    decreases outcomes.len(),
{
    if outcomes.len() == 0 {
        st
    } else {
        retry_run_from(budget, retry_step(budget, st, outcomes[0]), outcomes.drop_first())
    }
}

/// The retry state reached from a fresh session after observing `outcomes`.
pub open spec fn retry_run(budget: u8, outcomes: Seq<bool>) -> (nat, bool) {
    retry_run_from(budget, (0nat, false), outcomes)
}

impl RetrySession {
    /// A session is done when an attempt succeeded or the budget is
    /// exhausted; no further attempt is made.
    pub open spec fn is_done(&self) -> bool {
        self.succeeded || self.attempts == self.budget
    }

    /// Internal consistency: the log holds one record per attempt made, in
    /// order, every record before the last is a failure, and the session
    /// succeeded exactly when the last record is a success.
    pub open spec fn wf(&self) -> bool {
        &&& self.attempts <= self.budget
        &&& self.log@.len() == self.attempts
        &&& forall|i: int| 0 <= i < self.log@.len() ==> (#[trigger] self.log@[i])@.attempt == i + 1
        &&& forall|i: int| 0 <= i < self.log@.len() - 1 ==> (#[trigger] self.log@[i]).outcome is Err
        &&& self.succeeded == (self.log@.len() > 0 && self.log@.last().outcome is Ok)
    }

    /// Starts a fresh session with the given total attempt budget.
    pub fn new(budget: u8) -> (s: Self)
        ensures
            s.wf(),
            s.budget == budget,
            s.attempts == 0,
            !s.succeeded,
            s.log@.len() == 0,
    {
        RetrySession { budget, attempts: 0, succeeded: false, log: Vec::new() }
    }

    /// Whether the session still owes an attempt.
    pub fn done(&self) -> (r: bool)
        ensures
            r == self.is_done(),
    {
        self.succeeded || self.attempts == self.budget
    }

    /// The 1-based index of the next attempt to issue.
    pub fn next_attempt(&self) -> (r: u8)
        requires
            self.wf(),
            !self.is_done(),
        ensures
            r == self.attempts + 1,
    {
        self.attempts + 1
    }

    /// Records the outcome of one probe attempt.  Mirrors one application of
    /// [`retry_step`] on the abstract state and appends one log record.
    pub fn record_attempt(&mut self, outcome: Result<u64, String>)
        requires
            old(self).wf(),
            !old(self).is_done(),
        ensures
            final(self).wf(),
            final(self).budget == old(self).budget,
            final(self).attempts == old(self).attempts + 1,
            final(self).succeeded == (outcome is Ok),
            final(self).log@.len() == old(self).log@.len() + 1,
            final(self).log@.drop_last() == old(self).log@,
            final(self).log@.last().attempt == old(self).attempts + 1,
            final(self).log@.last().outcome == outcome,
            ((final(self).attempts as nat, final(self).succeeded) == retry_step(
                old(self).budget,
                (old(self).attempts as nat, old(self).succeeded),
                outcome is Ok,
            )),
    {
        let attempt = self.attempts + 1;
        let ok = outcome.is_ok();
        self.log.push(AttemptRecord { attempt, outcome });
        self.attempts = attempt;
        self.succeeded = ok;
    }
}

/// Law: a target whose probe fails on every attempt makes exactly its full
/// budget of attempts and ends in failure.
pub proof fn lemma_exhausted_budget(budget: u8, outcomes: Seq<bool>)
    requires
        outcomes.len() >= budget,
        forall|i: int| 0 <= i < outcomes.len() ==> !(#[trigger] outcomes[i]),
    ensures
        retry_run(budget, outcomes) == (budget as nat, false),
{
    lemma_run_all_failures(budget, 0, outcomes);
}

proof fn lemma_run_all_failures(budget: u8, made: nat, outcomes: Seq<bool>)
    requires
        made <= budget,
        outcomes.len() >= budget - made,
        forall|i: int| 0 <= i < outcomes.len() ==> !(#[trigger] outcomes[i]),
    ensures
        retry_run_from(budget, (made, false), outcomes) == (budget as nat, false),
    decreases outcomes.len(),
{
    if outcomes.len() == 0 {
    } else if made == budget {
        lemma_run_after_done(budget, (made, false), outcomes);
    } else {
        lemma_run_all_failures(budget, made + 1, outcomes.drop_first());
    }
}

proof fn lemma_run_after_done(budget: u8, st: (nat, bool), outcomes: Seq<bool>)
    requires
        st.1 || st.0 >= budget,
    ensures
        retry_run_from(budget, st, outcomes) == st,
    decreases outcomes.len(),
{
    if outcomes.len() > 0 {
        lemma_run_after_done(budget, st, outcomes.drop_first());
    }
}

/// Law: a target whose probe first succeeds on attempt `k + 1 <= budget`
/// makes exactly `k + 1` attempts and ends in success.
pub proof fn lemma_stops_at_first_success(budget: u8, outcomes: Seq<bool>, k: int)
    requires
        0 <= k < outcomes.len(),
        k < budget,
        outcomes[k],
        forall|i: int| 0 <= i < k ==> !(#[trigger] outcomes[i]),
    ensures
        retry_run(budget, outcomes) == ((k + 1) as nat, true),
{
    lemma_run_first_success(budget, 0, outcomes, k);
}

proof fn lemma_run_first_success(budget: u8, made: nat, outcomes: Seq<bool>, k: int)
    requires
        made + k < budget,
        0 <= k < outcomes.len(),
        outcomes[k],
        forall|i: int| 0 <= i < k ==> !(#[trigger] outcomes[i]),
    ensures
        retry_run_from(budget, (made, false), outcomes) == ((made + k + 1) as nat, true),
    decreases k,
{
    if k == 0 {
        lemma_run_after_done(budget, ((made + 1) as nat, true), outcomes.drop_first());
    } else {
        lemma_run_first_success(budget, made + 1, outcomes.drop_first(), k - 1);
    }
}

} // verus!
