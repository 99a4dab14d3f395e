//! Capped exponential retry policy.
//!
//! Every network call in the pipeline is retried on the same schedule: a
//! fixed number of waits whose lengths grow geometrically between a lower
//! and an upper bound, each perturbed by bounded random jitter.  Once the
//! schedule is exhausted every further attempt gives up and the caller
//! surfaces the original error.

use vstd::prelude::*;

verus! {

/// How many timed retries a policy grants before giving up.
pub const RETRY_STEPS: u32 = 10;

/// Shortest scheduled wait, in milliseconds.
pub const MIN_WAIT_MS: u64 = 1000;

/// Longest scheduled wait, in milliseconds.
pub const MAX_WAIT_MS: u64 = 15000;

/// One decision of the retry policy: wait this many milliseconds and try
/// again, or stop retrying and hand the triggering error back verbatim.
#[derive(Clone, Copy, Debug, PartialEq, Eq, Structural)]
pub enum RetryDecision {
    WaitRetry(u64),
    GiveUp,
}

/// Relies on `exponential_backoff::Backoff::{new, iter}`: the iterator
/// yields one `Some(duration)` entry per timed attempt, each duration
/// clamped into `[min, max]`, and a final sleepless entry that is dropped
/// here.  The jitter applied to each entry is random, so only the count
/// and the bounds are stated.
#[verifier::external_body]
fn backoff_schedule(steps: u32, min_ms: u64, max_ms: u64) -> (r: Vec<u64>)
    requires
        0 < min_ms <= max_ms,
        steps < 0xffff_ffffu32,
    ensures
        r@.len() == steps as nat,
        forall|i: int| 0 <= i < r@.len() ==> min_ms <= #[trigger] r@[i] <= max_ms,
{
    let backoff = exponential_backoff::Backoff::new(
        steps + 1,
        std::time::Duration::from_millis(min_ms),
        std::time::Duration::from_millis(max_ms),
    );
    backoff.iter().map_while(|d| d).map(|d| d.as_millis() as u64).collect()
}

/// The retry policy: a precomputed schedule of waits and a count of the
/// attempts already handled.
pub struct BackoffPolicy {
    schedule: Vec<u64>,
    attempt: usize,
}

impl BackoffPolicy {
    /// The scheduled waits, in milliseconds.
    pub closed spec fn schedule(&self) -> Seq<u64> {
        self.schedule@
    }

    /// How many failed attempts have been handled so far.
    pub closed spec fn attempts(&self) -> nat {
        self.attempt as nat
    }

    pub open spec fn wf(&self) -> bool {
        &&& self.attempts() <= self.schedule().len()
        &&& forall|i: int|
            0 <= i < self.schedule().len() ==> MIN_WAIT_MS <= #[trigger] self.schedule()[i]
                <= MAX_WAIT_MS
    }

    /// A fresh policy with the standard schedule.
    pub fn new() -> (r: BackoffPolicy)
        ensures
            r.wf(),
            r.attempts() == 0,
            r.schedule().len() == RETRY_STEPS as nat,
    {
        BackoffPolicy { schedule: backoff_schedule(RETRY_STEPS, MIN_WAIT_MS, MAX_WAIT_MS), attempt: 0 }
    }

    /// Handle one failed attempt: while scheduled waits remain, direct the
    /// caller to wait the next one and retry; afterwards, give up.  The
    /// decision depends only on how many attempts have been handled, never
    /// on the kind of error.
    pub fn handle(&mut self) -> (r: RetryDecision)
        requires
            old(self).wf(),
        ensures
            final(self).wf(),
            handle_transition(*old(self), *final(self), r),
            final(self).schedule() == old(self).schedule(),
            old(self).attempts() < old(self).schedule().len() ==> {
                &&& r == RetryDecision::WaitRetry(old(self).schedule()[old(self).attempts() as int])
                &&& final(self).attempts() == old(self).attempts() + 1
            },
            old(self).attempts() >= old(self).schedule().len() ==> {
                &&& r == RetryDecision::GiveUp
                &&& final(self).attempts() == old(self).attempts()
            },
    {
        if self.attempt < self.schedule.len() {
            let wait = self.schedule[self.attempt];
            self.attempt = self.attempt + 1;
            RetryDecision::WaitRetry(wait)
        } else {
            RetryDecision::GiveUp
        }
    }
}

/// Law: a run of failed attempts is granted exactly the scheduled number of
/// timed retries.  After as many `handle` calls as the schedule holds, the
/// policy answers `GiveUp`, whatever the errors were.
pub proof fn lemma_exhausted_schedule_gives_up(p: BackoffPolicy)
    requires
        p.wf(),
        p.attempts() >= p.schedule().len(),
    ensures
        forall|q: BackoffPolicy, r: RetryDecision|
            #[trigger] handle_transition(p, q, r) ==> r == RetryDecision::GiveUp,
{
}

/// The relation that `handle` establishes between the policy before the
/// call, the policy after it, and the decision returned.
pub open spec fn handle_transition(pre: BackoffPolicy, post: BackoffPolicy, r: RetryDecision) -> bool {
    &&& post.schedule() == pre.schedule()
    &&& (pre.attempts() < pre.schedule().len() ==> {
        &&& r == RetryDecision::WaitRetry(pre.schedule()[pre.attempts() as int])
        &&& post.attempts() == pre.attempts() + 1
    })
    &&& (pre.attempts() >= pre.schedule().len() ==> {
        &&& r == RetryDecision::GiveUp
        &&& post.attempts() == pre.attempts()
    })
}

} // verus!
