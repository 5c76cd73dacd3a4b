//! The scheduler's decisions: the bounded-parallelism permit limiter that admits at
//! most *P* concurrent solver children, the gating of uploads by digest and
//! offline mode, the classification of scoreboard replies, and the fate of
//! a finished job's working directory.

use crate::jobs::JobResult;
use vstd::prelude::*;

verus! {

/// How long the dispatch loop waits for a permit before it refreshes the
/// display, in milliseconds.
pub const DISPLAY_TICK_MIN_WAIT_MILLIS: u64 = 25;

/// The counting semaphore that limits concurrent solver children.
#[derive(Debug)]
pub struct ParallelGate {
    pub capacity: usize,
    pub in_use: usize,
}

impl ParallelGate {
    /// No more permits are ever out than the semaphore's capacity.
    pub open spec fn wf(self) -> bool {
        self.in_use <= self.capacity
    }

    pub fn new(capacity: usize) -> (r: ParallelGate)
        ensures
            r.wf(),
            r.capacity == capacity,
            r.in_use == 0,
    {
        ParallelGate { capacity, in_use: 0 }
    }

    /// Takes a permit if one is free; the count of live children never
    /// passes the capacity.
    pub fn try_acquire(&mut self) -> (r: bool)
        requires
            old(self).wf(),
        ensures
            final(self).wf(),
            final(self).capacity == old(self).capacity,
            r == (old(self).in_use < old(self).capacity),
            r ==> final(self).in_use == old(self).in_use + 1,
            !r ==> final(self).in_use == old(self).in_use,
    {
        if self.in_use < self.capacity {
            self.in_use = self.in_use + 1;
            true
        } else {
            false
        }
    }

    /// Returns a permit, as a task does as soon as its solver child has
    /// exited.
    pub fn release(&mut self)
        requires
            old(self).wf(),
            old(self).in_use > 0,
        ensures
            final(self).wf(),
            final(self).capacity == old(self).capacity,
            final(self).in_use == old(self).in_use - 1,
    {
        self.in_use = self.in_use - 1;
    }

    /// Free permits; the display shows `capacity - available` as the number
    /// of running children.
    pub fn available_permits(&self) -> (r: usize)
        requires
            self.wf(),
        ensures
            r == self.capacity - self.in_use,
    {
        self.capacity - self.in_use
    }
}

/// At every instant, the number of concurrently live children is bounded by
/// the semaphore's capacity: it starts empty, every acquisition respects the
/// bound, and nothing else creates permits.
pub proof fn lemma_bounded_parallelism(g: ParallelGate)
    requires
        g.wf(),
    ensures
        g.in_use <= g.capacity,
{
}

/// What a finished job does about the upload aggregator.
#[derive(Clone, Copy, PartialEq, Eq, Debug, Structural)]
pub enum UploadDecision {
    /// Nothing is submitted.
    Skip,
    /// The descriptor is submitted and the task awaits the reply.
    SubmitAwait,
    /// The descriptor is submitted with no reply awaited.
    SubmitFireAndForget,
}

/// The upload rule: nothing goes out offline or without a digest; a valid
/// result with extracted trees is submitted and awaited; an infeasible or
/// timed-out one is submitted fire-and-forget; everything else is skipped.
pub open spec fn upload_decision_spec(
    offline: bool,
    has_idigest: bool,
    job_result: JobResult,
    has_trees: bool,
) -> UploadDecision {
    if offline || !has_idigest {
        UploadDecision::Skip
    } else {
        match job_result {
            JobResult::Valid { .. } => if has_trees {
                UploadDecision::SubmitAwait
            } else {
                UploadDecision::Skip
            },
            JobResult::Infeasible => UploadDecision::SubmitFireAndForget,
            JobResult::Timeout => UploadDecision::SubmitFireAndForget,
            _ => UploadDecision::Skip,
        }
    }
}

/// Decides whether and how a finished job reaches the aggregator.
pub fn upload_decision(
    offline: bool,
    has_idigest: bool,
    job_result: JobResult,
    has_trees: bool,
) -> (r: UploadDecision)
    ensures
        r == upload_decision_spec(offline, has_idigest, job_result, has_trees),
{
    if offline || !has_idigest {
        UploadDecision::Skip
    } else {
        match job_result {
            JobResult::Valid { .. } => if has_trees {
                UploadDecision::SubmitAwait
            } else {
                UploadDecision::Skip
            },
            JobResult::Infeasible => UploadDecision::SubmitFireAndForget,
            JobResult::Timeout => UploadDecision::SubmitFireAndForget,
            _ => UploadDecision::Skip,
        }
    }
}

/// A descriptor is sent to the aggregator iff the run is online, the
/// instance carries a digest, and the outcome is one the endpoint accepts:
/// a valid result with extracted trees, an infeasible one, or a timeout.
pub proof fn lemma_digest_gating(
    offline: bool,
    has_idigest: bool,
    job_result: JobResult,
    has_trees: bool,
)
    ensures
        upload_decision_spec(offline, has_idigest, job_result, has_trees) != UploadDecision::Skip
            <==> (!offline && has_idigest && (job_result is Infeasible || job_result is Timeout || (
        job_result is Valid && has_trees))),
{
}

/// How the scoreboard's reply compares to the score that was submitted.
#[derive(Clone, Copy, PartialEq, Eq, Debug, Structural)]
pub enum ReplyClass {
    /// The submitted score beats the best the server knew.
    NewBest,
    /// The submitted score matches the best known.
    MatchedBest,
    /// The server knows a better score.
    Suboptimal,
    /// The server did not answer for this digest.
    NoResponse,
}

/// Classifies the best-known reply for a submitted score.
pub fn classify_reply(score: u32, best_known: Option<u32>) -> (r: ReplyClass)
    ensures
        match best_known {
            Option::Some(b) => r == (if b > score {
                ReplyClass::NewBest
            } else if b == score {
                ReplyClass::MatchedBest
            } else {
                ReplyClass::Suboptimal
            }),
            Option::None => r == ReplyClass::NoResponse,
        },
{
    match best_known {
        Option::Some(b) => {
            if b > score {
                ReplyClass::NewBest
            } else if b == score {
                ReplyClass::MatchedBest
            } else {
                ReplyClass::Suboptimal
            }
        },
        Option::None => ReplyClass::NoResponse,
    }
}

/// Is a finished job's working directory kept? It is when logs are kept in
/// general, when the outcome was anything but valid, or when optimality is
/// demanded and the reply said a better score is known.
pub fn keep_work_dir(
    keep_successful_logs: bool,
    job_result: JobResult,
    require_optimal: bool,
    suboptimal_reply: bool,
) -> (r: bool)
    ensures
        r == (keep_successful_logs || !(job_result is Valid) || (require_optimal
            && suboptimal_reply)),
{
    keep_successful_logs || !job_result.is_valid() || (require_optimal && suboptimal_reply)
}

} // verus!
