//! The upload aggregator: coalesces finished-job descriptors into batches
//! and fans the per-digest replies of the remote endpoint back to the
//! waiting sinks, exactly one message per sink.
//!
//! The channel and the HTTP POST are the caller's I/O; the batching
//! decisions and the reply fan-out are verified. Reply sinks are modeled by
//! plain identifiers.

use crate::digest::{bytes_eq, InstanceDigest};
use crate::jobs::JobResult;
use vstd::prelude::*;

verus! {

/// How long the aggregator keeps collecting after the first message of a
/// batch, in milliseconds.
pub const AGGREGATION_TIMEOUT_MILLIS: u64 = 500;

/// The largest batch submitted in one POST.
pub const MAX_BATCH: usize = 200;

/// The outcome a descriptor reports for one job.
#[derive(Debug)]
pub enum DescriptorOutcome {
    Valid { score: u32, trees: Vec<String> },
    Infeasible,
    Timeout,
}

/// The control record accompanying one finished job on its way to the
/// remote endpoint.
#[derive(Debug)]
pub struct JobDescriptor {
    pub idigest: InstanceDigest,
    pub runtime_millis: u64,
    pub outcome: DescriptorOutcome,
}

/// Builds the descriptor for one finished job, or decides that nothing is
/// uploaded: a valid job is uploaded only when solution trees were
/// extracted, an infeasible or timed-out one always, and every other
/// outcome never.
pub fn prepare_upload_descriptor(
    idigest: InstanceDigest,
    runtime_millis: u64,
    job_result: JobResult,
    trees: Option<Vec<String>>,
) -> (r: Option<JobDescriptor>)
    requires
        trees matches Some(t) ==> t@.len() <= u32::MAX,
    ensures
        match job_result {
            JobResult::Valid { .. } => match trees {
                Option::Some(t) => r matches Some(d) && d.idigest == idigest
                    && d.runtime_millis == runtime_millis && (d.outcome
                    matches DescriptorOutcome::Valid { score, trees: dt } && score == t@.len()
                    && dt@ == t@),
                Option::None => r is None,
            },
            JobResult::Infeasible => r matches Some(d) && d.idigest == idigest
                && d.runtime_millis == runtime_millis && d.outcome
                is Infeasible,
            JobResult::Timeout => r matches Some(d) && d.idigest == idigest && d.runtime_millis
                == runtime_millis && d.outcome is Timeout,
            _ => r is None,
        },
{
    match job_result {
        JobResult::Valid { .. } => match trees {
            Option::Some(t) => {
                let score = t.len() as u32;
                Some(
                    JobDescriptor {
                        idigest,
                        runtime_millis,
                        outcome: DescriptorOutcome::Valid { score, trees: t },
                    },
                )
            },
            Option::None => None,
        },
        JobResult::Infeasible => Some(
            JobDescriptor { idigest, runtime_millis, outcome: DescriptorOutcome::Infeasible },
        ),
        JobResult::Timeout => Some(
            JobDescriptor { idigest, runtime_millis, outcome: DescriptorOutcome::Timeout },
        ),
        _ => None,
    }
}

/// Does a caller that submitted this descriptor wait for a reply? Only
/// valid results are worth waiting for.
pub fn awaits_reply(d: &JobDescriptor) -> (r: bool)
    ensures
        r == (d.outcome is Valid),
{
    matches!(d.outcome, DescriptorOutcome::Valid { .. })
}

/// The collecting state of the aggregator: the descriptors of the current
/// batch and the sinks awaiting a reply, each keyed by its digest.
#[derive(Debug)]
pub struct Aggregator {
    pub pending: Vec<JobDescriptor>,
    pub repliers: Vec<(Vec<u8>, u64)>,
}

/// The best score the endpoint reported for a digest, if any: the first
/// entry with a matching key.
pub open spec fn lookup_score(scores: Seq<(Seq<u8>, u32)>, key: Seq<u8>) -> Option<u32>
    decreases scores.len(),
{
    if scores.len() == 0 {
        Option::None
    } else if scores[0].0 == key {
        Option::Some(scores[0].1)
    } else {
        lookup_score(scores.skip(1), key)
    }
}

impl Aggregator {
    pub fn new() -> (r: Aggregator)
        ensures
            r.pending@.len() == 0,
            r.repliers@.len() == 0,
    {
        Aggregator { pending: Vec::new(), repliers: Vec::new() }
    }

    /// Takes one message in: the descriptor joins the batch, and the sink,
    /// when one came along, is recorded under the descriptor's digest.
    pub fn accept(&mut self, sink: Option<u64>, desc: JobDescriptor)
        ensures
            final(self).pending@ == old(self).pending@.push(desc),
            sink is None ==> final(self).repliers@ == old(self).repliers@,
            sink matches Some(id) ==> final(self).repliers@.len() == old(self).repliers@.len() + 1
                && final(self).repliers@.drop_last() == old(self).repliers@
                && final(self).repliers@.last().0@ == desc.idigest.key()
                && final(self).repliers@.last().1 == id,
    {
        match sink {
            Option::Some(id) => {
                let d = clone_bytes(desc.idigest.bytes());
                self.repliers.push((d, id));
                proof {
                    assert(self.repliers@.drop_last() =~= old(self).repliers@);
                }
            },
            Option::None => {},
        }
        self.pending.push(desc);
    }

    /// Does the batch go out now? It does when it reached the size cap, or
    /// when the timer that started at its first message has elapsed.
    pub fn should_flush(&self, timer_elapsed: bool) -> (r: bool)
        ensures
            r == (self.pending@.len() >= MAX_BATCH || timer_elapsed),
    {
        self.pending.len() >= MAX_BATCH || timer_elapsed
    }

    /// Fans the endpoint's reply out to the waiting sinks and clears the
    /// round: every accepted sink receives exactly one message, in
    /// acceptance order - the best score reported for its digest, or
    /// nothing. A failed upload is settled the same way with an empty
    /// reply, so no sink is ever left waiting.
    pub fn settle_batch(&mut self, best_scores: &Vec<(InstanceDigest, u32)>) -> (out: Vec<
        (u64, Option<u32>),
    >)
        ensures
            out@.len() == old(self).repliers@.len(),
            forall|k: int|
                0 <= k < out@.len() ==> out@[k].0 == old(self).repliers@[k].1 && out@[k].1
                    == lookup_score(scores_view(best_scores@), old(self).repliers@[k].0@),
            final(self).pending@.len() == 0,
            final(self).repliers@.len() == 0,
    {
        let mut out: Vec<(u64, Option<u32>)> = Vec::new();
        let n = self.repliers.len();
        let mut i: usize = 0;
        #[verifier::loop_isolation(false)]
        while i < n
            invariant
                i <= n,
                self.repliers@ == old(self).repliers@,
                out@.len() == i,
                forall|k: int|
                    0 <= k < i ==> out@[k].0 == self.repliers@[k].1 && out@[k].1 == lookup_score(
                        scores_view(best_scores@),
                        self.repliers@[k].0@,
                    ),
            decreases n - i,
        {
            let score = find_score(best_scores, &self.repliers[i].0);
            out.push((self.repliers[i].1, score));
            i += 1;
        }
        self.pending = Vec::new();
        self.repliers = Vec::new();
        out
    }
}

/// The reply table as key/value sequences.
pub open spec fn scores_view(scores: Seq<(InstanceDigest, u32)>) -> Seq<(Seq<u8>, u32)> {
    Seq::new(scores.len(), |i: int| (scores[i].0.key(), scores[i].1))
}

/// Looks a digest up in the endpoint's reply.
fn find_score(scores: &Vec<(InstanceDigest, u32)>, key: &Vec<u8>) -> (r: Option<u32>)
    ensures
        r == lookup_score(scores_view(scores@), key@),
{
    let n = scores.len();
    let mut i: usize = 0;
    proof {
        assert(scores_view(scores@).skip(0) =~= scores_view(scores@));
    }
    #[verifier::loop_isolation(false)]
    while i < n
        invariant
            i <= n,
            lookup_score(scores_view(scores@), key@) == lookup_score(
                scores_view(scores@).skip(i as int),
                key@,
            ),
        decreases n - i,
    {
        proof {
            assert(scores_view(scores@).skip(i as int)[0] == (scores@[i as int].0.key(),
            scores@[i as int].1));
            assert(scores_view(scores@).skip(i as int).skip(1) =~= scores_view(scores@).skip(i + 1));
        }
        if bytes_eq(scores[i].0.bytes(), key) {
            return Some(scores[i].1);
        }
        i += 1;
    }
    proof {
        assert(scores_view(scores@).skip(n as int).len() == 0);
    }
    None
}

/// How many of the settled replies are addressed to one sink.
pub open spec fn count_replies(out: Seq<(u64, Option<u32>)>, id: u64) -> int
    decreases out.len(),
{
    if out.len() == 0 {
        0
    } else {
        count_replies(out.drop_last(), id) + (if out.last().0 == id {
            1int
        } else {
            0int
        })
    }
}

proof fn lemma_count_replies_zero(out: Seq<(u64, Option<u32>)>, ids: Seq<u64>, id: u64)
    requires
        out.len() == ids.len(),
        forall|k: int| 0 <= k < out.len() ==> out[k].0 == ids[k],
        forall|k: int| 0 <= k < ids.len() ==> ids[k] != id,
    ensures
        count_replies(out, id) == 0,
    decreases out.len(),
{
    if out.len() > 0 {
        assert(forall|k: int| 0 <= k < out.len() - 1 ==> out.drop_last()[k] == out[k]);
        assert(forall|k: int| 0 <= k < ids.len() - 1 ==> ids.drop_last()[k] == ids[k]);
        assert(out.last().0 == ids[ids.len() - 1]);
        lemma_count_replies_zero(out.drop_last(), ids.drop_last(), id);
    }
}

/// Every reply-sink accepted into a round receives exactly one message:
/// with the sink identifiers pairwise distinct - the aggregator mints a
/// fresh one per accepted sink - the settled replies address each accepted
/// sink exactly once.
pub proof fn lemma_exactly_one_reply(out: Seq<(u64, Option<u32>)>, ids: Seq<u64>, id: u64)
    requires
        out.len() == ids.len(),
        forall|k: int| 0 <= k < out.len() ==> out[k].0 == ids[k],
        ids.no_duplicates(),
        ids.contains(id),
    ensures
        count_replies(out, id) == 1,
    decreases out.len(),
{
    let w = choose|w: int| 0 <= w < ids.len() && ids[w] == id;
    assert(forall|k: int| 0 <= k < out.len() - 1 ==> out.drop_last()[k] == out[k]);
    assert(forall|k: int| 0 <= k < ids.len() - 1 ==> ids.drop_last()[k] == ids[k]);
    assert(out.last().0 == ids[ids.len() - 1]);
    if w == out.len() - 1 {
        assert(forall|k: int| 0 <= k < ids.len() - 1 ==> ids.drop_last()[k] != id);
        lemma_count_replies_zero(out.drop_last(), ids.drop_last(), id);
    } else {
        assert(ids.last() != id);
        assert(ids.drop_last()[w] == id);
        assert(ids.drop_last().contains(id));
        lemma_exactly_one_reply(out.drop_last(), ids.drop_last(), id);
    }
}

fn clone_bytes(b: &Vec<u8>) -> (r: Vec<u8>)
    ensures
        r@ == b@,
{
    let mut r: Vec<u8> = Vec::new();
    let n = b.len();
    let mut i: usize = 0;
    #[verifier::loop_isolation(false)]
    while i < n
        invariant
            i <= n,
            r@ == b@.take(i as int),
        decreases n - i,
    {
        r.push(b[i]);
        proof {
            assert(r@ =~= b@.take(i + 1));
        }
        i += 1;
    }
    proof {
        assert(b@.take(n as int) =~= b@);
    }
    r
}

} // verus!
