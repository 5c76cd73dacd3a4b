use pace26stride::aggregator::{
    awaits_reply, prepare_upload_descriptor, Aggregator, DescriptorOutcome, JobDescriptor,
    AGGREGATION_TIMEOUT_MILLIS, MAX_BATCH,
};
use pace26stride::digest::idigest_from_hex;
use pace26stride::jobs::JobResult;
use pace26stride::scheduler::{
    classify_reply, keep_work_dir, upload_decision, ParallelGate, ReplyClass, UploadDecision,
};

fn digest(hex: &str) -> pace26stride::digest::InstanceDigest {
    idigest_from_hex(hex).unwrap()
}

const DIGEST_A: &str = "00000000000000000000000000000001";
const DIGEST_B: &str = "00000000000000000000000000000002";
const DIGEST_C: &str = "00000000000000000000000000000003";

#[test]
fn aggregator_fan_out() {
    // three valid jobs with digests A, B, C; the endpoint answers for A
    // and C only: each waiter sees exactly one message
    let mut agg = Aggregator::new();
    for (hex, sink) in [(DIGEST_A, 1u64), (DIGEST_B, 2), (DIGEST_C, 3)] {
        let desc = prepare_upload_descriptor(
            digest(hex),
            1,
            JobResult::Valid { size: 1 },
            Some(vec![String::from("(1,2);")]),
        )
        .unwrap();
        assert!(awaits_reply(&desc));
        agg.accept(Some(sink), desc);
    }
    let reply = vec![(digest(DIGEST_A), 10u32), (digest(DIGEST_C), 20u32)];
    let out = agg.settle_batch(&reply);
    assert_eq!(out, vec![(1, Some(10)), (2, None), (3, Some(20))]);
    assert_eq!(agg.pending.len(), 0);
    assert_eq!(agg.repliers.len(), 0);
}

#[test]
fn failed_upload_drains_with_none() {
    let mut agg = Aggregator::new();
    let desc = prepare_upload_descriptor(
        digest(DIGEST_A),
        5,
        JobResult::Valid { size: 1 },
        Some(vec![String::from("(1,2);")]),
    )
    .unwrap();
    agg.accept(Some(7), desc);
    let out = agg.settle_batch(&vec![]);
    assert_eq!(out, vec![(7, None)]);
}

#[test]
fn fire_and_forget_gets_no_sink() {
    let mut agg = Aggregator::new();
    let desc = prepare_upload_descriptor(digest(DIGEST_B), 5, JobResult::Infeasible, None).unwrap();
    assert!(!awaits_reply(&desc));
    agg.accept(None, desc);
    assert_eq!(agg.pending.len(), 1);
    assert_eq!(agg.repliers.len(), 0);
    let out = agg.settle_batch(&vec![]);
    assert!(out.is_empty());
}

#[test]
fn batch_flush_rules() {
    let mut agg = Aggregator::new();
    assert!(!agg.should_flush(false));
    assert!(agg.should_flush(true));
    for _ in 0..MAX_BATCH {
        let desc =
            prepare_upload_descriptor(digest(DIGEST_A), 1, JobResult::Timeout, None).unwrap();
        agg.accept(None, desc);
    }
    assert!(agg.should_flush(false));
    assert_eq!(AGGREGATION_TIMEOUT_MILLIS, 500);
}

#[test]
fn descriptor_rules() {
    // a valid job without extracted trees has no payload to send
    assert!(prepare_upload_descriptor(
        digest(DIGEST_A),
        1,
        JobResult::Valid { size: 1 },
        None
    )
    .is_none());
    // tags that the endpoint does not take are never wrapped
    assert!(
        prepare_upload_descriptor(digest(DIGEST_A), 1, JobResult::SolverError, None).is_none()
    );
    assert!(
        prepare_upload_descriptor(digest(DIGEST_A), 1, JobResult::SystemError, None).is_none()
    );
    let timeout = prepare_upload_descriptor(digest(DIGEST_A), 9, JobResult::Timeout, None).unwrap();
    assert!(matches!(timeout.outcome, DescriptorOutcome::Timeout));
    assert_eq!(timeout.runtime_millis, 9);
    let valid = prepare_upload_descriptor(
        digest(DIGEST_A),
        4,
        JobResult::Valid { size: 2 },
        Some(vec![String::from("t1"), String::from("t2")]),
    )
    .unwrap();
    match valid.outcome {
        DescriptorOutcome::Valid { score, trees } => {
            assert_eq!(score, 2);
            assert_eq!(trees, vec!["t1", "t2"]);
        }
        other => panic!("expected a valid outcome, got {other:?}"),
    }
    let _ = JobDescriptor {
        idigest: digest(DIGEST_B),
        runtime_millis: 0,
        outcome: DescriptorOutcome::Infeasible,
    };
}

#[test]
fn digest_gating_decisions() {
    let valid = JobResult::Valid { size: 1 };
    assert_eq!(
        upload_decision(false, true, valid, true),
        UploadDecision::SubmitAwait
    );
    assert_eq!(upload_decision(false, true, valid, false), UploadDecision::Skip);
    assert_eq!(
        upload_decision(false, true, JobResult::Infeasible, false),
        UploadDecision::SubmitFireAndForget
    );
    assert_eq!(
        upload_decision(false, true, JobResult::Timeout, false),
        UploadDecision::SubmitFireAndForget
    );
    assert_eq!(
        upload_decision(false, true, JobResult::SolverError, false),
        UploadDecision::Skip
    );
    // offline, or no digest: nothing ever goes out
    assert_eq!(upload_decision(true, true, valid, true), UploadDecision::Skip);
    assert_eq!(upload_decision(false, false, valid, true), UploadDecision::Skip);
}

#[test]
fn reply_classification() {
    assert_eq!(classify_reply(5, Some(7)), ReplyClass::NewBest);
    assert_eq!(classify_reply(5, Some(5)), ReplyClass::MatchedBest);
    assert_eq!(classify_reply(5, Some(3)), ReplyClass::Suboptimal);
    assert_eq!(classify_reply(5, None), ReplyClass::NoResponse);
}

#[test]
fn work_dir_fate() {
    let valid = JobResult::Valid { size: 1 };
    assert!(!keep_work_dir(false, valid, false, false));
    assert!(keep_work_dir(true, valid, false, false));
    assert!(keep_work_dir(false, JobResult::Timeout, false, false));
    assert!(keep_work_dir(false, valid, true, true));
    assert!(!keep_work_dir(false, valid, true, false));
}

#[test]
fn concurrent_cap() {
    // sixteen two-second jobs through a gate of four: at most four run at
    // once, so at least four full rounds pass
    let mut gate = ParallelGate::new(4);
    let mut remaining = 16u32;
    let mut rounds = 0u32;
    while remaining > 0 {
        let mut running = 0u32;
        while gate.try_acquire() {
            running += 1;
        }
        assert!(running <= 4);
        assert_eq!(gate.available_permits(), 4 - running as usize);
        // no fifth child fits while all permits are out
        if running == 4 {
            assert!(!gate.try_acquire());
        }
        for _ in 0..running.min(remaining) {
            gate.release();
        }
        remaining -= running.min(remaining);
        rounds += 1;
    }
    assert_eq!(rounds, 4);
}

#[test]
fn counters_follow_outcomes() {
    let mut c = pace26stride::counters::ProgressCounters::new();
    c.finish_job(JobResult::Valid { size: 3 });
    c.finish_job(JobResult::Timeout);
    c.finish_job(JobResult::Valid { size: 1 });
    assert_eq!(c.num_valid, 2);
    assert_eq!(c.num_timeout, 1);
    c.stride_inc_queued();
    c.stride_inc_queued();
    c.stride_inc_best_known();
    assert_eq!(c.num_stride_queued, 1);
    assert_eq!(c.num_stride_best_known, 1);
    c.stride_suboptimal();
    assert_eq!(c.num_stride_queued, 0);
    assert_eq!(c.num_stride_suboptimal, 1);
}
