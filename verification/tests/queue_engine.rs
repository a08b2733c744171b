use raftbot::queue::{
    sweep_cutoff, JobQueue, JobRecord, QueueError, QueueStatus, FIELD_COMPLETED_AT, FIELD_CREATED,
    FIELD_ERROR, FIELD_REPLY, FIELD_RETRY, FIELD_STARTED_AT, FIELD_STATUS, FIELD_WORKER_ID,
    MAX_RETRIES, STUCK_TIMEOUT_MINUTES,
};

const MINUTE: i64 = 60_000;

#[test]
fn claim_takes_oldest_pending_job() {
    let mut q = JobQueue::new();
    let a = q.insert(200, None).unwrap();
    let b = q.insert(100, Some("m1".to_string())).unwrap();
    let job = q.claim_next("w1", 1000).unwrap().unwrap();
    assert_eq!(job.id, b);
    assert_eq!(job.status, QueueStatus::Processing);
    assert_eq!(job.worker_id.as_deref(), Some("w1"));
    assert_eq!(job.started, Some(1000));
    assert_eq!(job.reply.as_deref(), Some("m1"));
    let job2 = q.claim_next("w2", 1001).unwrap().unwrap();
    assert_eq!(job2.id, a);
    assert!(q.claim_next("w3", 1002).unwrap().is_none());
}

#[test]
fn claim_breaks_ties_by_insertion() {
    let mut q = JobQueue::new();
    let a = q.insert(5, None).unwrap();
    let b = q.insert(5, None).unwrap();
    assert_eq!(q.claim_next("w", 6).unwrap().unwrap().id, a);
    assert_eq!(q.claim_next("w", 6).unwrap().unwrap().id, b);
}

#[test]
fn two_claims_never_return_the_same_job() {
    let mut q = JobQueue::new();
    for t in 0..5 {
        q.insert(t, None).unwrap();
    }
    let mut seen: Vec<u64> = Vec::new();
    for w in 0..5 {
        let job = q.claim_next(&format!("worker-{}", w), 10).unwrap().unwrap();
        assert!(!seen.contains(&job.id));
        seen.push(job.id);
    }
    assert!(q.claim_next("worker-9", 10).unwrap().is_none());
}

#[test]
fn claim_without_worker_id_is_refused() {
    let mut q = JobQueue::new();
    q.insert(1, None).unwrap();
    assert!(matches!(q.claim_next("", 5), Err(QueueError::EmptyWorkerId)));
    assert_eq!(q.count_pending(), 1);
}

#[test]
fn ids_are_assigned_in_order() {
    let mut q = JobQueue::new();
    assert_eq!(q.insert(9, None), Ok(1));
    assert_eq!(q.insert(3, None), Ok(2));
    assert_eq!(q.len(), 2);
    assert_eq!(q.count_total(), 2);
}

#[test]
fn mark_completed_sets_terminal_state() {
    let mut q = JobQueue::new();
    let id = q.insert(1, Some("r".to_string())).unwrap();
    q.claim_next("w", 2).unwrap().unwrap();
    assert_eq!(q.mark_completed(id, 50), Ok(()));
    let job = q.get(id).unwrap();
    assert_eq!(job.status, QueueStatus::Completed);
    assert_eq!(job.completed, Some(50));
    assert_eq!(job.worker_id, None);
    assert_eq!(job.retry, 0);
    assert!(job.status.is_terminal());
}

#[test]
fn mark_failed_counts_a_retry_and_keeps_the_error() {
    let mut q = JobQueue::new();
    let id = q.insert(1, Some("r".to_string())).unwrap();
    q.claim_next("w", 2).unwrap().unwrap();
    assert_eq!(q.mark_failed(id, "store down".to_string(), 60), Ok(()));
    let job = q.get(id).unwrap();
    assert_eq!(job.status, QueueStatus::Failed);
    assert_eq!(job.error.as_deref(), Some("store down"));
    assert_eq!(job.completed, Some(60));
    assert_eq!(job.retry, 1);
    assert_eq!(job.worker_id, None);
}

#[test]
fn marking_needs_a_job_that_a_worker_holds() {
    let mut q = JobQueue::new();
    let id = q.insert(1, None).unwrap();
    assert_eq!(q.mark_completed(id, 5), Err(QueueError::NotProcessing));
    assert_eq!(q.mark_failed(id, "e".to_string(), 5), Err(QueueError::NotProcessing));
    assert_eq!(q.requeue_with_reply(id, "m".to_string()), Err(QueueError::NotProcessing));
    assert_eq!(q.mark_completed(77, 5), Err(QueueError::UnknownJob));
    assert_eq!(q.mark_failed(77, "e".to_string(), 5), Err(QueueError::UnknownJob));
    assert_eq!(q.requeue_with_reply(77, "m".to_string()), Err(QueueError::UnknownJob));
    assert!(q.get(77).is_none());
    assert_eq!(q.get(id).unwrap().status, QueueStatus::Pending);
}

#[test]
fn completed_job_stays_completed() {
    let mut q = JobQueue::new();
    let id = q.insert(1, None).unwrap();
    q.claim_next("w", 2).unwrap();
    q.mark_completed(id, 3).unwrap();
    assert_eq!(q.mark_failed(id, "late".to_string(), 4), Err(QueueError::NotProcessing));
    assert!(q.claim_next("w", 5).unwrap().is_none());
    assert_eq!(q.reset_stuck(0, 1_000_000), 0);
    assert_eq!(q.get(id).unwrap().status, QueueStatus::Completed);
}

#[test]
fn requeue_with_reply_hands_the_job_back() {
    let mut q = JobQueue::new();
    let id = q.insert(1, None).unwrap();
    q.claim_next("w", 2).unwrap().unwrap();
    assert_eq!(q.requeue_with_reply(id, "status-1".to_string()), Ok(()));
    let job = q.get(id).unwrap();
    assert_eq!(job.status, QueueStatus::Pending);
    assert_eq!(job.reply.as_deref(), Some("status-1"));
    assert_eq!(job.retry, 0);
    assert_eq!(job.worker_id, None);
    let again = q.claim_next("w2", 3).unwrap().unwrap();
    assert_eq!(again.id, id);
    assert_eq!(again.reply.as_deref(), Some("status-1"));
}

#[test]
fn stuck_recovery() {
    let now = 100 * MINUTE;
    let mut q = JobQueue::new();
    let id = q.insert(now - 31 * MINUTE, Some("r".to_string())).unwrap();
    let claimed = q.claim_next("dead", now - 30 * MINUTE).unwrap().unwrap();
    assert_eq!(claimed.retry, 0);
    assert_eq!(q.reset_stuck(STUCK_TIMEOUT_MINUTES, now), 1);
    let job = q.get(id).unwrap();
    assert_eq!(job.status, QueueStatus::Pending);
    assert_eq!(job.retry, 1);
    assert_eq!(job.worker_id, None);
    let taken = q.claim_next("alive", now).unwrap().unwrap();
    assert_eq!(taken.id, id);
    assert_eq!(taken.worker_id.as_deref(), Some("alive"));
}

#[test]
fn sweep_spares_fresh_jobs() {
    let now = 100 * MINUTE;
    let mut q = JobQueue::new();
    let old = q.insert(1, None).unwrap();
    let fresh = q.insert(2, None).unwrap();
    let edge = q.insert(3, None).unwrap();
    q.claim_next("a", now - 11 * MINUTE).unwrap();
    q.claim_next("b", now - 9 * MINUTE).unwrap();
    q.claim_next("c", now - 10 * MINUTE).unwrap();
    assert_eq!(q.reset_stuck(10, now), 1);
    assert_eq!(q.get(old).unwrap().status, QueueStatus::Pending);
    assert_eq!(q.get(fresh).unwrap().status, QueueStatus::Processing);
    assert_eq!(q.get(edge).unwrap().status, QueueStatus::Processing);
    assert_eq!(q.count_processing(), 2);
    assert_eq!(q.count_pending(), 1);
}

#[test]
fn job_is_not_claimable_once_retries_are_used_up() {
    let mut q = JobQueue::new();
    let id = q.insert(1, None).unwrap();
    for round in 0..MAX_RETRIES {
        let job = q.claim_next("w", 10).unwrap().unwrap();
        assert_eq!(job.retry, round);
        assert_eq!(q.reset_stuck(0, 1_000), 1);
    }
    let job = q.get(id).unwrap();
    assert_eq!(job.status, QueueStatus::Pending);
    assert_eq!(job.retry, MAX_RETRIES);
    assert!(q.claim_next("w", 10).unwrap().is_none());
}

#[test]
fn terminal_retry_never_passes_the_bound() {
    let mut q = JobQueue::new();
    let id = q.insert(1, None).unwrap();
    for _ in 0..2 {
        q.claim_next("w", 10).unwrap().unwrap();
        q.reset_stuck(0, 1_000);
    }
    q.claim_next("w", 10).unwrap().unwrap();
    q.mark_failed(id, "boom".to_string(), 20).unwrap();
    let job = q.get(id).unwrap();
    assert_eq!(job.status, QueueStatus::Failed);
    assert_eq!(job.retry, 3);
    assert!(job.retry <= MAX_RETRIES);
    assert!(job.is_terminally_failed());
    assert!(!job.is_claimable());
}

#[test]
fn processing_job_names_its_worker() {
    let mut q = JobQueue::new();
    let id = q.insert(1, None).unwrap();
    assert_eq!(q.get(id).unwrap().worker_id, None);
    q.claim_next("blp-worker-0", 2).unwrap();
    let job = q.get(id).unwrap();
    assert_eq!(job.status, QueueStatus::Processing);
    assert!(!job.worker_id.unwrap().is_empty());
}

#[test]
fn status_names_are_lower_case() {
    assert_eq!(QueueStatus::Pending.as_str(), "pending");
    assert_eq!(QueueStatus::Processing.as_str(), "processing");
    assert_eq!(QueueStatus::Completed.as_str(), "completed");
    assert_eq!(QueueStatus::Failed.as_str(), "failed");
    assert!(!QueueStatus::Pending.is_terminal());
    assert!(!QueueStatus::Processing.is_terminal());
    assert!(QueueStatus::Failed.is_terminal());
}

#[test]
fn counts_follow_the_statuses() {
    let mut q = JobQueue::new();
    for t in 0..4 {
        q.insert(t, None).unwrap();
    }
    let first = q.claim_next("w", 9).unwrap().unwrap();
    q.claim_next("w", 9).unwrap().unwrap();
    q.mark_completed(first.id, 10).unwrap();
    assert_eq!(q.count_pending(), 2);
    assert_eq!(q.count_processing(), 1);
    assert_eq!(q.count_status(QueueStatus::Completed), 1);
    assert_eq!(q.count_status(QueueStatus::Failed), 0);
    assert_eq!(q.count_total(), 4);
}

#[test]
fn stored_names() {
    for status in [
        QueueStatus::Pending,
        QueueStatus::Processing,
        QueueStatus::Completed,
        QueueStatus::Failed,
    ] {
        assert_eq!(QueueStatus::from_name(status.as_str()), Some(status));
    }
    assert_eq!(QueueStatus::from_name("Pending"), None);
    assert_eq!(QueueStatus::from_name(""), None);
    assert_eq!(
        [
            FIELD_STATUS,
            FIELD_RETRY,
            FIELD_WORKER_ID,
            FIELD_REPLY,
            FIELD_CREATED,
            FIELD_STARTED_AT,
            FIELD_COMPLETED_AT,
            FIELD_ERROR
        ],
        ["status", "retry", "worker_id", "reply", "created", "started_at", "completed_at", "error"]
    );
}

#[test]
fn sweep_cutoff_is_now_minus_timeout() {
    assert_eq!(sweep_cutoff(10, 100 * MINUTE), 90 * MINUTE);
    assert_eq!(sweep_cutoff(0, 5), 5);
    assert_eq!(sweep_cutoff(-1, 0), MINUTE);
    assert_eq!(sweep_cutoff(i64::MAX, i64::MIN), i64::MIN);
    assert_eq!(sweep_cutoff(i64::MIN, i64::MAX), i64::MAX);
}

#[test]
fn fresh_record_is_pending() {
    let r = JobRecord::fresh(7, 123, Some("m".to_string()));
    assert_eq!((r.id, r.status, r.retry, r.created), (7, QueueStatus::Pending, 0, 123));
    assert_eq!(r.reply.as_deref(), Some("m"));
    assert!(r.worker_id.is_none() && r.started.is_none() && r.completed.is_none());
    assert!(r.error.is_none());
    assert!(r.is_claimable());
    assert_eq!(r.duplicate().id, 7);
}
