use raftbot::queue::{QueueError, QueueStatus};
use raftbot::store::{
    claim_command, complete_command, fail_command, held_by_worker, requeue_command,
    sweep_command, with_status, JobFilter, Scope, WorkerChange,
};

#[test]
fn claim_selects_pending_jobs_with_retries_left() {
    let c = claim_command("blp-worker-1", 77).unwrap();
    assert_eq!(c.scope, Scope::Oldest);
    assert_eq!(
        c.filter,
        JobFilter {
            id: None,
            status: Some(QueueStatus::Pending),
            retry_below: Some(3),
            started_before: None
        }
    );
    assert_eq!(c.update.status, Some(QueueStatus::Processing));
    assert!(matches!(&c.update.worker, WorkerChange::Assign(w) if w == "blp-worker-1"));
    assert_eq!(c.update.started_at, Some(77));
    assert_eq!(c.update.completed_at, None);
    assert!(!c.update.count_retry);
    assert!(matches!(claim_command("", 77), Err(QueueError::EmptyWorkerId)));
}

#[test]
fn terminal_commands_name_the_held_job() {
    let done = complete_command(5, 10);
    assert_eq!(done.scope, Scope::One);
    assert_eq!(done.filter, held_by_worker(5));
    assert_eq!(done.filter.id, Some(5));
    assert_eq!(done.filter.status, Some(QueueStatus::Processing));
    assert_eq!(done.update.status, Some(QueueStatus::Completed));
    assert_eq!(done.update.completed_at, Some(10));
    assert!(matches!(done.update.worker, WorkerChange::Clear));
    assert!(!done.update.count_retry);

    let failed = fail_command(5, "boom".to_string(), 11);
    assert_eq!(failed.filter, held_by_worker(5));
    assert_eq!(failed.update.status, Some(QueueStatus::Failed));
    assert_eq!(failed.update.error.as_deref(), Some("boom"));
    assert_eq!(failed.update.completed_at, Some(11));
    assert!(failed.update.count_retry);

    let back = requeue_command(5, "status-9".to_string());
    assert_eq!(back.filter, held_by_worker(5));
    assert_eq!(back.update.status, Some(QueueStatus::Pending));
    assert_eq!(back.update.reply.as_deref(), Some("status-9"));
    assert!(matches!(back.update.worker, WorkerChange::Clear));
    assert!(!back.update.count_retry);
    assert_eq!(back.update.completed_at, None);
}

#[test]
fn sweep_selects_old_processing_jobs() {
    let sweep = sweep_command(10, 1_000_000);
    assert_eq!(sweep.scope, Scope::All);
    assert_eq!(sweep.filter.status, Some(QueueStatus::Processing));
    assert_eq!(sweep.filter.started_before, Some(400_000));
    assert_eq!(sweep.filter.started_bound(), Some(400_000));
    assert_eq!(sweep.update.status, Some(QueueStatus::Pending));
    assert!(matches!(sweep.update.worker, WorkerChange::Clear));
    assert!(sweep.update.count_retry);
    let far = sweep_command(i64::MAX, i64::MIN);
    assert_eq!(far.filter.started_bound(), Some(i64::MIN));
    let near = sweep_command(i64::MIN, i64::MAX);
    assert_eq!(near.filter.started_bound(), Some(i64::MAX));
}

#[test]
fn counting_filters() {
    assert_eq!(with_status(QueueStatus::Failed).status, Some(QueueStatus::Failed));
    assert_eq!(with_status(QueueStatus::Failed).id, None);
    let any = JobFilter::any();
    assert_eq!((any.id, any.status, any.retry_below, any.started_before), (None, None, None, None));
    assert_eq!(any.started_bound(), None);
}
