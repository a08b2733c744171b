//! The commands that the queue engine gives the document store: which
//! jobs a command selects and what it does to them. A store adapter turns
//! each command into one atomic operation of the store, field by field.
use crate::queue::{
    has_id, is_next, none_claimable, queue_op, swept_all, sweep_threshold, JobView, QueueError,
    QueueStatus, MAX_RETRIES,
};
use vstd::prelude::*;

verus! {

/// Which jobs a command selects. Every condition that is set has to hold.
#[derive(Clone, Copy, Debug, PartialEq, Eq, Structural)]
pub struct JobFilter {
    /// The job with this id.
    pub id: Option<u64>,
    /// Jobs with this status.
    pub status: Option<QueueStatus>,
    /// Jobs whose retry count is below this bound.
    pub retry_below: Option<u32>,
    /// Jobs that were claimed before this time.
    pub started_before: Option<i128>,
}

/// What a command does to the worker of a job.
#[derive(Debug)]
pub enum WorkerChange {
    Keep,
    Clear,
    Assign(String),
}

/// What a command does to a job. A field that is not named stays as it
/// is.
#[derive(Debug)]
pub struct JobUpdate {
    pub status: Option<QueueStatus>,
    pub worker: WorkerChange,
    pub started_at: Option<i64>,
    pub completed_at: Option<i64>,
    pub error: Option<String>,
    pub reply: Option<String>,
    /// Whether the retry count goes up by one.
    pub count_retry: bool,
}

/// How many of the selected jobs a command changes.
#[derive(Clone, Copy, Debug, PartialEq, Eq, Structural)]
pub enum Scope {
    /// The one with the earliest creation time; the job comes back as it
    /// stands after the change.
    Oldest,
    /// The one that is selected; at most one is.
    One,
    /// All of them; their number comes back.
    All,
}

/// A command of the queue engine.
#[derive(Debug)]
pub struct JobCommand {
    pub filter: JobFilter,
    pub update: JobUpdate,
    pub scope: Scope,
}

impl JobFilter {
    /// Whether the filter selects the job.
    pub open spec fn selects(self, job: JobView) -> bool {
        &&& self.id matches Some(id) ==> job.id == id
        &&& self.status matches Some(status) ==> job.status == status
        &&& self.retry_below matches Some(bound) ==> job.retry < bound
        &&& self.started_before matches Some(t) ==> (job.started matches Some(s) && s < t)
    }

    /// The time bound of the filter as a time that a store can hold: a
    /// bound beyond the range of times becomes the end of the range.
    pub fn started_bound(&self) -> (r: Option<i64>)
        ensures
            match self.started_before {
                None => r is None,
                Some(t) => r == Some(
                    if t < i64::MIN {
                        i64::MIN
                    } else if t > i64::MAX {
                        i64::MAX
                    } else {
                        t as i64
                    },
                ),
            },
    {
        match self.started_before {
            None => None,
            Some(t) => Some(
                if t < i64::MIN as i128 {
                    i64::MIN
                } else if t > i64::MAX as i128 {
                    i64::MAX
                } else {
                    t as i64
                },
            ),
        }
    }

    /// The filter that selects every job.
    pub fn any() -> (r: JobFilter)
        ensures
            r == (JobFilter { id: None, status: None, retry_below: None, started_before: None }),
            forall|job: JobView| #[trigger] r.selects(job),
    {
        JobFilter { id: None, status: None, retry_below: None, started_before: None }
    }
}

impl JobUpdate {
    /// The job after the update.
    pub open spec fn applied(self, job: JobView) -> JobView {
        JobView {
            status: match self.status {
                Some(s) => s,
                None => job.status,
            },
            worker_id: match self.worker {
                WorkerChange::Keep => job.worker_id,
                WorkerChange::Clear => None,
                WorkerChange::Assign(w) => Some(w@),
            },
            started: match self.started_at {
                Some(t) => Some(t as int),
                None => job.started,
            },
            completed: match self.completed_at {
                Some(t) => Some(t as int),
                None => job.completed,
            },
            error: match self.error {
                Some(e) => Some(e@),
                None => job.error,
            },
            reply: match self.reply {
                Some(r) => Some(r@),
                None => job.reply,
            },
            retry: if self.count_retry {
                job.retry + 1
            } else {
                job.retry
            },
            ..job
        }
    }

    fn status_only(status: QueueStatus, worker: WorkerChange) -> (r: JobUpdate)
        ensures
            r.status == Some(status),
            r.worker == worker,
            r.started_at is None,
            r.completed_at is None,
            r.error is None,
            r.reply is None,
            !r.count_retry,
    {
        JobUpdate {
            status: Some(status),
            worker,
            started_at: None,
            completed_at: None,
            error: None,
            reply: None,
            count_retry: false,
        }
    }
}

impl JobCommand {
    /// Whether `i` is the job that a command with scope `Oldest` changes:
    /// of the selected jobs the one with the earliest creation time, the
    /// one inserted first among equals.
    pub open spec fn oldest_selected(self, jobs: Seq<JobView>, i: int) -> bool {
        &&& 0 <= i < jobs.len()
        &&& self.filter.selects(jobs[i])
        &&& forall|k: int|
            0 <= k < jobs.len() && self.filter.selects(#[trigger] jobs[k]) ==> jobs[i].created
                < jobs[k].created || (jobs[i].created == jobs[k].created && i <= k)
    }

    /// Whether the command selects none of the jobs.
    pub open spec fn selects_none(self, jobs: Seq<JobView>) -> bool {
        forall|k: int| 0 <= k < jobs.len() ==> !self.filter.selects(#[trigger] jobs[k])
    }

    /// The jobs after a command with scope `All`.
    pub open spec fn all_applied(self, jobs: Seq<JobView>) -> Seq<JobView> {
        Seq::new(
            jobs.len(),
            |k: int|
                if self.filter.selects(jobs[k]) {
                    self.update.applied(jobs[k])
                } else {
                    jobs[k]
                },
        )
    }

    /// What it means that a store has run the command as one atomic
    /// operation: `before` and `after` are the jobs of the collection
    /// before and after it.
    pub open spec fn executes(self, before: Seq<JobView>, after: Seq<JobView>) -> bool {
        match self.scope {
            Scope::Oldest => {
                ||| self.selects_none(before) && after == before
                ||| exists|i: int|
                    #[trigger] self.oldest_selected(before, i) && after == before.update(
                        i,
                        self.update.applied(before[i]),
                    )
            },
            Scope::One => {
                ||| self.selects_none(before) && after == before
                ||| exists|i: int|
                    0 <= i < before.len() && self.filter.selects(#[trigger] before[i]) && after
                        == before.update(i, self.update.applied(before[i]))
            },
            Scope::All => after == self.all_applied(before),
        }
    }
}

/// The claim: of the pending jobs whose retries are not used up, the
/// oldest becomes processing for the worker, as of `now`. A claim without
/// a worker id is refused.
pub fn claim_command(worker_id: &str, now: i64) -> (r: Result<JobCommand, QueueError>)
    ensures
        worker_id@.len() == 0 <==> r is Err,
        r matches Err(e) ==> e == QueueError::EmptyWorkerId,
        r matches Ok(command) ==> {
            &&& command.scope == Scope::Oldest
            &&& forall|job: JobView| #[trigger] command.filter.selects(job) <==> job.claimable()
            &&& forall|job: JobView| #[trigger]
                command.update.applied(job) == job.claimed(worker_id@, now as int)
            &&& forall|before: Seq<JobView>, after: Seq<JobView>| #[trigger]
                command.executes(before, after) ==> queue_op(before, after)
        },
{
    if worker_id.unicode_len() == 0 {
        return Err(QueueError::EmptyWorkerId);
    }
    let mut update = JobUpdate::status_only(
        QueueStatus::Processing,
        WorkerChange::Assign(worker_id.to_string()),
    );
    update.started_at = Some(now);
    let command = JobCommand {
        filter: JobFilter {
            id: None,
            status: Some(QueueStatus::Pending),
            retry_below: Some(MAX_RETRIES),
            started_before: None,
        },
        update,
        scope: Scope::Oldest,
    };
    proof {
        assert forall|before: Seq<JobView>, after: Seq<JobView>| #[trigger]
            command.executes(before, after) implies queue_op(before, after) by {
            if !(command.selects_none(before) && after == before) {
                let i = choose|i: int|
                    #[trigger] command.oldest_selected(before, i) && after == before.update(
                        i,
                        command.update.applied(before[i]),
                    );
                assert(is_next(before, i)) by {
                    assert forall|k: int|
                        0 <= k < before.len() && (#[trigger] before[k]).claimable()
                        implies before[i].created < before[k].created || (before[i].created
                        == before[k].created && i <= k) by {
                        assert(command.filter.selects(before[k]));
                    }
                }
                assert(after == before.update(i, before[i].claimed(worker_id@, now as int)));
            }
        }
    }
    Ok(command)
}

/// The filter that selects the job with the given id while a worker holds
/// it.
pub fn held_by_worker(job_id: u64) -> (r: JobFilter)
    ensures
        forall|job: JobView| #[trigger]
            r.selects(job) <==> job.id == job_id && job.status == QueueStatus::Processing,
{
    JobFilter {
        id: Some(job_id),
        status: Some(QueueStatus::Processing),
        retry_below: None,
        started_before: None,
    }
}

/// Completion: the job that a worker holds becomes completed as of `now`
/// and loses its worker.
pub fn complete_command(job_id: u64, now: i64) -> (r: JobCommand)
    ensures
        r.scope == Scope::One,
        forall|job: JobView| #[trigger]
            r.filter.selects(job) <==> job.id == job_id && job.status == QueueStatus::Processing,
        forall|job: JobView| #[trigger] r.update.applied(job) == job.finished(now as int),
        forall|before: Seq<JobView>, after: Seq<JobView>| #[trigger]
            r.executes(before, after) ==> queue_op(before, after),
{
    let mut update = JobUpdate::status_only(QueueStatus::Completed, WorkerChange::Clear);
    update.completed_at = Some(now);
    let command = JobCommand { filter: held_by_worker(job_id), update, scope: Scope::One };
    proof {
        assert forall|before: Seq<JobView>, after: Seq<JobView>| #[trigger]
            command.executes(before, after) implies queue_op(before, after) by {
            if !(command.selects_none(before) && after == before) {
                let i = choose|i: int|
                    0 <= i < before.len() && command.filter.selects(#[trigger] before[i]) && after
                        == before.update(i, command.update.applied(before[i]));
                assert(after == before.update(i, before[i].finished(now as int)));
            }
        }
    }
    command
}

/// Failure: the job that a worker holds becomes failed as of `now`, keeps
/// the error, loses its worker and counts one more retry.
pub fn fail_command(job_id: u64, error: String, now: i64) -> (r: JobCommand)
    ensures
        r.scope == Scope::One,
        forall|job: JobView| #[trigger]
            r.filter.selects(job) <==> job.id == job_id && job.status == QueueStatus::Processing,
        forall|job: JobView| #[trigger] r.update.applied(job) == job.failed(error@, now as int),
        forall|before: Seq<JobView>, after: Seq<JobView>| #[trigger]
            r.executes(before, after) ==> queue_op(before, after),
{
    let mut update = JobUpdate::status_only(QueueStatus::Failed, WorkerChange::Clear);
    update.completed_at = Some(now);
    update.error = Some(error);
    update.count_retry = true;
    let command = JobCommand { filter: held_by_worker(job_id), update, scope: Scope::One };
    proof {
        assert forall|before: Seq<JobView>, after: Seq<JobView>| #[trigger]
            command.executes(before, after) implies queue_op(before, after) by {
            if !(command.selects_none(before) && after == before) {
                let i = choose|i: int|
                    0 <= i < before.len() && command.filter.selects(#[trigger] before[i]) && after
                        == before.update(i, command.update.applied(before[i]));
                assert(after == before.update(i, before[i].failed(error@, now as int)));
            }
        }
    }
    command
}

/// Hand-back: the job that a worker holds gets its status message, loses
/// its worker and becomes pending again, without counting a retry.
pub fn requeue_command(job_id: u64, reply: String) -> (r: JobCommand)
    ensures
        r.scope == Scope::One,
        forall|job: JobView| #[trigger]
            r.filter.selects(job) <==> job.id == job_id && job.status == QueueStatus::Processing,
        forall|job: JobView| #[trigger] r.update.applied(job) == job.requeued(reply@),
        forall|before: Seq<JobView>, after: Seq<JobView>| #[trigger]
            r.executes(before, after) ==> queue_op(before, after),
{
    let mut update = JobUpdate::status_only(QueueStatus::Pending, WorkerChange::Clear);
    update.reply = Some(reply);
    let command = JobCommand { filter: held_by_worker(job_id), update, scope: Scope::One };
    proof {
        assert forall|before: Seq<JobView>, after: Seq<JobView>| #[trigger]
            command.executes(before, after) implies queue_op(before, after) by {
            if !(command.selects_none(before) && after == before) {
                let i = choose|i: int|
                    0 <= i < before.len() && command.filter.selects(#[trigger] before[i]) && after
                        == before.update(i, command.update.applied(before[i]));
                assert(after == before.update(i, before[i].requeued(reply@)));
            }
        }
    }
    command
}

/// The sweep: every job that has been processing since before
/// `timeout_minutes` ago becomes pending again, loses its worker and
/// counts one more retry.
pub fn sweep_command(timeout_minutes: i64, now: i64) -> (r: JobCommand)
    ensures
        r.scope == Scope::All,
        forall|job: JobView| #[trigger]
            r.filter.selects(job) <==> job.stuck(sweep_threshold(timeout_minutes, now)),
        forall|job: JobView| #[trigger] r.update.applied(job) == job.swept(),
        forall|before: Seq<JobView>, after: Seq<JobView>| #[trigger]
            r.executes(before, after) ==> queue_op(before, after),
{
    let span: i128 = (timeout_minutes as i128) * 60_000;
    let threshold: i128 = (now as i128) - span;
    let mut update = JobUpdate::status_only(QueueStatus::Pending, WorkerChange::Clear);
    update.count_retry = true;
    let command = JobCommand {
        filter: JobFilter {
            id: None,
            status: Some(QueueStatus::Processing),
            retry_below: None,
            started_before: Some(threshold),
        },
        update,
        scope: Scope::All,
    };
    proof {
        assert forall|before: Seq<JobView>, after: Seq<JobView>| #[trigger]
            command.executes(before, after) implies queue_op(before, after) by {
            assert(command.all_applied(before) =~= swept_all(
                before,
                sweep_threshold(timeout_minutes, now),
            ));
        }
    }
    command
}

/// The filter that counts the jobs of one status.
pub fn with_status(status: QueueStatus) -> (r: JobFilter)
    ensures
        forall|job: JobView| #[trigger] r.selects(job) <==> job.status == status,
{
    JobFilter { id: None, status: Some(status), retry_below: None, started_before: None }
}

/// The queue engine runs the claim as the store has to: what
/// `JobQueue::claim_next` does to a queue is an execution of the command
/// of `claim_command`.
pub proof fn law_engine_executes_claim(
    command: JobCommand,
    before: Seq<JobView>,
    after: Seq<JobView>,
    worker: Seq<char>,
    now: int,
)
    requires
        command.scope == Scope::Oldest,
        forall|job: JobView| #[trigger] command.filter.selects(job) <==> job.claimable(),
        forall|job: JobView| #[trigger] command.update.applied(job) == job.claimed(worker, now),
        (none_claimable(before) && after == before) || (exists|i: int|
            is_next(before, i) && after == before.update(i, #[trigger] before[i].claimed(worker, now))),
    ensures
        command.executes(before, after),
{
    if !(none_claimable(before) && after == before) {
        let i = choose|i: int|
            is_next(before, i) && after == before.update(i, #[trigger] before[i].claimed(worker, now));
        assert(command.oldest_selected(before, i)) by {
            assert forall|k: int|
                0 <= k < before.len() && command.filter.selects(
                    #[trigger] before[k],
                ) implies before[i].created < before[k].created || (before[i].created
                == before[k].created && i <= k) by {
                assert(before[k].claimable());
            }
        }
        assert(after == before.update(i, command.update.applied(before[i])));
    } else {
        assert(command.selects_none(before)) by {
            assert forall|k: int| 0 <= k < before.len() implies !command.filter.selects(
                #[trigger] before[k],
            ) by {
                assert(!before[k].claimable());
            }
        }
    }
}

/// The queue engine runs a command on the job that a worker holds as the
/// store has to: what `JobQueue::mark_completed`, `mark_failed` and
/// `requeue_with_reply` do to a queue, or leave undone where no worker
/// holds the job, is an execution of the command.
pub proof fn law_engine_executes_on_held_job(
    command: JobCommand,
    before: Seq<JobView>,
    after: Seq<JobView>,
    job_id: u64,
)
    requires
        command.scope == Scope::One,
        forall|job: JobView| #[trigger]
            command.filter.selects(job) <==> job.id == job_id && job.status
                == QueueStatus::Processing,
        (after == before && forall|k: int|
            0 <= k < before.len() ==> !((#[trigger] before[k]).id == job_id && before[k].status
                == QueueStatus::Processing)) || (exists|i: int|
            has_id(before, job_id as nat, i) && before[i].status == QueueStatus::Processing
                && after == before.update(i, #[trigger] command.update.applied(before[i]))),
    ensures
        command.executes(before, after),
{
    if exists|i: int|
        has_id(before, job_id as nat, i) && before[i].status == QueueStatus::Processing && after
            == before.update(i, #[trigger] command.update.applied(before[i])) {
        let i = choose|i: int|
            has_id(before, job_id as nat, i) && before[i].status == QueueStatus::Processing
                && after == before.update(i, #[trigger] command.update.applied(before[i]));
        assert(command.filter.selects(before[i]));
    } else {
        assert(command.selects_none(before)) by {
            assert forall|k: int| 0 <= k < before.len() implies !command.filter.selects(
                #[trigger] before[k],
            ) by {
                assert(!(before[k].id == job_id && before[k].status == QueueStatus::Processing));
            }
        }
    }
}

/// The queue engine runs the sweep as the store has to: what
/// `JobQueue::reset_stuck` does to a queue is an execution of the command
/// of `sweep_command`.
pub proof fn law_engine_executes_sweep(
    command: JobCommand,
    before: Seq<JobView>,
    after: Seq<JobView>,
    threshold: int,
)
    requires
        command.scope == Scope::All,
        forall|job: JobView| #[trigger] command.filter.selects(job) <==> job.stuck(threshold),
        forall|job: JobView| #[trigger] command.update.applied(job) == job.swept(),
        after == swept_all(before, threshold),
    ensures
        command.executes(before, after),
{
    assert(command.all_applied(before) =~= swept_all(before, threshold));
}

} // verus!
