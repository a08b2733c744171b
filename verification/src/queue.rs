//! The queue engine of one pool: job records, the status transitions that
//! the engine allows, atomic claim in FIFO order, terminal marking and the
//! sweep that rescues stuck jobs.
//!
//! `JobQueue` keeps the records of one pool in memory and fixes what every
//! store adapter has to do: each operation is one atomic step on the whole
//! collection.
use crate::text::opt_text;
use vstd::prelude::*;

verus! {

/// A job is never claimed once its retry count has reached this bound.
pub const MAX_RETRIES: u32 = 3;

/// Age, in minutes, after which the start-up sweep takes a job back from
/// its worker.
pub const STUCK_TIMEOUT_MINUTES: i64 = 10;

/// Milliseconds in one minute.
pub const MILLIS_PER_MINUTE: i64 = 60_000;

/// Name of the field that holds the status of a stored job.
pub const FIELD_STATUS: &'static str = "status";

/// Name of the field that holds the retry count.
pub const FIELD_RETRY: &'static str = "retry";

/// Name of the field that holds the id of the worker.
pub const FIELD_WORKER_ID: &'static str = "worker_id";

/// Name of the field that holds the id of the status message.
pub const FIELD_REPLY: &'static str = "reply";

/// Name of the field that holds the creation time.
pub const FIELD_CREATED: &'static str = "created";

/// Name of the field that holds the time of the latest claim.
pub const FIELD_STARTED_AT: &'static str = "started_at";

/// Name of the field that holds the time of completion.
pub const FIELD_COMPLETED_AT: &'static str = "completed_at";

/// Name of the field that holds the last error.
pub const FIELD_ERROR: &'static str = "error";

/// Life-cycle state of a job.
#[derive(Clone, Copy, Debug, PartialEq, Eq, Structural)]
pub enum QueueStatus {
    Pending,
    Processing,
    Completed,
    Failed,
}

impl QueueStatus {
    /// Whether no further transition leaves this status.
    pub open spec fn terminal(self) -> bool {
        self == QueueStatus::Completed || self == QueueStatus::Failed
    }

    /// Whether no further transition leaves this status.
    pub fn is_terminal(&self) -> (r: bool)
        ensures
            r == self.terminal(),
    {
        match self {
            QueueStatus::Completed => true,
            QueueStatus::Failed => true,
            _ => false,
        }
    }

    /// The lower-case name under which the status is stored.
    pub open spec fn name(self) -> Seq<char> {
        match self {
            QueueStatus::Pending => "pending"@,
            QueueStatus::Processing => "processing"@,
            QueueStatus::Completed => "completed"@,
            QueueStatus::Failed => "failed"@,
        }
    }

    /// The status that is stored under the given name.
    pub fn from_name(name: &str) -> (r: Option<QueueStatus>)
        ensures
            r matches Some(status) ==> status.name() == name@,
            r is None ==> forall|status: QueueStatus| #[trigger] status.name() != name@,
    {
        if crate::text::str_eq(name, "pending") {
            Some(QueueStatus::Pending)
        } else if crate::text::str_eq(name, "processing") {
            Some(QueueStatus::Processing)
        } else if crate::text::str_eq(name, "completed") {
            Some(QueueStatus::Completed)
        } else if crate::text::str_eq(name, "failed") {
            Some(QueueStatus::Failed)
        } else {
            None
        }
    }

    /// The lower-case name under which the status is stored.
    pub fn as_str(&self) -> (s: &'static str)
        ensures
            s@ == self.name(),
    {
        match self {
            QueueStatus::Pending => "pending",
            QueueStatus::Processing => "processing",
            QueueStatus::Completed => "completed",
            QueueStatus::Failed => "failed",
        }
    }
}

/// The edges of the status graph: `pending -> processing`,
/// `processing -> completed | failed`, and `processing -> pending` when a
/// job is handed back.
pub open spec fn status_edge(from: QueueStatus, to: QueueStatus) -> bool {
    ||| from == QueueStatus::Pending && to == QueueStatus::Processing
    ||| from == QueueStatus::Processing && to == QueueStatus::Completed
    ||| from == QueueStatus::Processing && to == QueueStatus::Failed
    ||| from == QueueStatus::Processing && to == QueueStatus::Pending
}

/// One operation leaves a status as it is or follows one edge.
pub open spec fn status_step(from: QueueStatus, to: QueueStatus) -> bool {
    from == to || status_edge(from, to)
}

/// A sequence of statuses, observed after each operation of the engine,
/// that starts at `pending` and from one observation to the next stays
/// where it is or follows one edge of the status graph.
pub open spec fn status_history(h: Seq<QueueStatus>) -> bool {
    &&& h.len() > 0
    &&& h[0] == QueueStatus::Pending
    &&& forall|k: int| 0 <= k < h.len() - 1 ==> status_step(#[trigger] h[k], h[k + 1])
}

/// The control record of one job.
#[derive(Debug)]
pub struct JobRecord {
    /// Identity, assigned at insert.
    pub id: u64,
    pub status: QueueStatus,
    /// How often the job was failed or taken back from a worker.
    pub retry: u32,
    /// The worker that holds the job; present exactly while it is processing.
    pub worker_id: Option<String>,
    /// Id of the status message that the processor edits.
    pub reply: Option<String>,
    /// Creation time, milliseconds since the epoch.
    pub created: i64,
    /// Time of the latest claim.
    pub started: Option<i64>,
    /// Time at which the job reached a terminal status.
    pub completed: Option<i64>,
    /// The last error.
    pub error: Option<String>,
}

/// Mathematical model of a `JobRecord`.
pub ghost struct JobView {
    pub id: nat,
    pub status: QueueStatus,
    pub retry: nat,
    pub worker_id: Option<Seq<char>>,
    pub reply: Option<Seq<char>>,
    pub created: int,
    pub started: Option<int>,
    pub completed: Option<int>,
    pub error: Option<Seq<char>>,
}

impl View for JobRecord {
    type V = JobView;

    open spec fn view(&self) -> JobView {
        JobView {
            id: self.id as nat,
            status: self.status,
            retry: self.retry as nat,
            worker_id: opt_text(self.worker_id),
            reply: opt_text(self.reply),
            created: self.created as int,
            started: match self.started {
                Some(t) => Some(t as int),
                None => None,
            },
            completed: match self.completed {
                Some(t) => Some(t as int),
                None => None,
            },
            error: opt_text(self.error),
        }
    }
}

impl JobView {
    /// The record invariant: the retry bound, a non-empty worker id exactly
    /// while processing, a start time while processing, and a completion
    /// time only in a terminal status.
    pub open spec fn wf(self) -> bool {
        &&& self.retry <= MAX_RETRIES
        &&& self.status == QueueStatus::Processing ==> self.retry < MAX_RETRIES
        &&& self.status == QueueStatus::Processing <==> self.worker_id is Some
        &&& self.worker_id matches Some(w) ==> w.len() > 0
        &&& self.status == QueueStatus::Processing ==> self.started is Some
        &&& self.completed is Some ==> self.status.terminal()
        &&& self.id <= u64::MAX
        &&& i64::MIN <= self.created <= i64::MAX
    }

    /// Whether a worker may claim the job.
    pub open spec fn claimable(self) -> bool {
        self.status == QueueStatus::Pending && self.retry < MAX_RETRIES
    }

    /// Whether the sweep with the given start-time threshold takes the job
    /// back.
    pub open spec fn stuck(self, threshold: int) -> bool {
        &&& self.status == QueueStatus::Processing
        &&& self.started matches Some(t) && t < threshold
    }

    /// The record as inserted.
    pub open spec fn fresh(id: nat, created: int, reply: Option<Seq<char>>) -> JobView {
        JobView {
            id,
            status: QueueStatus::Pending,
            retry: 0,
            worker_id: None,
            reply,
            created,
            started: None,
            completed: None,
            error: None,
        }
    }

    /// The record after `worker` claimed it at `now`.
    pub open spec fn claimed(self, worker: Seq<char>, now: int) -> JobView {
        JobView {
            status: QueueStatus::Processing,
            worker_id: Some(worker),
            started: Some(now),
            ..self
        }
    }

    /// The record after it completed at `now`.
    pub open spec fn finished(self, now: int) -> JobView {
        JobView {
            status: QueueStatus::Completed,
            worker_id: None,
            completed: Some(now),
            ..self
        }
    }

    /// The record after it failed with `error` at `now`.
    pub open spec fn failed(self, error: Seq<char>, now: int) -> JobView {
        JobView {
            status: QueueStatus::Failed,
            worker_id: None,
            error: Some(error),
            completed: Some(now),
            retry: self.retry + 1,
            ..self
        }
    }

    /// The record after the sweep took it back.
    pub open spec fn swept(self) -> JobView {
        JobView { status: QueueStatus::Pending, worker_id: None, retry: self.retry + 1, ..self }
    }

    /// The record after its worker posted the status message `reply` and
    /// handed the job back.
    pub open spec fn requeued(self, reply: Seq<char>) -> JobView {
        JobView { status: QueueStatus::Pending, worker_id: None, reply: Some(reply), ..self }
    }

    /// A failed job that will never run again.
    pub open spec fn terminally_failed(self) -> bool {
        self.status == QueueStatus::Failed && self.retry >= MAX_RETRIES
    }
}

/// Why the engine refused an operation.
#[derive(Clone, Copy, Debug, PartialEq, Eq, Structural)]
pub enum QueueError {
    /// A claim without a worker id.
    EmptyWorkerId,
    /// No job has the given id.
    UnknownJob,
    /// The job is not held by a worker.
    NotProcessing,
    /// No further id can be assigned.
    Exhausted,
}

/// Index of the job with the given id, if there is one.
pub open spec fn has_id(q: Seq<JobView>, id: nat, i: int) -> bool {
    0 <= i < q.len() && q[i].id == id
}

/// Whether a worker holds the job with the given id: there is such a job
/// and it is processing.
pub open spec fn held(q: Seq<JobView>, id: nat) -> bool {
    exists|i: int| has_id(q, id, i) && (#[trigger] q[i]).status == QueueStatus::Processing
}

/// FIFO order at the point of claim: `i` is the claimable job with the
/// earliest creation time, the one inserted first among equals.
pub open spec fn is_next(q: Seq<JobView>, i: int) -> bool {
    &&& 0 <= i < q.len()
    &&& q[i].claimable()
    &&& forall|k: int|
        0 <= k < q.len() && (#[trigger] q[k]).claimable() ==> q[i].created < q[k].created || (
        q[i].created == q[k].created && i <= k)
}

/// Whether no job can be claimed.
pub open spec fn none_claimable(q: Seq<JobView>) -> bool {
    forall|k: int| 0 <= k < q.len() ==> !(#[trigger] q[k]).claimable()
}

/// The start time before which the sweep at `now` takes a job back.
pub open spec fn sweep_threshold(timeout_minutes: i64, now: i64) -> int {
    now as int - timeout_minutes as int * MILLIS_PER_MINUTE as int
}

/// The start time before which the sweep at `now` takes a job back, as far
/// as it can be written as a time.
pub fn sweep_cutoff(timeout_minutes: i64, now: i64) -> (r: i64)
    ensures
        r == if sweep_threshold(timeout_minutes, now) < i64::MIN {
            i64::MIN as int
        } else if sweep_threshold(timeout_minutes, now) > i64::MAX {
            i64::MAX as int
        } else {
            sweep_threshold(timeout_minutes, now)
        },
{
    let span: i128 = (timeout_minutes as i128) * 60_000;
    let t: i128 = (now as i128) - span;
    if t < i64::MIN as i128 {
        i64::MIN
    } else if t > i64::MAX as i128 {
        i64::MAX
    } else {
        t as i64
    }
}

/// The queue after the sweep with the given threshold.
pub open spec fn swept_all(q: Seq<JobView>, threshold: int) -> Seq<JobView> {
    Seq::new(
        q.len(),
        |k: int|
            if q[k].stuck(threshold) {
                q[k].swept()
            } else {
                q[k]
            },
    )
}

/// How many of the first `n` jobs the sweep with the given threshold takes
/// back.
pub open spec fn stuck_count(q: Seq<JobView>, threshold: int, n: int) -> nat
    decreases n,
{
    if n <= 0 {
        0
    } else {
        stuck_count(q, threshold, n - 1) + if q[n - 1].stuck(threshold) {
            1nat
        } else {
            0nat
        }
    }
}

/// How many of the first `n` jobs have the given status.
pub open spec fn status_count(q: Seq<JobView>, status: QueueStatus, n: int) -> nat
    decreases n,
{
    if n <= 0 {
        0
    } else {
        status_count(q, status, n - 1) + if q[n - 1].status == status {
            1nat
        } else {
            0nat
        }
    }
}

/// The invariant of the jobs of a queue: every record is well formed and
/// ids are assigned once, in increasing order.
pub open spec fn jobs_wf(q: Seq<JobView>) -> bool {
    &&& forall|k: int| 0 <= k < q.len() ==> (#[trigger] q[k]).wf()
    &&& forall|j: int, k: int| 0 <= j < k < q.len() ==> (#[trigger] q[j]).id < (#[trigger] q[k]).id
}

/// The invariant of a queue: that of its jobs, and every id is below the
/// one that the next insert assigns.
pub open spec fn queue_wf(q: Seq<JobView>, next_id: nat) -> bool {
    &&& jobs_wf(q)
    &&& forall|k: int| 0 <= k < q.len() ==> (#[trigger] q[k]).id < next_id
}

/// In a well-formed queue the job at the one position with a given id
/// decides whether a worker holds the job of that id.
proof fn lemma_held_at(q: Seq<JobView>, next_id: nat, id: nat, i: int)
    requires
        queue_wf(q, next_id),
        has_id(q, id, i),
    ensures
        held(q, id) <==> q[i].status == QueueStatus::Processing,
{
    if held(q, id) {
        let k = choose|k: int| has_id(q, id, k) && (#[trigger] q[k]).status == QueueStatus::Processing;
        if k < i {
            assert(q[k].id < q[i].id);
        } else if i < k {
            assert(q[i].id < q[k].id);
        }
    }
}

/// Mathematical model of a `JobQueue`.
pub ghost struct QueueView {
    /// The jobs, in the order of their insertion.
    pub jobs: Seq<JobView>,
    /// The id that the next insert assigns.
    pub next_id: nat,
}

/// The jobs of one pool, in the order of their insertion.
#[derive(Debug)]
pub struct JobQueue {
    jobs: Vec<JobRecord>,
    next_id: u64,
}

impl View for JobQueue {
    type V = QueueView;

    closed spec fn view(&self) -> QueueView {
        QueueView {
            jobs: Seq::new(self.jobs@.len(), |k: int| self.jobs@[k]@),
            next_id: self.next_id as nat,
        }
    }
}

impl JobQueue {
    /// The queue invariant. A new queue meets it and every operation
    /// keeps it.
    pub open spec fn wf(&self) -> bool {
        queue_wf(self@.jobs, self@.next_id)
    }

    /// An empty queue.
    pub fn new() -> (q: JobQueue)
        ensures
            q@.jobs == Seq::<JobView>::empty(),
            q@.next_id == 1,
            q.wf(),
    {
        let q = JobQueue { jobs: Vec::new(), next_id: 1 };
        assert(q@.jobs =~= Seq::<JobView>::empty());
        q
    }

    /// Number of jobs ever inserted.
    pub fn len(&self) -> (n: usize)
        ensures
            n == self@.jobs.len(),
    {
        self.jobs.len()
    }

    /// Inserts a pending job created at `created`, with the id of its status
    /// message if one was posted, and returns the id of the job.
    pub fn insert(&mut self, created: i64, reply: Option<String>) -> (r: Result<u64, QueueError>)
        requires
            old(self).wf(),
        ensures
            final(self).wf(),
            queue_op(old(self)@.jobs, final(self)@.jobs),
            match r {
                Ok(id) => {
                    &&& id == old(self)@.next_id
                    &&& final(self)@.next_id == id + 1
                    &&& final(self)@.jobs == old(self)@.jobs.push(
                        JobView::fresh(id as nat, created as int, opt_text(reply)),
                    )
                },
                Err(e) => {
                    &&& e == QueueError::Exhausted
                    &&& old(self)@.next_id == u64::MAX
                    &&& final(self)@.jobs == old(self)@.jobs
                    &&& final(self)@.next_id == old(self)@.next_id
                },
            },
    {
        if self.next_id == u64::MAX {
            return Err(QueueError::Exhausted);
        }
        let id = self.next_id;
        let record = JobRecord::fresh(id, created, reply);
        self.jobs.push(record);
        self.next_id = id + 1;
        assert(self@.jobs =~= old(self)@.jobs.push(
            JobView::fresh(id as nat, created as int, opt_text(reply)),
        ));
        Ok(id)
    }

    /// Position of the job with the given id.
    fn find(&self, job_id: u64) -> (r: Option<usize>)
        ensures
            match r {
                Some(i) => has_id(self@.jobs, job_id as nat, i as int),
                None => forall|k: int| 0 <= k < self@.jobs.len() ==> (#[trigger] self@.jobs[k]).id != job_id,
            },
    {
        let mut i: usize = 0;
        while i < self.jobs.len()
            invariant
                i <= self.jobs.len(),
                forall|k: int| 0 <= k < i ==> (#[trigger] self@.jobs[k]).id != job_id,
            decreases self.jobs.len() - i,
        {
            if self.jobs[i].id == job_id {
                return Some(i);
            }
            i += 1;
        }
        None
    }

    /// Position of the job that the next claim takes.
    fn next_claimable(&self) -> (r: Option<usize>)
        ensures
            match r {
                Some(i) => is_next(self@.jobs, i as int),
                None => none_claimable(self@.jobs),
            },
    {
        let mut best: Option<usize> = None;
        let mut i: usize = 0;
        while i < self.jobs.len()
            invariant
                i <= self.jobs.len(),
                match best {
                    Some(b) => b < i && is_next(self@.jobs.take(i as int), b as int),
                    None => none_claimable(self@.jobs.take(i as int)),
                },
            decreases self.jobs.len() - i,
        {
            let ghost before = self@.jobs.take(i as int);
            let ghost after = self@.jobs.take(i + 1);
            assert(forall|k: int| 0 <= k < i ==> after[k] == before[k]);
            assert(after[i as int] == self@.jobs[i as int]);
            let job = &self.jobs[i];
            let claimable = match job.status {
                QueueStatus::Pending => job.retry < MAX_RETRIES,
                _ => false,
            };
            if claimable {
                match best {
                    Some(b) => {
                        if job.created < self.jobs[b].created {
                            best = Some(i);
                        }
                    },
                    None => {
                        best = Some(i);
                    },
                }
            }
            i += 1;
        }
        assert(self@.jobs.take(self.jobs.len() as int) =~= self@.jobs);
        best
    }

    /// Atomically claims the oldest pending job whose retry count is below
    /// `MAX_RETRIES` for `worker_id`, and returns the record as it stands
    /// after the claim.
    pub fn claim_next(&mut self, worker_id: &str, now: i64) -> (r: Result<
        Option<JobRecord>,
        QueueError,
    >)
        requires
            old(self).wf(),
        ensures
            final(self).wf(),
            final(self)@.next_id == old(self)@.next_id,
            queue_op(old(self)@.jobs, final(self)@.jobs),
            match r {
                Ok(Some(job)) => exists|i: int|
                    {
                        &&& is_next(old(self)@.jobs, i)
                        &&& job@ == old(self)@.jobs[i].claimed(worker_id@, now as int)
                        &&& final(self)@.jobs == old(self)@.jobs.update(i, job@)
                    },
                Ok(None) => {
                    &&& worker_id@.len() > 0
                    &&& none_claimable(old(self)@.jobs)
                    &&& final(self)@.jobs == old(self)@.jobs
                },
                Err(e) => {
                    &&& e == QueueError::EmptyWorkerId
                    &&& worker_id@.len() == 0
                    &&& final(self)@.jobs == old(self)@.jobs
                },
            },
            worker_id@.len() > 0 ==> r is Ok,
    {
        if worker_id.unicode_len() == 0 {
            return Err(QueueError::EmptyWorkerId);
        }
        match self.next_claimable() {
            None => Ok(None),
            Some(i) => {
                let worker = worker_id.to_string();
                self.jobs[i].status = QueueStatus::Processing;
                self.jobs[i].worker_id = Some(worker);
                self.jobs[i].started = Some(now);
                let job = self.jobs[i].duplicate();
                assert(self@.jobs =~= old(self)@.jobs.update(i as int, job@));
                assert(job@ == old(self)@.jobs[i as int].claimed(worker_id@, now as int));
                assert(is_next(old(self)@.jobs, i as int));
                Ok(Some(job))
            },
        }
    }

    /// Marks the job that a worker holds as completed at `now`.
    pub fn mark_completed(&mut self, job_id: u64, now: i64) -> (r: Result<(), QueueError>)
        requires
            old(self).wf(),
        ensures
            final(self).wf(),
            final(self)@.next_id == old(self)@.next_id,
            queue_op(old(self)@.jobs, final(self)@.jobs),
            match r {
                Ok(()) => exists|i: int|
                    {
                        &&& has_id(old(self)@.jobs, job_id as nat, i)
                        &&& old(self)@.jobs[i].status == QueueStatus::Processing
                        &&& final(self)@.jobs == old(self)@.jobs.update(i, old(self)@.jobs[i].finished(now as int))
                    },
                Err(e) => {
                    &&& final(self)@.jobs == old(self)@.jobs
                    &&& e == QueueError::UnknownJob || e == QueueError::NotProcessing
                    &&& e == QueueError::UnknownJob <==> forall|k: int|
                        0 <= k < old(self)@.jobs.len() ==> (#[trigger] old(self)@.jobs[k]).id != job_id
                },
            },
            held(old(self)@.jobs, job_id as nat) ==> r is Ok,
    {
        match self.find(job_id) {
            None => Err(QueueError::UnknownJob),
            Some(i) => {
                proof {
                    lemma_held_at(self@.jobs, self@.next_id, job_id as nat, i as int);
                }
                match self.jobs[i].status {
                    QueueStatus::Processing => {
                        self.jobs[i].status = QueueStatus::Completed;
                        self.jobs[i].worker_id = None;
                        self.jobs[i].completed = Some(now);
                        assert(self@.jobs =~= old(self)@.jobs.update(
                            i as int,
                            old(self)@.jobs[i as int].finished(now as int),
                        ));
                        Ok(())
                    },
                    _ => Err(QueueError::NotProcessing),
                }
            },
        }
    }

    /// Marks the job that a worker holds as failed at `now`, records the
    /// error and counts one more retry.
    pub fn mark_failed(&mut self, job_id: u64, error: String, now: i64) -> (r: Result<
        (),
        QueueError,
    >)
        requires
            old(self).wf(),
        ensures
            final(self).wf(),
            final(self)@.next_id == old(self)@.next_id,
            queue_op(old(self)@.jobs, final(self)@.jobs),
            match r {
                Ok(()) => exists|i: int|
                    {
                        &&& has_id(old(self)@.jobs, job_id as nat, i)
                        &&& old(self)@.jobs[i].status == QueueStatus::Processing
                        &&& final(self)@.jobs == old(self)@.jobs.update(
                            i,
                            old(self)@.jobs[i].failed(error@, now as int),
                        )
                    },
                Err(e) => {
                    &&& final(self)@.jobs == old(self)@.jobs
                    &&& e == QueueError::UnknownJob || e == QueueError::NotProcessing
                    &&& e == QueueError::UnknownJob <==> forall|k: int|
                        0 <= k < old(self)@.jobs.len() ==> (#[trigger] old(self)@.jobs[k]).id != job_id
                },
            },
            held(old(self)@.jobs, job_id as nat) ==> r is Ok,
    {
        match self.find(job_id) {
            None => Err(QueueError::UnknownJob),
            Some(i) => {
                proof {
                    lemma_held_at(self@.jobs, self@.next_id, job_id as nat, i as int);
                }
                match self.jobs[i].status {
                    QueueStatus::Processing => {
                        let retry = self.jobs[i].retry;
                        self.jobs[i].status = QueueStatus::Failed;
                        self.jobs[i].worker_id = None;
                        self.jobs[i].error = Some(error);
                        self.jobs[i].completed = Some(now);
                        self.jobs[i].retry = retry + 1;
                        assert(self@.jobs =~= old(self)@.jobs.update(
                            i as int,
                            old(self)@.jobs[i as int].failed(error@, now as int),
                        ));
                        Ok(())
                    },
                    _ => Err(QueueError::NotProcessing),
                }
            },
        }
    }

    /// Records the status message that the worker posted for the job it
    /// holds and hands the job back as pending, without counting a retry.
    pub fn requeue_with_reply(&mut self, job_id: u64, reply: String) -> (r: Result<
        (),
        QueueError,
    >)
        requires
            old(self).wf(),
        ensures
            final(self).wf(),
            final(self)@.next_id == old(self)@.next_id,
            queue_op(old(self)@.jobs, final(self)@.jobs),
            match r {
                Ok(()) => exists|i: int|
                    {
                        &&& has_id(old(self)@.jobs, job_id as nat, i)
                        &&& old(self)@.jobs[i].status == QueueStatus::Processing
                        &&& final(self)@.jobs == old(self)@.jobs.update(i, old(self)@.jobs[i].requeued(reply@))
                    },
                Err(e) => {
                    &&& final(self)@.jobs == old(self)@.jobs
                    &&& e == QueueError::UnknownJob || e == QueueError::NotProcessing
                    &&& e == QueueError::UnknownJob <==> forall|k: int|
                        0 <= k < old(self)@.jobs.len() ==> (#[trigger] old(self)@.jobs[k]).id != job_id
                },
            },
            held(old(self)@.jobs, job_id as nat) ==> r is Ok,
    {
        match self.find(job_id) {
            None => Err(QueueError::UnknownJob),
            Some(i) => {
                proof {
                    lemma_held_at(self@.jobs, self@.next_id, job_id as nat, i as int);
                }
                match self.jobs[i].status {
                    QueueStatus::Processing => {
                        self.jobs[i].status = QueueStatus::Pending;
                        self.jobs[i].worker_id = None;
                        self.jobs[i].reply = Some(reply);
                        assert(self@.jobs =~= old(self)@.jobs.update(
                            i as int,
                            old(self)@.jobs[i as int].requeued(reply@),
                        ));
                        Ok(())
                    },
                    _ => Err(QueueError::NotProcessing),
                }
            },
        }
    }

    /// The sweep: every processing job that started more than
    /// `timeout_minutes` before `now` becomes pending again, loses its
    /// worker and counts one more retry. Returns how many jobs were taken
    /// back.
    pub fn reset_stuck(&mut self, timeout_minutes: i64, now: i64) -> (n: usize)
        requires
            old(self).wf(),
        ensures
            final(self).wf(),
            final(self)@.next_id == old(self)@.next_id,
            queue_op(old(self)@.jobs, final(self)@.jobs),
            final(self)@.jobs == swept_all(old(self)@.jobs, sweep_threshold(timeout_minutes, now)),
            n == stuck_count(
                old(self)@.jobs,
                sweep_threshold(timeout_minutes, now),
                old(self)@.jobs.len() as int,
            ),
    {
        let threshold: i128 = (now as i128) - (timeout_minutes as i128) * (MILLIS_PER_MINUTE as i128);
        let ghost target = swept_all(old(self)@.jobs, threshold as int);
        let mut count: usize = 0;
        let mut i: usize = 0;
        while i < self.jobs.len()
            invariant
                i <= self.jobs.len(),
                self.jobs.len() == old(self).jobs.len(),
                self.next_id == old(self).next_id,
                old(self).wf(),
                target == swept_all(old(self)@.jobs, threshold as int),
                count == stuck_count(old(self)@.jobs, threshold as int, i as int),
                count <= i,
                forall|k: int| 0 <= k < i ==> (#[trigger] self@.jobs[k]) == target[k],
                forall|k: int| i <= k < self.jobs.len() ==> (#[trigger] self@.jobs[k]) == old(self)@.jobs[k],
            decreases self.jobs.len() - i,
        {
            let ghost before = self@.jobs;
            assert(self.jobs@[i as int]@ == self@.jobs[i as int]);
            assert(self@.jobs[i as int] == old(self)@.jobs[i as int]);
            let stuck = match self.jobs[i].status {
                QueueStatus::Processing => match self.jobs[i].started {
                    Some(t) => (t as i128) < threshold,
                    None => false,
                },
                _ => false,
            };
            assert(stuck == old(self)@.jobs[i as int].stuck(threshold as int));
            if stuck {
                assert(old(self)@.jobs[i as int].wf());
                let retry = self.jobs[i].retry;
                self.jobs[i].status = QueueStatus::Pending;
                self.jobs[i].worker_id = None;
                self.jobs[i].retry = retry + 1;
                count += 1;
                assert(self@.jobs[i as int] == old(self)@.jobs[i as int].swept());
                assert(forall|k: int| 0 <= k < self@.jobs.len() && k != i ==> self@.jobs[k] == before[k]);
            }
            assert(self@.jobs[i as int] == target[i as int]);
            assert forall|k: int| 0 <= k < i + 1 implies (#[trigger] self@.jobs[k]) == target[k] by {
                if k < i {
                    assert(self@.jobs[k] == before[k]);
                }
            }
            assert forall|k: int| i + 1 <= k < self.jobs.len() implies (#[trigger] self@.jobs[k]) == old(
                self,
            )@.jobs[k] by {
                assert(self@.jobs[k] == before[k]);
            }
            i += 1;
        }
        assert(self@.jobs =~= target);
        assert forall|k: int| 0 <= k < self@.jobs.len() implies (#[trigger] self@.jobs[k]).wf() by {
            assert(old(self)@.jobs[k].wf());
        }
        assert forall|j: int, k: int| 0 <= j < k < self@.jobs.len() implies (#[trigger] self@.jobs[j]).id < (
        #[trigger] self@.jobs[k]).id by {
            assert(old(self)@.jobs[j].id < old(self)@.jobs[k].id);
        }
        assert forall|k: int| 0 <= k < self@.jobs.len() implies (#[trigger] self@.jobs[k]).id
            < self@.next_id by {
            assert(old(self)@.jobs[k].id < old(self)@.next_id);
        }
        count
    }

    /// Number of jobs with the given status.
    pub fn count_status(&self, status: QueueStatus) -> (n: usize)
        ensures
            n == status_count(self@.jobs, status, self@.jobs.len() as int),
    {
        let mut count: usize = 0;
        let mut i: usize = 0;
        while i < self.jobs.len()
            invariant
                i <= self.jobs.len(),
                count <= i,
                count == status_count(self@.jobs, status, i as int),
            decreases self.jobs.len() - i,
        {
            if self.jobs[i].status == status {
                count += 1;
            }
            i += 1;
        }
        count
    }

    /// Number of pending jobs.
    pub fn count_pending(&self) -> (n: usize)
        ensures
            n == status_count(self@.jobs, QueueStatus::Pending, self@.jobs.len() as int),
    {
        self.count_status(QueueStatus::Pending)
    }

    /// Number of jobs that workers hold.
    pub fn count_processing(&self) -> (n: usize)
        ensures
            n == status_count(self@.jobs, QueueStatus::Processing, self@.jobs.len() as int),
    {
        self.count_status(QueueStatus::Processing)
    }

    /// Number of jobs ever inserted.
    pub fn count_total(&self) -> (n: usize)
        ensures
            n == self@.jobs.len(),
    {
        self.jobs.len()
    }

    /// A copy of the record with the given id.
    pub fn get(&self, job_id: u64) -> (r: Option<JobRecord>)
        ensures
            match r {
                Some(job) => exists|i: int| has_id(self@.jobs, job_id as nat, i) && job@ == self@.jobs[i],
                None => forall|k: int| 0 <= k < self@.jobs.len() ==> (#[trigger] self@.jobs[k]).id != job_id,
            },
    {
        match self.find(job_id) {
            None => None,
            Some(i) => Some(self.jobs[i].duplicate()),
        }
    }
}

impl JobRecord {
    /// The record of a job as it is inserted: pending, without retries,
    /// worker, times or error.
    pub fn fresh(id: u64, created: i64, reply: Option<String>) -> (r: JobRecord)
        ensures
            r@ == JobView::fresh(id as nat, created as int, opt_text(reply)),
            r@.wf(),
    {
        JobRecord {
            id,
            status: QueueStatus::Pending,
            retry: 0,
            worker_id: None,
            reply,
            created,
            started: None,
            completed: None,
            error: None,
        }
    }

    /// Whether the job failed for good: it is failed and its retries are
    /// used up.
    pub fn is_terminally_failed(&self) -> (r: bool)
        ensures
            r == self@.terminally_failed(),
    {
        match self.status {
            QueueStatus::Failed => self.retry >= MAX_RETRIES,
            _ => false,
        }
    }

    /// Whether a worker may claim the job.
    pub fn is_claimable(&self) -> (r: bool)
        ensures
            r == self@.claimable(),
    {
        match self.status {
            QueueStatus::Pending => self.retry < MAX_RETRIES,
            _ => false,
        }
    }

    /// A copy of the record.
    pub fn duplicate(&self) -> (r: JobRecord)
        ensures
            r@ == self@,
    {
        JobRecord {
            id: self.id,
            status: self.status,
            retry: self.retry,
            worker_id: self.worker_id.clone(),
            reply: self.reply.clone(),
            created: self.created,
            started: self.started,
            completed: self.completed,
            error: self.error.clone(),
        }
    }
}

/// What one operation of the engine may do to a queue: insert a pending
/// job under a new id, claim the next job for a worker, complete or fail a
/// job that a worker holds, hand such a job back with its status message,
/// sweep, or nothing.
pub open spec fn queue_op(before: Seq<JobView>, after: Seq<JobView>) -> bool {
    ||| after == before
    ||| exists|id: nat, created: int, reply: Option<Seq<char>>|
        {
            &&& after == before.push(#[trigger] JobView::fresh(id, created, reply))
            &&& forall|k: int| 0 <= k < before.len() ==> (#[trigger] before[k]).id < id
            &&& id <= u64::MAX
            &&& i64::MIN <= created <= i64::MAX
        }
    ||| exists|i: int, worker: Seq<char>, now: int|
        {
            &&& is_next(before, i)
            &&& worker.len() > 0
            &&& after == before.update(i, #[trigger] before[i].claimed(worker, now))
        }
    ||| exists|i: int, now: int|
        0 <= i < before.len() && before[i].status == QueueStatus::Processing && after
            == before.update(i, #[trigger] before[i].finished(now))
    ||| exists|i: int, error: Seq<char>, now: int|
        0 <= i < before.len() && before[i].status == QueueStatus::Processing && after
            == before.update(i, #[trigger] before[i].failed(error, now))
    ||| exists|i: int, reply: Seq<char>|
        0 <= i < before.len() && before[i].status == QueueStatus::Processing && after
            == before.update(i, #[trigger] before[i].requeued(reply))
    ||| exists|threshold: int| after == #[trigger] swept_all(before, threshold)
}

/// Every job that was there before is still there, under its id, and its
/// status stayed or followed one edge; every job that came in is pending.
pub open spec fn queue_step(before: Seq<JobView>, after: Seq<JobView>) -> bool {
    &&& before.len() <= after.len()
    &&& forall|k: int|
        0 <= k < before.len() ==> (#[trigger] after[k]).id == before[k].id && status_step(
            before[k].status,
            after[k].status,
        )
    &&& forall|k: int|
        before.len() <= k < after.len() ==> (#[trigger] after[k]).status == QueueStatus::Pending
}

/// A run of the engine: it starts with an empty queue, and each state
/// comes from the one before by one operation.
pub open spec fn queue_run(states: Seq<Seq<JobView>>) -> bool {
    &&& states.len() > 0
    &&& states[0].len() == 0
    &&& forall|t: int| 0 <= t < states.len() - 1 ==> queue_op(#[trigger] states[t], states[t + 1])
}

/// The statuses of the job at position `p` as observed in the states
/// `from, from + 1, ..` of a run.
pub open spec fn observed_statuses(states: Seq<Seq<JobView>>, p: int, from: int) -> Seq<
    QueueStatus,
> {
    Seq::new((states.len() - from) as nat, |t: int| states[from + t][p].status)
}

/// Claim is exclusive: the claim that follows a claim never returns the
/// same job.
pub proof fn law_claim_is_exclusive(
    q: Seq<JobView>,
    next_id: nat,
    i: int,
    worker: Seq<char>,
    now: int,
    k: int,
)
    requires
        queue_wf(q, next_id),
        is_next(q, i),
        is_next(q.update(i, q[i].claimed(worker, now)), k),
    ensures
        k != i,
        q.update(i, q[i].claimed(worker, now))[k].id != q[i].id,
{
    let after = q.update(i, q[i].claimed(worker, now));
    assert(!after[i].claimable());
    if k < i {
        assert(q[k].id < q[i].id);
    } else {
        assert(q[i].id < q[k].id);
    }
}

/// Each operation of the engine moves every job along the status graph
/// `pending -> processing -> completed | failed`, with `processing ->
/// pending` for a job that is handed or taken back, and keeps its id.
pub proof fn law_operation_follows_status_graph(before: Seq<JobView>, after: Seq<JobView>)
    requires
        queue_op(before, after),
    ensures
        queue_step(before, after),
{
}

/// Over a whole run, the statuses observed of one job, from the state in
/// which it first appears, start at `pending` and follow the status graph.
pub proof fn law_status_history(states: Seq<Seq<JobView>>, p: int, from: int)
    requires
        queue_run(states),
        0 < from < states.len(),
        states[from - 1].len() <= p < states[from].len(),
    ensures
        forall|t: int| from <= t < states.len() ==> p < (#[trigger] states[t]).len(),
        status_history(observed_statuses(states, p, from)),
{
    lemma_run_keeps_jobs(states, p, from, states.len() - 1);
    let h = observed_statuses(states, p, from);
    law_operation_follows_status_graph(states[from - 1], states[from]);
    assert(h[0] == states[from + 0][p].status);
    assert forall|k: int| 0 <= k < h.len() - 1 implies status_step(#[trigger] h[k], h[k + 1]) by {
        lemma_run_keeps_jobs(states, p, from, from + k);
        law_operation_follows_status_graph(states[from + k], states[from + k + 1]);
        assert(h[k] == states[from + k][p].status);
        assert(h[k + 1] == states[from + (k + 1)][p].status);
        assert(states[from + k + 1][p].id == states[from + k][p].id);
    }
}

proof fn lemma_run_keeps_jobs(states: Seq<Seq<JobView>>, p: int, from: int, upto: int)
    requires
        queue_run(states),
        0 < from <= upto < states.len(),
        0 <= p < states[from].len(),
    ensures
        forall|t: int| from <= t <= upto ==> p < (#[trigger] states[t]).len(),
    decreases upto - from,
{
    if from < upto {
        lemma_run_keeps_jobs(states, p, from, upto - 1);
        law_operation_follows_status_graph(states[upto - 1], states[upto]);
    }
}

/// A job in a terminal status stays as it is: no edge leaves `completed`
/// or `failed`.
pub proof fn law_terminal_is_final(from: QueueStatus, to: QueueStatus)
    requires
        from.terminal(),
        status_step(from, to),
    ensures
        to == from,
{
}

/// Every operation of the engine keeps the invariant of the jobs.
pub proof fn law_operation_keeps_invariant(before: Seq<JobView>, after: Seq<JobView>)
    requires
        jobs_wf(before),
        queue_op(before, after),
    ensures
        jobs_wf(after),
{
    law_operation_follows_status_graph(before, after);
    assert forall|k: int| 0 <= k < after.len() implies (#[trigger] after[k]).wf() by {
        if k < before.len() {
            assert(before[k].wf());
        }
    }
    assert forall|j: int, k: int| 0 <= j < k < after.len() implies (#[trigger] after[j]).id < (
    #[trigger] after[k]).id by {
        if k < before.len() {
            assert(before[j].id < before[k].id);
        }
    }
}

/// The invariant holds in every state of a run.
pub proof fn law_run_keeps_invariant(states: Seq<Seq<JobView>>, t: int)
    requires
        queue_run(states),
        0 <= t < states.len(),
    ensures
        jobs_wf(states[t]),
    decreases t,
{
    if t > 0 {
        law_run_keeps_invariant(states, t - 1);
        law_operation_keeps_invariant(states[t - 1], states[t]);
    }
}

/// In every state of a run, the retry count of a job in a terminal status
/// is at most `MAX_RETRIES`.
pub proof fn law_terminal_retry_bound(states: Seq<Seq<JobView>>, t: int, k: int)
    requires
        queue_run(states),
        0 <= t < states.len(),
        0 <= k < states[t].len(),
        states[t][k].status.terminal(),
    ensures
        states[t][k].retry <= MAX_RETRIES,
{
    law_run_keeps_invariant(states, t);
    assert(states[t][k].wf());
}

/// In every state of a run, a job that is processing names the worker
/// that holds it, and no other job names a worker.
pub proof fn law_processing_names_worker(states: Seq<Seq<JobView>>, t: int, k: int)
    requires
        queue_run(states),
        0 <= t < states.len(),
        0 <= k < states[t].len(),
    ensures
        states[t][k].status == QueueStatus::Processing ==> states[t][k].worker_id is Some
            && states[t][k].worker_id->0.len() > 0,
        states[t][k].status != QueueStatus::Processing ==> states[t][k].worker_id is None,
{
    law_run_keeps_invariant(states, t);
    assert(states[t][k].wf());
}

/// In every state of a run, a job carries a time of completion only in a
/// terminal status.
pub proof fn law_completed_only_when_terminal(states: Seq<Seq<JobView>>, t: int, k: int)
    requires
        queue_run(states),
        0 <= t < states.len(),
        0 <= k < states[t].len(),
        states[t][k].completed is Some,
    ensures
        states[t][k].status.terminal(),
{
    law_run_keeps_invariant(states, t);
    assert(states[t][k].wf());
}

/// A pending job whose retry count has reached `MAX_RETRIES` is never the
/// one that a claim takes.
pub proof fn law_exhausted_job_is_never_claimed(q: Seq<JobView>, i: int)
    requires
        0 <= i < q.len(),
        q[i].retry >= MAX_RETRIES,
    ensures
        !is_next(q, i),
{
}

} // verus!
