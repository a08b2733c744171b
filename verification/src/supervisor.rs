//! The supervisor of the worker pools, as decisions: when a notification
//! starts one more worker, what a worker does after a task, and how a
//! pool is resized.
//!
//! Tasks, notifiers and the counters' atomicity belong to whoever runs the
//! workers; each decision here is one atomic step on the state of a pool.
use crate::pipeline::{Pool, DEFAULT_MAX_WORKERS};
use dashmap::DashMap;
use std::hash::RandomState;
use vstd::prelude::*;

verus! {

/// What one run of a processor did.
#[derive(Clone, Copy, Debug, PartialEq, Eq, Structural)]
pub enum TaskStatus {
    /// A job was worked on; more may be pending.
    DidWork,
    /// Nothing was pending, or the processor failed.
    Idle,
}

/// What a processor reports of one run: `Ok(true)` after it worked on a
/// job, `Ok(false)` when none was pending, or its error.
pub fn task_status<E>(outcome: &Result<bool, E>) -> (r: TaskStatus)
    ensures
        r == match *outcome {
            Ok(true) => TaskStatus::DidWork,
            _ => TaskStatus::Idle,
        },
{
    match outcome {
        Ok(true) => TaskStatus::DidWork,
        _ => TaskStatus::Idle,
    }
}

/// What a worker does next.
#[derive(Clone, Copy, Debug, PartialEq, Eq, Structural)]
pub enum WorkerNext {
    /// Run the processor again at once.
    Again,
    /// Wait for the next notification, then run the processor.
    Wait,
    /// Leave: the pool has more workers than it should.
    Exit,
}

/// The state of one pool: how many workers run and how many may.
#[derive(Clone, Copy, Debug, PartialEq, Eq, Structural)]
pub struct PoolState {
    pub workers_running: usize,
    pub max_workers: usize,
}

impl PoolState {
    /// A pool may always run one worker.
    pub open spec fn wf(self) -> bool {
        self.max_workers >= 1
    }

    /// The limit that a request for `n` workers sets: at least one.
    pub open spec fn limit_for(n: usize) -> usize {
        if n == 0 {
            1
        } else {
            n
        }
    }

    /// A pool without workers that may run `max_workers`, but at least one.
    pub fn new(max_workers: usize) -> (r: PoolState)
        ensures
            r == (PoolState { workers_running: 0, max_workers: PoolState::limit_for(max_workers) }),
            r.wf(),
    {
        PoolState {
            workers_running: 0,
            max_workers: if max_workers == 0 {
                1
            } else {
                max_workers
            },
        }
    }

    /// Whether a notification starts one more worker.
    pub open spec fn has_room(self) -> bool {
        self.workers_running < self.max_workers
    }

    /// The pool after a notification.
    pub open spec fn notified(self) -> PoolState {
        if self.has_room() {
            PoolState { workers_running: (self.workers_running + 1) as usize, ..self }
        } else {
            self
        }
    }

    /// A notification came in: returns whether one more worker has to be
    /// started, and counts it if so. The number of workers never passes
    /// the limit by a notification.
    pub fn on_notify(&mut self) -> (spawn: bool)
        ensures
            spawn == old(self).has_room(),
            *final(self) == old(self).notified(),
            old(self).wf() ==> final(self).wf(),
            old(self).workers_running <= old(self).max_workers ==> final(self).workers_running
                <= final(self).max_workers,
    {
        if self.workers_running < self.max_workers {
            self.workers_running = self.workers_running + 1;
            true
        } else {
            false
        }
    }

    /// Sets the limit of the pool to `new_limit`, but at least one. Workers
    /// above the limit are not stopped; they leave when they are idle.
    pub fn set_max_workers(&mut self, new_limit: usize)
        ensures
            *final(self) == (PoolState {
                max_workers: PoolState::limit_for(new_limit),
                ..*old(self)
            }),
            final(self).wf(),
    {
        self.max_workers = if new_limit == 0 {
            1
        } else {
            new_limit
        };
    }

    /// What a worker does after a run of its processor: again at once
    /// after work; when idle, wait, or leave if the pool runs more workers
    /// than it may.
    pub open spec fn next_for(self, status: TaskStatus) -> WorkerNext {
        match status {
            TaskStatus::DidWork => WorkerNext::Again,
            TaskStatus::Idle => if self.workers_running > self.max_workers {
                WorkerNext::Exit
            } else {
                WorkerNext::Wait
            },
        }
    }

    /// A worker finished a run of its processor: returns what it does
    /// next. A worker that leaves is no longer counted.
    pub fn after_task(&mut self, status: TaskStatus) -> (next: WorkerNext)
        ensures
            next == old(self).next_for(status),
            next == WorkerNext::Exit ==> *final(self) == (PoolState {
                workers_running: (old(self).workers_running - 1) as usize,
                ..*old(self)
            }),
            next != WorkerNext::Exit ==> *final(self) == *old(self),
    {
        match status {
            TaskStatus::DidWork => WorkerNext::Again,
            TaskStatus::Idle => {
                if self.workers_running > self.max_workers {
                    self.workers_running = self.workers_running - 1;
                    WorkerNext::Exit
                } else {
                    WorkerNext::Wait
                }
            },
        }
    }

    /// A worker ended, whatever the reason: it is no longer counted.
    pub fn on_worker_exit(&mut self)
        ensures
            *final(self) == (PoolState {
                workers_running: if old(self).workers_running > 0 {
                    (old(self).workers_running - 1) as usize
                } else {
                    0
                },
                ..*old(self)
            }),
    {
        if self.workers_running > 0 {
            self.workers_running = self.workers_running - 1;
        }
    }
}

/// A processor: the pipeline of one pool.
pub trait TaskProcessor {
    /// The pool that the processor serves.
    spec fn serves() -> Pool;

    /// The pool that the processor serves.
    fn pool() -> (p: Pool)
        ensures
            p == Self::serves(),
    ;
}

/// The processor of the BLP pool.
#[derive(Debug)]
pub struct BlpProcessor;

/// The processor of the background removal.
#[derive(Debug)]
pub struct RembgProcessor;

/// The processor of the icon pool.
#[derive(Debug)]
pub struct IconProcessor;

impl TaskProcessor for BlpProcessor {
    open spec fn serves() -> Pool {
        Pool::Blp
    }

    fn pool() -> (p: Pool) {
        Pool::Blp
    }
}

impl TaskProcessor for RembgProcessor {
    open spec fn serves() -> Pool {
        Pool::Rembg
    }

    fn pool() -> (p: Pool) {
        Pool::Rembg
    }
}

impl TaskProcessor for IconProcessor {
    open spec fn serves() -> Pool {
        Pool::Icon
    }

    fn pool() -> (p: Pool) {
        Pool::Icon
    }
}

/// What a notification asks of whoever runs the workers.
#[derive(Clone, Copy, Debug, PartialEq, Eq, Structural)]
pub struct NotifyPlan {
    /// Start one more worker for the pool.
    pub spawn: bool,
    /// Wake one worker that waits.
    pub wake: bool,
}

/// `dashmap::DashMap`, the map that holds the pools. Nothing is known of
/// its inside.
#[verifier::external_type_specification]
#[verifier::external_body]
#[verifier::reject_recursive_types(K)]
#[verifier::reject_recursive_types(V)]
#[verifier::reject_recursive_types(S)]
pub struct ExDashMap<K, V, S>(DashMap<K, V, S>);

/// The map of pools: the state of each pool under the name of the pool.
pub type PoolMap = DashMap<&'static str, PoolState, RandomState>;

/// What the map of pools holds: the state of each pool under its name.
pub uninterp spec fn pool_entries(m: PoolMap) -> Map<Seq<char>, PoolState>;

/// `DashMap::new`: the map holds nothing.
#[verifier::external_body]
fn pools_new() -> (pools: PoolMap)
    ensures
        forall|key: Seq<char>| !pool_entries(pools).contains_key(key),
{
    DashMap::new()
}

/// `DashMap::get`, and a copy of the value that it refers to: the state
/// that the map holds under the key, if it holds one.
#[verifier::external_body]
fn pools_get(m: &PoolMap, key: &'static str) -> (r: Option<PoolState>)
    ensures
        r == (if pool_entries(*m).contains_key(key@) {
            Some(pool_entries(*m)[key@])
        } else {
            None
        }),
{
    m.get(key).map(|entry| *entry)
}

/// `DashMap::insert`: the map holds the value under the key and is
/// otherwise as before; what it held under the key before is returned.
#[verifier::external_body]
fn pools_insert(m: &mut PoolMap, key: &'static str, value: PoolState) -> (previous: Option<PoolState>)
    ensures
        pool_entries(*final(m)) == pool_entries(*old(m)).insert(key@, value),
        previous == (if pool_entries(*old(m)).contains_key(key@) {
            Some(pool_entries(*old(m))[key@])
        } else {
            None
        }),
{
    m.insert(key, value)
}

/// The pools, each of which comes into being with its first notification.
#[derive(Debug)]
pub struct Supervisor {
    pools: PoolMap,
    /// Whether the model of the background removal was loaded.
    rembg_available: bool,
}

/// Mathematical model of a `Supervisor`.
pub ghost struct SupervisorView {
    /// The state of each pool that exists, under the name of the pool.
    pub pools: Map<Seq<char>, PoolState>,
    pub rembg_available: bool,
}

impl View for Supervisor {
    type V = SupervisorView;

    closed spec fn view(&self) -> SupervisorView {
        SupervisorView {
            pools: pool_entries(self.pools),
            rembg_available: self.rembg_available,
        }
    }
}

impl SupervisorView {
    /// The state of a pool, if the pool exists.
    pub open spec fn state_of(self, pool: Pool) -> Option<PoolState> {
        if self.pools.contains_key(pool.key()) {
            Some(self.pools[pool.key()])
        } else {
            None
        }
    }

    /// The supervisor with the state of one pool replaced.
    pub open spec fn with_state(self, pool: Pool, state: PoolState) -> SupervisorView {
        SupervisorView { pools: self.pools.insert(pool.key(), state), ..self }
    }

    /// The state of a pool, or the state with which it starts.
    pub open spec fn state_or_initial(self, pool: Pool) -> PoolState {
        match self.state_of(pool) {
            Some(s) => s,
            None => PoolState { workers_running: 0, max_workers: DEFAULT_MAX_WORKERS },
        }
    }

    /// The supervisor after a notification for a pool.
    pub open spec fn notified(self, pool: Pool) -> SupervisorView {
        self.with_state(pool, self.state_or_initial(pool).notified())
    }

    /// The supervisor after a pool that exists was resized.
    pub open spec fn resized(self, pool: Pool, new_limit: usize) -> SupervisorView {
        match self.state_of(pool) {
            Some(s) => self.with_state(
                pool,
                PoolState { max_workers: PoolState::limit_for(new_limit), ..s },
            ),
            None => self,
        }
    }

    /// The supervisor after a worker of a pool was counted out.
    pub open spec fn without_worker(self, pool: Pool) -> SupervisorView {
        match self.state_of(pool) {
            Some(s) => self.with_state(
                pool,
                PoolState {
                    workers_running: if s.workers_running > 0 {
                        (s.workers_running - 1) as usize
                    } else {
                        0
                    },
                    ..s
                },
            ),
            None => self,
        }
    }
}

impl Supervisor {
    /// A supervisor without pools; the background removal counts as
    /// unavailable until its model is loaded.
    pub fn new() -> (r: Supervisor)
        ensures
            r@ == (SupervisorView {
                pools: Map::<Seq<char>, PoolState>::empty(),
                rembg_available: false,
            }),
    {
        let pools = pools_new();
        proof {
            assert(pool_entries(pools) =~= Map::<Seq<char>, PoolState>::empty());
        }
        Supervisor { pools, rembg_available: false }
    }

    /// The state of a pool, if the pool exists.
    pub fn pool_state(&self, pool: Pool) -> (r: Option<PoolState>)
        ensures
            r == self@.state_of(pool),
    {
        pools_get(&self.pools, pool.name())
    }

    fn store(&mut self, pool: Pool, state: PoolState)
        ensures
            final(self)@ == old(self)@.with_state(pool, state),
    {
        let _ = pools_insert(&mut self.pools, pool.name(), state);
    }

    /// A notification for a pool: the pool is created if it was not there,
    /// one more worker is started if the pool has room, and one waiting
    /// worker is woken.
    pub fn notify(&mut self, pool: Pool) -> (plan: NotifyPlan)
        ensures
            plan == (NotifyPlan { spawn: old(self)@.state_or_initial(pool).has_room(), wake: true }),
            final(self)@ == old(self)@.notified(pool),
    {
        let mut state = match self.pool_state(pool) {
            Some(s) => s,
            None => PoolState::new(DEFAULT_MAX_WORKERS),
        };
        let spawn = state.on_notify();
        self.store(pool, state);
        NotifyPlan { spawn, wake: true }
    }

    /// A notification for the pool of the processor `P`.
    pub fn notify_workers<P: TaskProcessor>(&mut self) -> (plan: NotifyPlan)
        ensures
            plan == (NotifyPlan {
                spawn: old(self)@.state_or_initial(P::serves()).has_room(),
                wake: true,
            }),
            final(self)@ == old(self)@.notified(P::serves()),
    {
        self.notify(P::pool())
    }

    /// Sets the limit of a pool that exists to `new_limit`, but at least
    /// one, and says whether the pool exists.
    pub fn resize(&mut self, pool: Pool, new_limit: usize) -> (found: bool)
        ensures
            found == old(self)@.state_of(pool) is Some,
            final(self)@ == old(self)@.resized(pool, new_limit),
    {
        match self.pool_state(pool) {
            Some(s) => {
                let mut state = s;
                state.set_max_workers(new_limit);
                self.store(pool, state);
                true
            },
            None => false,
        }
    }

    /// Sets the limit of the pool of the processor `P`, if that pool
    /// exists.
    pub fn set_max_workers<P: TaskProcessor>(&mut self, new_limit: usize)
        ensures
            final(self)@ == old(self)@.resized(P::serves(), new_limit),
    {
        let _ = self.resize(P::pool(), new_limit);
    }

    /// A worker of the pool finished a run of its processor: returns what
    /// it does next. A worker that leaves is no longer counted; a worker
    /// of a pool that does not exist leaves.
    pub fn after_task(&mut self, pool: Pool, status: TaskStatus) -> (next: WorkerNext)
        ensures
            next == match old(self)@.state_of(pool) {
                Some(s) => s.next_for(status),
                None => WorkerNext::Exit,
            },
            final(self)@ == if next == WorkerNext::Exit {
                old(self)@.without_worker(pool)
            } else {
                old(self)@
            },
    {
        match self.pool_state(pool) {
            Some(s) => {
                let mut state = s;
                let next = state.after_task(status);
                match next {
                    WorkerNext::Exit => {
                        self.store(pool, state);
                    },
                    _ => {
                        assert(state == s);
                    },
                }
                next
            },
            None => WorkerNext::Exit,
        }
    }

    /// A worker of the pool ended without having left in order: it is no
    /// longer counted.
    pub fn worker_exited(&mut self, pool: Pool)
        ensures
            final(self)@ == old(self)@.without_worker(pool),
    {
        match self.pool_state(pool) {
            Some(s) => {
                let mut state = s;
                state.on_worker_exit();
                self.store(pool, state);
            },
            None => {},
        }
    }

    /// Records whether the model of the background removal was loaded.
    pub fn set_rembg_available(&mut self, available: bool)
        ensures
            final(self)@ == (SupervisorView { rembg_available: available, ..old(self)@ }),
    {
        self.rembg_available = available;
    }
}

/// Whether the background removal can run.
pub fn is_rembg_available(supervisor: &Supervisor) -> (r: bool)
    ensures
        r == supervisor@.rembg_available,
{
    supervisor.rembg_available
}

/// A notification for the pool of the processor `P`.
pub fn notify_workers<P: TaskProcessor>(supervisor: &mut Supervisor) -> (plan: NotifyPlan)
    ensures
        plan == (NotifyPlan {
            spawn: old(supervisor)@.state_or_initial(P::serves()).has_room(),
            wake: true,
        }),
        final(supervisor)@ == old(supervisor)@.notified(P::serves()),
{
    supervisor.notify_workers::<P>()
}

/// A notification for the BLP pool.
pub fn notify_blp_task(supervisor: &mut Supervisor) -> (plan: NotifyPlan)
    ensures
        plan == (NotifyPlan {
            spawn: old(supervisor)@.state_or_initial(Pool::Blp).has_room(),
            wake: true,
        }),
        final(supervisor)@ == old(supervisor)@.notified(Pool::Blp),
{
    supervisor.notify_workers::<BlpProcessor>()
}

/// A notification for the pool of the background removal.
pub fn notify_rembg_task(supervisor: &mut Supervisor) -> (plan: NotifyPlan)
    ensures
        plan == (NotifyPlan {
            spawn: old(supervisor)@.state_or_initial(Pool::Rembg).has_room(),
            wake: true,
        }),
        final(supervisor)@ == old(supervisor)@.notified(Pool::Rembg),
{
    supervisor.notify_workers::<RembgProcessor>()
}

/// Sets the number of workers of the BLP pool; `false` where the pool does
/// not exist yet.
pub fn scale_workers(supervisor: &mut Supervisor, new_count: usize) -> (r: bool)
    ensures
        r == old(supervisor)@.state_of(Pool::Blp) is Some,
        final(supervisor)@ == old(supervisor)@.resized(Pool::Blp, new_count),
{
    supervisor.resize(Pool::Blp, new_count)
}

/// Sets the limit of the pool of the processor `P`, if that pool exists.
pub fn set_max_workers<P: TaskProcessor>(supervisor: &mut Supervisor, new_limit: usize)
    ensures
        final(supervisor)@ == old(supervisor)@.resized(P::serves(), new_limit),
{
    supervisor.set_max_workers::<P>(new_limit)
}

/// What the supervisor of a pool of numbered workers does when the number
/// of workers that it should run changes.
#[derive(Clone, Copy, Debug, PartialEq, Eq, Structural)]
pub enum ScaleStep {
    /// The number is as it was.
    Keep,
    /// Start the workers with the numbers `from .. to`.
    Start { from: usize, to: usize },
    /// Keep the first `keep` workers; the others finish their job and
    /// leave.
    Retire { keep: usize },
}

/// Decides how a pool that runs `current` workers gets to `target`.
pub fn scale_step(current: usize, target: usize) -> (r: ScaleStep)
    ensures
        r == if target == current {
            ScaleStep::Keep
        } else if target > current {
            ScaleStep::Start { from: current, to: target }
        } else {
            ScaleStep::Retire { keep: target }
        },
{
    if target == current {
        ScaleStep::Keep
    } else if target > current {
        ScaleStep::Start { from: current, to: target }
    } else {
        ScaleStep::Retire { keep: target }
    }
}

/// The id under which the worker with the given number claims jobs of a
/// pool: the name of the pool, `-worker-` and the number.
pub open spec fn worker_id_text(pool: Pool, number: nat) -> Seq<char> {
    (match pool {
        Pool::Blp => "blp"@,
        Pool::Rembg => "rembg"@,
        Pool::Icon => "icon"@,
    }) + "-worker-"@ + crate::text::decimal(number)
}

/// The id under which the worker with the given number claims jobs. It is
/// never empty.
pub fn worker_id(pool: Pool, number: usize) -> (r: String)
    ensures
        r@ == worker_id_text(pool, number as nat),
        r@.len() > 0,
{
    let mut out = String::from_str(pool.name());
    out.append("-worker-");
    crate::text::push_decimal(&mut out, number as u64);
    proof {
        crate::text::lemma_decimal_digits(number as nat);
    }
    out
}

/// The pools are independent: what is done to one leaves the state of
/// every other as it is.
pub proof fn law_pools_are_independent(s: SupervisorView, p: Pool, q: Pool, state: PoolState)
    requires
        p != q,
    ensures
        s.with_state(p, state).state_of(q) == s.state_of(q),
        s.with_state(p, state).state_of(p) == Some(state),
{
    reveal_strlit("blp");
    reveal_strlit("rembg");
    reveal_strlit("icon");
    assert(p.key() != q.key()) by {
        if p.key() == q.key() {
            assert(p.key()[0] == q.key()[0]);
            assert(p.key().len() == q.key().len());
        }
    }
}

/// A notification never lets the workers of a pool pass its limit: from a
/// pool within its limit, any number of notifications leaves it within.
pub proof fn law_notifications_respect_limit(state: PoolState, n: nat)
    requires
        state.workers_running <= state.max_workers,
    ensures
        notified_times(state, n).workers_running <= state.max_workers,
        notified_times(state, n).max_workers == state.max_workers,
    decreases n,
{
    if n > 0 {
        law_notifications_respect_limit(state, (n - 1) as nat);
    }
}

/// The pool after `n` notifications.
pub open spec fn notified_times(state: PoolState, n: nat) -> PoolState
    decreases n,
{
    if n == 0 {
        state
    } else {
        notified_times(state, (n - 1) as nat).notified()
    }
}

} // verus!
