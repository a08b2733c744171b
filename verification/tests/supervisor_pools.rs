use raftbot::pipeline::Pool;
use raftbot::supervisor::{
    is_rembg_available, notify_blp_task, notify_rembg_task, scale_step, scale_workers,
    set_max_workers, task_status, worker_id, BlpProcessor, IconProcessor, NotifyPlan, PoolState,
    RembgProcessor, ScaleStep, Supervisor, TaskProcessor, TaskStatus, WorkerNext,
};

#[test]
fn notifications_start_workers_up_to_the_limit() {
    let mut s = Supervisor::new();
    assert_eq!(s.pool_state(Pool::Blp), None);
    for _ in 0..3 {
        assert_eq!(s.notify(Pool::Blp), NotifyPlan { spawn: true, wake: true });
    }
    assert_eq!(s.notify(Pool::Blp), NotifyPlan { spawn: false, wake: true });
    assert_eq!(s.pool_state(Pool::Blp), Some(PoolState { workers_running: 3, max_workers: 3 }));
    assert_eq!(s.pool_state(Pool::Rembg), None);
    assert_eq!(s.pool_state(Pool::Icon), None);
}

#[test]
fn pools_are_independent() {
    let mut s = Supervisor::new();
    assert!(notify_blp_task(&mut s).spawn);
    assert!(notify_rembg_task(&mut s).spawn);
    assert!(s.notify_workers::<IconProcessor>().spawn);
    assert!(s.notify_workers::<IconProcessor>().spawn);
    assert_eq!(s.pool_state(Pool::Blp).unwrap().workers_running, 1);
    assert_eq!(s.pool_state(Pool::Rembg).unwrap().workers_running, 1);
    assert_eq!(s.pool_state(Pool::Icon).unwrap().workers_running, 2);
    assert_eq!(BlpProcessor::pool(), Pool::Blp);
    assert_eq!(RembgProcessor::pool(), Pool::Rembg);
    assert_eq!(IconProcessor::pool(), Pool::Icon);
}

#[test]
fn resizing_needs_an_existing_pool() {
    let mut s = Supervisor::new();
    assert!(!scale_workers(&mut s, 5));
    set_max_workers::<RembgProcessor>(&mut s, 5);
    for pool in [Pool::Blp, Pool::Rembg, Pool::Icon] {
        assert_eq!(s.pool_state(pool), None);
    }
    assert!(!is_rembg_available(&s));
    s.notify(Pool::Blp);
    assert!(scale_workers(&mut s, 5));
    assert_eq!(s.pool_state(Pool::Blp), Some(PoolState { workers_running: 1, max_workers: 5 }));
    s.set_max_workers::<BlpProcessor>(0);
    assert_eq!(s.pool_state(Pool::Blp).unwrap().max_workers, 1);
    assert!(s.resize(Pool::Blp, 2));
    assert!(!s.resize(Pool::Icon, 2));
}

#[test]
fn shrinking_is_lazy() {
    let mut s = Supervisor::new();
    for _ in 0..3 {
        s.notify(Pool::Blp);
    }
    s.resize(Pool::Blp, 1);
    assert_eq!(s.pool_state(Pool::Blp), Some(PoolState { workers_running: 3, max_workers: 1 }));
    // busy workers go on
    assert_eq!(s.after_task(Pool::Blp, TaskStatus::DidWork), WorkerNext::Again);
    assert_eq!(s.pool_state(Pool::Blp).unwrap().workers_running, 3);
    // idle workers above the limit leave
    assert_eq!(s.after_task(Pool::Blp, TaskStatus::Idle), WorkerNext::Exit);
    assert_eq!(s.after_task(Pool::Blp, TaskStatus::Idle), WorkerNext::Exit);
    assert_eq!(s.after_task(Pool::Blp, TaskStatus::Idle), WorkerNext::Wait);
    assert_eq!(s.pool_state(Pool::Blp), Some(PoolState { workers_running: 1, max_workers: 1 }));
    assert!(!s.notify(Pool::Blp).spawn);
    assert_eq!(s.after_task(Pool::Icon, TaskStatus::Idle), WorkerNext::Exit);
    assert_eq!(s.pool_state(Pool::Icon), None);
}

#[test]
fn worker_that_ends_is_counted_out() {
    let mut s = Supervisor::new();
    s.notify(Pool::Rembg);
    s.notify(Pool::Rembg);
    s.worker_exited(Pool::Rembg);
    assert_eq!(s.pool_state(Pool::Rembg), Some(PoolState { workers_running: 1, max_workers: 3 }));
    s.worker_exited(Pool::Rembg);
    s.worker_exited(Pool::Rembg);
    assert_eq!(s.pool_state(Pool::Rembg), Some(PoolState { workers_running: 0, max_workers: 3 }));
    s.worker_exited(Pool::Icon);
    assert_eq!(s.pool_state(Pool::Icon), None);
    assert!(s.notify(Pool::Rembg).spawn);
}

#[test]
fn pool_state_steps() {
    let mut p = PoolState::new(0);
    assert_eq!(p, PoolState { workers_running: 0, max_workers: 1 });
    assert!(p.on_notify());
    assert!(!p.on_notify());
    p.set_max_workers(2);
    assert!(p.on_notify());
    assert_eq!(p.after_task(TaskStatus::Idle), WorkerNext::Wait);
    p.on_worker_exit();
    p.on_worker_exit();
    p.on_worker_exit();
    assert_eq!(p.workers_running, 0);
}

#[test]
fn processor_outcome_becomes_a_status() {
    assert_eq!(task_status::<String>(&Ok(true)), TaskStatus::DidWork);
    assert_eq!(task_status::<String>(&Ok(false)), TaskStatus::Idle);
    assert_eq!(task_status(&Err::<bool, String>("store down".to_string())), TaskStatus::Idle);
}

#[test]
fn availability_of_the_background_removal() {
    let mut s = Supervisor::new();
    assert!(!is_rembg_available(&s));
    s.set_rembg_available(true);
    assert!(is_rembg_available(&s));
    s.set_rembg_available(false);
    assert!(!is_rembg_available(&s));
}

#[test]
fn scaling_numbered_workers() {
    assert_eq!(scale_step(3, 3), ScaleStep::Keep);
    assert_eq!(scale_step(3, 5), ScaleStep::Start { from: 3, to: 5 });
    assert_eq!(scale_step(3, 1), ScaleStep::Retire { keep: 1 });
    assert_eq!(scale_step(0, 0), ScaleStep::Keep);
}

#[test]
fn worker_ids_are_never_empty() {
    assert_eq!(worker_id(Pool::Blp, 0), "blp-worker-0");
    assert_eq!(worker_id(Pool::Rembg, 12), "rembg-worker-12");
    assert_eq!(worker_id(Pool::Icon, 3), "icon-worker-3");
}
