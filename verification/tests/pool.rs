use task_pool::pool::TaskPool;
use task_pool::signal::{PoolError, Signal};
use task_pool::worker::WorkerState;

fn open_pool(size: usize) -> TaskPool<u32> {
    match TaskPool::new(size) {
        Ok(pool) => pool,
        Err(e) => panic!("{}", e.message()),
    }
}

/// Hands signals to the workers in turn until no worker can move, finishing
/// each unit at once, and returns the units in the order in which they ran.
fn drain(pool: &mut TaskPool<u32>) -> Vec<u32> {
    let mut log: Vec<u32> = Vec::new();
    let mut moved = true;
    while moved {
        moved = false;
        for id in 0..pool.size() {
            match pool.dispatch(id) {
                Some(Signal::NewTask(unit)) => {
                    log.push(unit);
                    assert!(pool.complete(id));
                    moved = true;
                }
                Some(Signal::Terminate) => {
                    moved = true;
                }
                None => {}
            }
        }
    }
    log
}

#[test]
fn zero_workers_is_a_config_error() {
    match TaskPool::<u32>::new(0) {
        Ok(_) => panic!("a pool of no workers was made"),
        Err(e) => {
            assert_eq!(e, PoolError::ConfigError);
            assert_eq!(e.message(), "invalid pool size");
        }
    }
}

#[test]
fn new_pool_has_size_idle_workers() {
    for size in [1usize, 2, 8, 100] {
        let pool = open_pool(size);
        assert_eq!(pool.size(), size);
        assert_eq!(pool.queue_len(), 0);
        assert!(!pool.is_closed());
        assert!(!pool.all_exited());
        for id in 0..size {
            assert_eq!(pool.worker_state(id), Some(WorkerState::Idle));
        }
        assert_eq!(pool.worker_state(size), None);
    }
}

#[test]
fn five_units_on_two_workers_each_run_once() {
    let mut pool = open_pool(2);
    for unit in 0..5u32 {
        assert_eq!(pool.execute(unit), Ok(()));
    }
    assert_eq!(pool.queue_len(), 5);
    assert_eq!(pool.shutdown(), vec![0, 1]);
    let mut log = drain(&mut pool);
    log.sort();
    assert_eq!(log, vec![0, 1, 2, 3, 4]);
    assert!(pool.all_exited());
    assert_eq!(pool.queue_len(), 0);
    assert_eq!(pool.worker_state(0), Some(WorkerState::Terminated));
    assert_eq!(pool.worker_state(1), Some(WorkerState::Terminated));
}

#[test]
fn failed_unit_takes_the_sole_worker() {
    let mut pool = open_pool(1);
    assert_eq!(pool.execute(10), Ok(()));
    assert_eq!(pool.execute(11), Ok(()));
    assert!(matches!(pool.dispatch(0), Some(Signal::NewTask(10))));
    assert!(pool.fail(0));
    assert_eq!(pool.worker_state(0), Some(WorkerState::Failed));
    assert!(pool.dispatch(0).is_none());
    assert_eq!(pool.shutdown(), vec![0]);
    assert!(drain(&mut pool).is_empty());
    assert!(pool.all_exited());
    // The second unit and the stop order are still queued: nobody is left.
    assert_eq!(pool.queue_len(), 2);
}

#[test]
fn failure_leaves_the_other_workers() {
    let mut pool = open_pool(2);
    for unit in 0..4u32 {
        assert_eq!(pool.execute(unit), Ok(()));
    }
    assert!(matches!(pool.dispatch(0), Some(Signal::NewTask(0))));
    assert!(pool.fail(0));
    assert!(!pool.fail(0));
    assert!(!pool.complete(0));
    pool.shutdown();
    assert_eq!(drain(&mut pool), vec![1, 2, 3]);
    assert_eq!(pool.worker_state(0), Some(WorkerState::Failed));
    assert_eq!(pool.worker_state(1), Some(WorkerState::Terminated));
    assert!(pool.all_exited());
    // The stop order meant for the lost worker stays behind.
    assert_eq!(pool.queue_len(), 1);
}

#[test]
fn units_leave_in_submission_order() {
    let mut pool = open_pool(3);
    for unit in [7u32, 3, 9] {
        assert_eq!(pool.execute(unit), Ok(()));
    }
    assert!(matches!(pool.dispatch(2), Some(Signal::NewTask(7))));
    assert!(matches!(pool.dispatch(0), Some(Signal::NewTask(3))));
    assert!(matches!(pool.dispatch(1), Some(Signal::NewTask(9))));
    assert_eq!(pool.queue_len(), 0);
}

#[test]
fn stop_orders_come_behind_the_work() {
    let mut pool = open_pool(2);
    assert_eq!(pool.execute(1), Ok(()));
    assert_eq!(pool.execute(2), Ok(()));
    assert_eq!(pool.shutdown(), vec![0, 1]);
    assert_eq!(pool.queue_len(), 4);
    assert!(matches!(pool.dispatch(0), Some(Signal::NewTask(1))));
    assert!(matches!(pool.dispatch(1), Some(Signal::NewTask(2))));
    assert!(pool.dispatch(0).is_none());
    assert!(pool.complete(1));
    assert!(matches!(pool.dispatch(1), Some(Signal::Terminate)));
    assert_eq!(pool.worker_state(1), Some(WorkerState::Terminated));
    assert!(!pool.all_exited());
    assert!(pool.complete(0));
    assert!(matches!(pool.dispatch(0), Some(Signal::Terminate)));
    assert!(pool.all_exited());
    assert_eq!(pool.queue_len(), 0);
}

#[test]
fn four_workers_run_four_units_at_once() {
    let mut pool = open_pool(4);
    for unit in 0..8u32 {
        assert_eq!(pool.execute(unit), Ok(()));
    }
    for id in 0..4usize {
        assert!(matches!(pool.dispatch(id), Some(Signal::NewTask(_))));
    }
    for id in 0..4usize {
        assert_eq!(pool.worker_state(id), Some(WorkerState::Executing));
    }
    assert_eq!(pool.queue_len(), 4);
    // A slow unit holds its own worker only.
    assert!(pool.complete(2));
    assert!(matches!(pool.dispatch(2), Some(Signal::NewTask(4))));
    assert!(pool.dispatch(0).is_none());
    assert_eq!(pool.queue_len(), 3);
}

#[test]
fn submission_after_shutdown_is_refused() {
    let mut pool = open_pool(2);
    assert_eq!(pool.execute(1), Ok(()));
    pool.shutdown();
    assert!(pool.is_closed());
    assert_eq!(pool.queue_len(), 3);
    let refused = pool.execute(2);
    assert_eq!(refused, Err(PoolError::QueueBroken));
    assert_eq!(PoolError::QueueBroken.message(), "pool queue is broken");
    assert_eq!(pool.queue_len(), 3);
    assert_eq!(drain(&mut pool), vec![1]);
}

#[test]
fn second_shutdown_sends_nothing() {
    let mut pool = open_pool(3);
    assert_eq!(pool.shutdown(), vec![0, 1, 2]);
    assert_eq!(pool.queue_len(), 3);
    assert_eq!(pool.shutdown(), Vec::<usize>::new());
    assert_eq!(pool.queue_len(), 3);
    assert!(drain(&mut pool).is_empty());
    assert!(pool.all_exited());
    assert_eq!(pool.queue_len(), 0);
}

#[test]
fn dispatch_needs_an_idle_worker_and_a_signal() {
    let mut pool = open_pool(2);
    assert!(pool.dispatch(0).is_none());
    assert_eq!(pool.execute(5), Ok(()));
    assert_eq!(pool.execute(6), Ok(()));
    assert!(pool.dispatch(2).is_none());
    assert!(pool.dispatch(usize::MAX).is_none());
    assert!(matches!(pool.dispatch(1), Some(Signal::NewTask(5))));
    assert!(pool.dispatch(1).is_none());
    assert_eq!(pool.queue_len(), 1);
    assert_eq!(pool.worker_state(0), Some(WorkerState::Idle));
    assert_eq!(pool.worker_state(1), Some(WorkerState::Executing));
}

#[test]
fn complete_and_fail_need_a_running_unit() {
    let mut pool = open_pool(1);
    assert!(!pool.complete(0));
    assert!(!pool.fail(0));
    assert!(!pool.complete(1));
    assert!(!pool.fail(1));
    assert_eq!(pool.execute(1), Ok(()));
    assert!(pool.dispatch(0).is_some());
    assert!(pool.complete(0));
    assert_eq!(pool.worker_state(0), Some(WorkerState::Idle));
    assert!(!pool.complete(0));
}

#[test]
fn units_may_be_boxed_closures() {
    let mut pool: TaskPool<Box<dyn FnOnce() -> u32>> = match TaskPool::new(2) {
        Ok(pool) => pool,
        Err(e) => panic!("{}", e.message()),
    };
    for unit in 0..3u32 {
        assert!(pool.execute(Box::new(move || unit * 10)).is_ok());
    }
    pool.shutdown();
    let mut seen: Vec<u32> = Vec::new();
    let mut id = 0usize;
    while !pool.all_exited() {
        if let Some(Signal::NewTask(unit)) = pool.dispatch(id) {
            seen.push(unit());
            assert!(pool.complete(id));
        }
        id = (id + 1) % 2;
    }
    assert_eq!(seen, vec![0, 10, 20]);
}

#[test]
fn submission_after_the_sole_worker_failed_is_refused() {
    let mut pool = open_pool(1);
    assert_eq!(pool.execute(1), Ok(()));
    assert!(matches!(pool.dispatch(0), Some(Signal::NewTask(1))));
    assert!(pool.fail(0));
    assert!(pool.all_exited());
    assert!(!pool.is_closed());
    assert_eq!(pool.execute(2), Err(PoolError::QueueBroken));
    assert_eq!(pool.queue_len(), 0);
    assert!(pool.dispatch(0).is_none());
    assert_eq!(pool.worker_state(0), Some(WorkerState::Failed));
}

#[test]
fn submission_after_every_worker_failed_is_refused() {
    let mut pool = open_pool(2);
    for unit in 0..3u32 {
        assert_eq!(pool.execute(unit), Ok(()));
    }
    assert!(matches!(pool.dispatch(0), Some(Signal::NewTask(0))));
    assert!(pool.fail(0));
    // One worker is left: the pool still takes work.
    assert!(!pool.all_exited());
    assert_eq!(pool.execute(3), Ok(()));
    assert_eq!(pool.queue_len(), 3);
    assert!(matches!(pool.dispatch(1), Some(Signal::NewTask(1))));
    assert!(pool.fail(1));
    assert!(pool.all_exited());
    assert_eq!(pool.execute(4), Err(PoolError::QueueBroken));
    // What was queued before stays queued, and the refused unit is not there.
    assert_eq!(pool.queue_len(), 2);
    assert!(pool.dispatch(0).is_none());
    assert!(pool.dispatch(1).is_none());
}

#[test]
fn submission_while_a_worker_runs_is_accepted() {
    let mut pool = open_pool(1);
    assert_eq!(pool.execute(1), Ok(()));
    assert!(matches!(pool.dispatch(0), Some(Signal::NewTask(1))));
    assert_eq!(pool.execute(2), Ok(()));
    assert_eq!(pool.queue_len(), 1);
    assert!(pool.complete(0));
    assert!(matches!(pool.dispatch(0), Some(Signal::NewTask(2))));
}
