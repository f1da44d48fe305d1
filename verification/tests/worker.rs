use task_pool::signal::Signal;
use task_pool::worker::{Worker, WorkerState};

#[test]
fn new_worker_is_idle() {
    let worker = Worker::new(3);
    assert_eq!(worker.id, 3);
    assert_eq!(worker.state, WorkerState::Idle);
    assert!(!worker.has_exited());
}

#[test]
fn worker_runs_a_unit_and_waits_again() {
    let mut worker = Worker::new(0);
    assert_eq!(worker.receive(Signal::NewTask(42u8)), Some(42));
    assert_eq!(worker.state, WorkerState::Executing);
    assert!(!worker.has_exited());
    assert!(worker.finish());
    assert_eq!(worker.state, WorkerState::Idle);
    assert_eq!(worker.id, 0);
}

#[test]
fn worker_stops_on_terminate() {
    let mut worker = Worker::new(1);
    assert_eq!(worker.receive(Signal::<u8>::Terminate), None);
    assert_eq!(worker.state, WorkerState::Terminated);
    assert!(worker.has_exited());
    assert!(!worker.finish());
    assert!(!worker.fail());
    assert_eq!(worker.state, WorkerState::Terminated);
}

#[test]
fn worker_is_lost_to_a_failed_unit() {
    let mut worker = Worker::new(2);
    assert!(!worker.fail());
    assert_eq!(worker.state, WorkerState::Idle);
    assert_eq!(worker.receive(Signal::NewTask(1u8)), Some(1));
    assert!(worker.fail());
    assert_eq!(worker.state, WorkerState::Failed);
    assert!(worker.has_exited());
    assert!(!worker.finish());
    assert_eq!(worker.state, WorkerState::Failed);
}

#[test]
fn signal_knows_what_it_carries() {
    let work = Signal::NewTask(5u8);
    assert!(work.is_task());
    assert_eq!(work.into_task(), Some(5));
    let stop = Signal::<u8>::Terminate;
    assert!(!stop.is_task());
    assert_eq!(stop.into_task(), None);
}
