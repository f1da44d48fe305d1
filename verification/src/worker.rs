//! One worker of the pool: an identifier and a position in its life cycle.
use vstd::prelude::*;
use crate::signal::Signal;

verus! {

/// Where a worker stands in its life cycle.
#[derive(Clone, Copy, Debug, PartialEq, Eq, Structural)]
pub enum WorkerState {
    /// Waiting for a signal.
    Idle,
    /// Running a unit of work, outside the queue's exclusive section.
    Executing,
    /// Left its loop after taking a `Terminate`. Terminal.
    Terminated,
    /// Lost to a unit of work that failed while it ran. Terminal.
    Failed,
}

/// A worker: its index in the pool and its state.
#[derive(Clone, Copy, Debug)]
pub struct Worker {
    pub id: usize,
    pub state: WorkerState,
}

impl Worker {
    /// A worker that waits for its first signal.
    pub fn new(id: usize) -> (worker: Worker)
        ensures
            worker.id == id,
            worker.state == WorkerState::Idle,
    {
        Worker { id, state: WorkerState::Idle }
    }

    /// Whether the worker has left its loop for good, in either way.
    pub open spec fn exited(self) -> bool {
        self.state == WorkerState::Terminated || self.state == WorkerState::Failed
    }

    /// Whether the worker has left its loop for good, in either way.
    pub fn has_exited(&self) -> (result: bool)
        ensures
            result == self.exited(),
    {
        self.state == WorkerState::Terminated || self.state == WorkerState::Failed
    }

    /// The idle worker takes `signal`. With a unit of work it starts executing
    /// and hands the unit out to be run; with `Terminate` it stops for good.
    pub fn receive<T>(&mut self, signal: Signal<T>) -> (unit: Option<T>)
        requires
            old(self).state == WorkerState::Idle,
        ensures
            final(self).id == old(self).id,
            match signal {
                Signal::NewTask(t) => unit == Some(t) && final(self).state
                    == WorkerState::Executing,
                Signal::Terminate => unit.is_none() && final(self).state
                    == WorkerState::Terminated,
            },
    {
        match signal {
            Signal::NewTask(t) => {
                self.state = WorkerState::Executing;
                Some(t)
            },
            Signal::Terminate => {
                self.state = WorkerState::Terminated;
                None
            },
        }
    }

    /// The unit that the worker was running came to its end. Returns whether
    /// the worker was executing; if it was not, nothing changes.
    pub fn finish(&mut self) -> (was_executing: bool)
        ensures
            was_executing == (old(self).state == WorkerState::Executing),
            final(self).id == old(self).id,
            final(self).state == if was_executing {
                WorkerState::Idle
            } else {
                old(self).state
            },
    {
        if self.state == WorkerState::Executing {
            self.state = WorkerState::Idle;
            true
        } else {
            false
        }
    }

    /// The unit that the worker was running failed, and took the worker with
    /// it. Returns whether the worker was executing; if it was not, nothing
    /// changes.
    pub fn fail(&mut self) -> (was_executing: bool)
        ensures
            was_executing == (old(self).state == WorkerState::Executing),
            final(self).id == old(self).id,
            final(self).state == if was_executing {
                WorkerState::Failed
            } else {
                old(self).state
            },
    {
        if self.state == WorkerState::Executing {
            self.state = WorkerState::Failed;
            true
        } else {
            false
        }
    }
}

} // verus!
