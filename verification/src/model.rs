//! The pool as a mathematical state machine: its states, its invariant and
//! its transitions. The executable pool is stated against this model.
use vstd::prelude::*;
use crate::signal::Signal;
use crate::worker::{Worker, WorkerState};

verus! {

/// What became of a unit of work after a worker took it from the queue.
pub enum Outcome {
    /// A worker is running it now.
    Running,
    /// It ran to its end.
    Completed,
    /// It failed while it ran.
    Failed,
}

/// The record of one dequeued unit: who took it, and what became of it.
pub struct Receipt {
    pub worker: int,
    pub outcome: Outcome,
}

/// The state of a pool.
///
/// Units of work are known by their position in `submitted`. The units that
/// have left the queue are those at positions below `receipts.len()`, and
/// `receipts[i]` speaks of `submitted[i]`: a unit leaves the queue once, and
/// has one receipt.
pub struct PoolView<T> {
    /// The workers, by index.
    pub workers: Seq<Worker>,
    /// The signals that wait to be taken, oldest first.
    pub queue: Seq<Signal<T>>,
    /// Whether shutdown has begun.
    pub closed: bool,
    /// Every unit that was accepted, in the order of submission.
    pub submitted: Seq<T>,
    /// One receipt for each unit that a worker has taken, in the order taken.
    pub receipts: Seq<Receipt>,
    /// The workers that stopped on a stop order, in the order of stopping.
    pub stopped: Seq<int>,
    /// For a worker that is executing or has failed: the position of its unit
    /// in `submitted`. For one that stopped: its position in `stopped`.
    pub current: Seq<int>,
}

impl<T> PoolView<T> {
    /// The number of workers, fixed when the pool is made.
    pub open spec fn size(self) -> nat {
        self.workers.len()
    }

    /// The units that no worker has taken yet, oldest first.
    pub open spec fn pending(self) -> Seq<T> {
        self.submitted.skip(self.receipts.len() as int)
    }

    /// Whether every worker has left its loop.
    pub open spec fn all_exited(self) -> bool {
        forall|w: int| 0 <= w < self.workers.len() ==> (#[trigger] self.workers[w]).exited()
    }

    /// The invariant of every pool.
    #[verifier::opaque]
    pub open spec fn wf(self) -> bool {
        &&& self.workers.len() >= 1
        &&& self.current.len() == self.workers.len()
        &&& forall|w: int| 0 <= w < self.workers.len() ==> (#[trigger] self.workers[w]).id == w
        &&& self.receipts.len() <= self.submitted.len()
        // The queue holds the pending units in the order of submission, and
        // behind them nothing but stop orders, which only a shutdown sends.
        &&& self.queue.len() >= self.pending().len()
        &&& !self.closed ==> self.queue.len() == self.pending().len()
        &&& forall|k: int|
            0 <= k < self.queue.len() ==> #[trigger] self.queue[k] == if k
                < self.pending().len() {
                Signal::NewTask(self.pending()[k])
            } else {
                Signal::Terminate
            }
        // A worker that is executing, or failed, holds one unit of its own.
        &&& forall|w: int|
            0 <= w < self.workers.len() && (#[trigger] self.workers[w]).state
                == WorkerState::Executing ==> 0 <= self.current[w] < self.receipts.len()
                && self.receipts[self.current[w]] == (Receipt {
                worker: w,
                outcome: Outcome::Running,
            })
        &&& forall|w: int|
            0 <= w < self.workers.len() && (#[trigger] self.workers[w]).state
                == WorkerState::Failed ==> 0 <= self.current[w] < self.receipts.len()
                && self.receipts[self.current[w]] == (Receipt {
                worker: w,
                outcome: Outcome::Failed,
            })
        // A unit that is running, or failed, is held by the worker that took it.
        &&& forall|i: int|
            0 <= i < self.receipts.len() ==> 0 <= (#[trigger] self.receipts[i]).worker
                < self.workers.len()
        &&& forall|i: int|
            0 <= i < self.receipts.len() && (#[trigger] self.receipts[i]).outcome
                == Outcome::Running ==> self.workers[self.receipts[i].worker].state
                == WorkerState::Executing && self.current[self.receipts[i].worker] == i
        &&& forall|i: int|
            0 <= i < self.receipts.len() && (#[trigger] self.receipts[i]).outcome
                == Outcome::Failed ==> self.workers[self.receipts[i].worker].state
                == WorkerState::Failed && self.current[self.receipts[i].worker] == i
        // A worker stops on a stop order only once no unit is pending.
        &&& forall|w: int|
            0 <= w < self.workers.len() && (#[trigger] self.workers[w]).state
                == WorkerState::Terminated ==> self.closed && self.receipts.len()
                == self.submitted.len()
        // The stopped workers are those listed in `stopped`, each once.
        &&& forall|w: int|
            0 <= w < self.workers.len() && (#[trigger] self.workers[w]).state
                == WorkerState::Terminated ==> 0 <= self.current[w] < self.stopped.len()
                && self.stopped[self.current[w]] == w
        &&& forall|j: int|
            0 <= j < self.stopped.len() ==> 0 <= (#[trigger] self.stopped[j]) < self.workers.len()
                && self.workers[self.stopped[j]].state == WorkerState::Terminated
                && self.current[self.stopped[j]] == j
        // A shutdown sends one stop order for each worker, and each is either
        // still queued or was taken by a worker that stopped on it.
        &&& self.closed ==> self.queue.len() - self.pending().len() + self.stopped.len()
            == self.workers.len()
    }

    /// A new pool of `size` idle workers, with nothing submitted.
    pub open spec fn fresh(size: nat) -> PoolView<T> {
        PoolView {
            workers: Seq::new(size, |w: int| Worker { id: w as usize, state: WorkerState::Idle }),
            queue: Seq::empty(),
            closed: false,
            submitted: Seq::empty(),
            receipts: Seq::empty(),
            stopped: Seq::empty(),
            current: Seq::new(size, |w: int| 0int),
        }
    }

    /// The pool after `unit` was put at the back of the queue.
    pub open spec fn submit(self, unit: T) -> PoolView<T> {
        PoolView {
            queue: self.queue.push(Signal::NewTask(unit)),
            submitted: self.submitted.push(unit),
            ..self
        }
    }

    /// Whether worker `w` may take a signal now: it is idle and a signal
    /// waits. The state of the other workers plays no part.
    pub open spec fn can_take(self, w: int) -> bool {
        &&& 0 <= w < self.workers.len()
        &&& self.workers[w].state == WorkerState::Idle
        &&& self.queue.len() > 0
    }

    /// The pool after worker `w` took the oldest signal.
    pub open spec fn take(self, w: int) -> PoolView<T> {
        match self.queue[0] {
            Signal::NewTask(_) => PoolView {
                workers: self.workers.update(
                    w,
                    Worker { id: self.workers[w].id, state: WorkerState::Executing },
                ),
                queue: self.queue.skip(1),
                receipts: self.receipts.push(Receipt { worker: w, outcome: Outcome::Running }),
                current: self.current.update(w, self.receipts.len() as int),
                ..self
            },
            Signal::Terminate => PoolView {
                workers: self.workers.update(
                    w,
                    Worker { id: self.workers[w].id, state: WorkerState::Terminated },
                ),
                queue: self.queue.skip(1),
                stopped: self.stopped.push(w),
                current: self.current.update(w, self.stopped.len() as int),
                ..self
            },
        }
    }

    /// Whether worker `w` is running a unit.
    pub open spec fn is_executing(self, w: int) -> bool {
        &&& 0 <= w < self.workers.len()
        &&& self.workers[w].state == WorkerState::Executing
    }

    /// The pool after the unit that worker `w` was running ended: the worker
    /// waits again if the unit ran to its end, and is lost if the unit failed.
    pub open spec fn settle(self, w: int, failed: bool) -> PoolView<T> {
        PoolView {
            workers: self.workers.update(
                w,
                Worker {
                    id: self.workers[w].id,
                    state: if failed {
                        WorkerState::Failed
                    } else {
                        WorkerState::Idle
                    },
                },
            ),
            receipts: self.receipts.update(
                self.current[w],
                Receipt {
                    worker: w,
                    outcome: if failed {
                        Outcome::Failed
                    } else {
                        Outcome::Completed
                    },
                },
            ),
            ..self
        }
    }

    /// The pool after shutdown began: one stop order for each worker, behind
    /// all that was queued before.
    pub open spec fn close(self) -> PoolView<T> {
        PoolView {
            queue: self.queue + Seq::new(self.workers.len(), |k: int| Signal::<T>::Terminate),
            closed: true,
            ..self
        }
    }

    /// A new pool meets the invariant.
    pub proof fn lemma_fresh_wf(size: nat)
        requires
            1 <= size <= usize::MAX,
        ensures
            Self::fresh(size).wf(),
            Self::fresh(size).size() == size,
    {
        reveal(PoolView::wf);
    }

    /// Submitting to an open pool keeps the invariant.
    pub proof fn lemma_submit_wf(self, unit: T)
        requires
            self.wf(),
            !self.closed,
        ensures
            self.submit(unit).wf(),
    {
        reveal(PoolView::wf);
        let next = self.submit(unit);
        assert(next.pending() =~= self.pending().push(unit));
    }

    /// Taking a signal keeps the invariant.
    pub proof fn lemma_take_wf(self, w: int)
        requires
            self.wf(),
            self.can_take(w),
        ensures
            self.take(w).wf(),
    {
        reveal(PoolView::wf);
        let next = self.take(w);
        assert(self.queue[0] == if 0 < self.pending().len() {
            Signal::NewTask(self.pending()[0])
        } else {
            Signal::Terminate
        });
        match self.queue[0] {
            Signal::NewTask(_) => {
                assert(next.pending() =~= self.pending().skip(1));
                assert forall|k: int| 0 <= k < next.queue.len() implies #[trigger] next.queue[k]
                    == if k < next.pending().len() {
                    Signal::NewTask(next.pending()[k])
                } else {
                    Signal::Terminate
                } by {
                    assert(next.queue[k] == self.queue[k + 1]);
                }
            },
            Signal::Terminate => {
                assert(next.pending() =~= self.pending());
                assert forall|k: int| 0 <= k < next.queue.len() implies #[trigger] next.queue[k]
                    == if k < next.pending().len() {
                    Signal::NewTask(next.pending()[k])
                } else {
                    Signal::Terminate
                } by {
                    assert(next.queue[k] == self.queue[k + 1]);
                }
            },
        }
    }

    /// The end of a run keeps the invariant, whichever way the run ended.
    pub proof fn lemma_settle_wf(self, w: int, failed: bool)
        requires
            self.wf(),
            self.is_executing(w),
        ensures
            self.settle(w, failed).wf(),
    {
        reveal(PoolView::wf);
        let next = self.settle(w, failed);
        assert(next.pending() =~= self.pending());
    }

    /// The start of shutdown keeps the invariant.
    pub proof fn lemma_close_wf(self)
        requires
            self.wf(),
            !self.closed,
        ensures
            self.close().wf(),
    {
        reveal(PoolView::wf);
        let next = self.close();
        assert(next.pending() =~= self.pending());
        if self.stopped.len() > 0 {
            let w = self.stopped[0];
            assert(self.workers[w].state == WorkerState::Terminated);
        }
    }
}

} // verus!
