//! The executable pool: a queue of signals and a fixed set of workers.
use vstd::prelude::*;
use std::collections::VecDeque;
use crate::model::{Outcome, PoolView, Receipt};
use crate::signal::{PoolError, Signal};
use crate::worker::{Worker, WorkerState};

verus! {

/// A pool of a fixed number of workers that share one queue of signals.
///
/// `T` is the unit of work. The pool moves units and never runs one: a worker
/// thread calls [`TaskPool::dispatch`] under the caller's lock, runs the unit
/// that it got outside the lock, and then calls [`TaskPool::complete`] or
/// [`TaskPool::fail`].
pub struct TaskPool<T> {
    workers: Vec<Worker>,
    queue: VecDeque<Signal<T>>,
    closed: bool,
    submitted: Ghost<Seq<T>>,
    receipts: Ghost<Seq<Receipt>>,
    stopped: Ghost<Seq<int>>,
    current: Ghost<Seq<int>>,
}

impl<T> View for TaskPool<T> {
    type V = PoolView<T>;

    closed spec fn view(&self) -> PoolView<T> {
        PoolView {
            workers: self.workers@,
            queue: self.queue@,
            closed: self.closed,
            submitted: self.submitted@,
            receipts: self.receipts@,
            stopped: self.stopped@,
            current: self.current@,
        }
    }
}

impl<T> TaskPool<T> {
    /// A pool of `size` idle workers with an empty queue. A pool of no
    /// workers is refused, and nothing else is.
    pub fn new(size: usize) -> (result: Result<TaskPool<T>, PoolError>)
        ensures
            match result {
                Ok(pool) => size >= 1 && pool@ == PoolView::<T>::fresh(size as nat) && pool@.wf()
                    && pool@.size() == size && !pool@.all_exited(),
                Err(e) => size == 0 && e == PoolError::ConfigError,
            },
    {
        if size == 0 {
            return Err(PoolError::ConfigError);
        }
        let mut workers: Vec<Worker> = Vec::new();
        let mut id: usize = 0;
        while id < size
            invariant
                id <= size,
                workers@.len() == id,
                forall|w: int|
                    0 <= w < id ==> #[trigger] workers@[w] == (Worker {
                        id: w as usize,
                        state: WorkerState::Idle,
                    }),
            decreases size - id,
        {
            workers.push(Worker::new(id));
            id = id + 1;
        }
        let pool = TaskPool {
            workers,
            queue: VecDeque::new(),
            closed: false,
            submitted: Ghost(Seq::empty()),
            receipts: Ghost(Seq::empty()),
            stopped: Ghost(Seq::empty()),
            current: Ghost(Seq::new(size as nat, |w: int| 0int)),
        };
        proof {
            assert(pool@.workers =~= PoolView::<T>::fresh(size as nat).workers);
            PoolView::<T>::lemma_fresh_wf(size as nat);
            assert(!pool@.workers[0].exited());
        }
        Ok(pool)
    }

    /// The number of workers.
    pub fn size(&self) -> (result: usize)
        ensures
            result == self@.size(),
    {
        self.workers.len()
    }

    /// Whether shutdown has begun.
    pub fn is_closed(&self) -> (result: bool)
        ensures
            result == self@.closed,
    {
        self.closed
    }

    /// The number of signals that wait in the queue.
    pub fn queue_len(&self) -> (result: usize)
        ensures
            result == self@.queue.len(),
    {
        self.queue.len()
    }

    /// The state of worker `id`, if the pool has such a worker.
    pub fn worker_state(&self, id: usize) -> (result: Option<WorkerState>)
        ensures
            result == if id < self@.size() {
                Some(self@.workers[id as int].state)
            } else {
                None
            },
    {
        if id < self.workers.len() {
            Some(self.workers[id].state)
        } else {
            None
        }
    }

    /// Whether every worker has left its loop, so that joining the workers'
    /// threads would not block.
    pub fn all_exited(&self) -> (result: bool)
        ensures
            result == self@.all_exited(),
    {
        let mut w: usize = 0;
        while w < self.workers.len()
            invariant
                w <= self.workers@.len(),
                forall|v: int| 0 <= v < w ==> (#[trigger] self.workers@[v]).exited(),
            decreases self.workers@.len() - w,
        {
            if !self.workers[w].has_exited() {
                assert(!self@.workers[w as int].exited());
                return false;
            }
            w = w + 1;
        }
        true
    }

    /// Puts `task` at the back of the queue, behind all that was submitted
    /// before. The unit is refused and dropped, and the pool stays as it was,
    /// once shutdown has begun, and also once every worker has left its loop:
    /// then nobody is left to take a unit from the queue.
    pub fn execute(&mut self, task: T) -> (result: Result<(), PoolError>)
        requires
            old(self)@.wf(),
        ensures
            final(self)@.wf(),
            old(self)@.closed || old(self)@.all_exited() ==> result == Err::<(), PoolError>(
                PoolError::QueueBroken,
            ) && final(self)@ == old(self)@,
            !old(self)@.closed && !old(self)@.all_exited() ==> result.is_ok() && final(self)@
                == old(self)@.submit(task),
    {
        if self.closed || self.all_exited() {
            return Err(PoolError::QueueBroken);
        }
        proof {
            self@.lemma_submit_wf(task);
            self.submitted = Ghost(self.submitted@.push(task));
        }
        self.queue.push_back(Signal::NewTask(task));
        Ok(())
    }

    /// Worker `id` asks for its next signal. If it is idle and a signal waits,
    /// it gets the oldest one: with a unit of work it starts executing, with
    /// `Terminate` it stops for good. Otherwise it gets nothing and the pool
    /// stays as it was. What the other workers are doing plays no part.
    pub fn dispatch(&mut self, id: usize) -> (result: Option<Signal<T>>)
        requires
            old(self)@.wf(),
        ensures
            final(self)@.wf(),
            old(self)@.can_take(id as int) ==> result == Some(old(self)@.queue[0]) && final(self)@
                == old(self)@.take(id as int),
            !old(self)@.can_take(id as int) ==> result.is_none() && final(self)@ == old(self)@,
    {
        if id >= self.workers.len() {
            return None;
        }
        let mut worker = self.workers[id];
        if worker.state != WorkerState::Idle {
            return None;
        }
        match self.queue.pop_front() {
            None => None,
            Some(signal) => {
                proof {
                    old(self)@.lemma_take_wf(id as int);
                    assert(self.queue@ =~= old(self)@.queue.skip(1));
                    if signal is NewTask {
                        self.current = Ghost(
                            self.current@.update(id as int, self.receipts@.len() as int),
                        );
                        self.receipts = Ghost(
                            self.receipts@.push(
                                Receipt { worker: id as int, outcome: Outcome::Running },
                            ),
                        );
                    } else {
                        self.current = Ghost(
                            self.current@.update(id as int, self.stopped@.len() as int),
                        );
                        self.stopped = Ghost(self.stopped@.push(id as int));
                    }
                }
                let unit = worker.receive(signal);
                self.workers.set(id, worker);
                match unit {
                    Some(t) => Some(Signal::NewTask(t)),
                    None => Some(Signal::Terminate),
                }
            },
        }
    }

    /// The unit that worker `id` was running came to its end: the worker
    /// waits for its next signal. Returns whether there was such a run; if
    /// there was none, the pool stays as it was.
    pub fn complete(&mut self, id: usize) -> (result: bool)
        requires
            old(self)@.wf(),
        ensures
            final(self)@.wf(),
            result == old(self)@.is_executing(id as int),
            final(self)@ == if result {
                old(self)@.settle(id as int, false)
            } else {
                old(self)@
            },
    {
        if id >= self.workers.len() {
            return false;
        }
        let mut worker = self.workers[id];
        if !worker.finish() {
            return false;
        }
        proof {
            old(self)@.lemma_settle_wf(id as int, false);
            self.receipts = Ghost(
                self.receipts@.update(
                    self.current@[id as int],
                    Receipt { worker: id as int, outcome: Outcome::Completed },
                ),
            );
        }
        self.workers.set(id, worker);
        true
    }

    /// The unit that worker `id` was running failed and took the worker with
    /// it: the pool has one worker less from now on. Returns whether there
    /// was such a run; if there was none, the pool stays as it was.
    pub fn fail(&mut self, id: usize) -> (result: bool)
        requires
            old(self)@.wf(),
        ensures
            final(self)@.wf(),
            result == old(self)@.is_executing(id as int),
            final(self)@ == if result {
                old(self)@.settle(id as int, true)
            } else {
                old(self)@
            },
    {
        if id >= self.workers.len() {
            return false;
        }
        let mut worker = self.workers[id];
        if !worker.fail() {
            return false;
        }
        proof {
            old(self)@.lemma_settle_wf(id as int, true);
            self.receipts = Ghost(
                self.receipts@.update(
                    self.current@[id as int],
                    Receipt { worker: id as int, outcome: Outcome::Failed },
                ),
            );
        }
        self.workers.set(id, worker);
        true
    }

    /// Begins shutdown: puts one `Terminate` for each worker behind all that
    /// is queued, and refuses every later submission. Returns the workers to
    /// join, in the order of their indices. A second call sends nothing and
    /// returns no worker: each worker is joined once.
    pub fn shutdown(&mut self) -> (join: Vec<usize>)
        requires
            old(self)@.wf(),
        ensures
            final(self)@.wf(),
            old(self)@.closed ==> join@.len() == 0 && final(self)@ == old(self)@,
            !old(self)@.closed ==> final(self)@ == old(self)@.close() && join@ == Seq::new(
                old(self)@.size(),
                |w: int| w as usize,
            ),
    {
        let mut join: Vec<usize> = Vec::new();
        if self.closed {
            return join;
        }
        let size = self.workers.len();
        let mut w: usize = 0;
        while w < size
            invariant
                w <= size,
                size == old(self)@.workers.len(),
                self.workers == old(self).workers,
                self.closed == old(self).closed,
                self.submitted == old(self).submitted,
                self.receipts == old(self).receipts,
                self.stopped == old(self).stopped,
                self.current == old(self).current,
                self.queue@ == old(self)@.queue + Seq::new(w as nat, |k: int| Signal::<T>::Terminate),
                join@ == Seq::new(w as nat, |k: int| k as usize),
            decreases size - w,
        {
            self.queue.push_back(Signal::Terminate);
            join.push(w);
            proof {
                assert(self.queue@ =~= old(self)@.queue + Seq::new(
                    (w + 1) as nat,
                    |k: int| Signal::<T>::Terminate,
                ));
                assert(join@ =~= Seq::new((w + 1) as nat, |k: int| k as usize));
            }
            w = w + 1;
        }
        self.closed = true;
        proof {
            old(self)@.lemma_close_wf();
        }
        join
    }
}

} // verus!
