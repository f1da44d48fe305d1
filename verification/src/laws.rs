//! What holds of every pool, whatever its workers did and in whatever order.
//!
//! Each law is stated of a state that meets the invariant. A new pool meets
//! it, and every operation of the pool keeps it, so the laws hold of every
//! pool at every moment.
use vstd::prelude::*;
use vstd::set_lib::{lemma_int_range, lemma_len_subset, set_int_range};
use crate::model::{Outcome, PoolView};
use crate::signal::Signal;
use crate::worker::WorkerState;

verus! {

/// A new pool has exactly as many workers as were asked for, each of them
/// alive and waiting, and nothing in its queue.
pub proof fn law_fresh_pool_is_live<T>(size: nat)
    requires
        1 <= size <= usize::MAX,
    ensures
        PoolView::<T>::fresh(size).wf(),
        PoolView::<T>::fresh(size).size() == size,
        PoolView::<T>::fresh(size).queue.len() == 0,
        !PoolView::<T>::fresh(size).closed,
        !PoolView::<T>::fresh(size).all_exited(),
        forall|w: int|
            0 <= w < size ==> (#[trigger] PoolView::<T>::fresh(size).workers[w]).state
                == WorkerState::Idle,
{
    PoolView::<T>::lemma_fresh_wf(size);
    assert(!PoolView::<T>::fresh(size).workers[0].exited());
}

/// The number of workers never changes, and is never zero: no step of the
/// pool adds a worker or takes one away, whatever becomes of its state.
pub proof fn law_size_is_fixed<T>(pool: PoolView<T>, unit: T, w: int, failed: bool)
    requires
        pool.wf(),
    ensures
        pool.size() >= 1,
        pool.submit(unit).size() == pool.size(),
        pool.can_take(w) ==> pool.take(w).size() == pool.size(),
        pool.is_executing(w) ==> pool.settle(w, failed).size() == pool.size(),
        pool.close().size() == pool.size(),
{
    reveal(PoolView::wf);
}

/// The queue is first in, first out: of two units that are both pending, the
/// one submitted earlier stands nearer the front, and each stands where its
/// rank among the pending units puts it.
pub proof fn law_fifo<T>(pool: PoolView<T>, a: int, b: int)
    requires
        pool.wf(),
        pool.receipts.len() <= a < b < pool.submitted.len(),
    ensures
        0 <= a - pool.receipts.len() < b - pool.receipts.len() < pool.queue.len(),
        pool.queue[a - pool.receipts.len()] == Signal::NewTask(pool.submitted[a]),
        pool.queue[b - pool.receipts.len()] == Signal::NewTask(pool.submitted[b]),
{
    reveal(PoolView::wf);
    let taken = pool.receipts.len() as int;
    assert(pool.pending()[a - taken] == pool.submitted[a]);
    assert(pool.pending()[b - taken] == pool.submitted[b]);
    assert(pool.queue[a - taken] == Signal::NewTask(pool.pending()[a - taken]));
    assert(pool.queue[b - taken] == Signal::NewTask(pool.pending()[b - taken]));
}

/// Units leave the queue in the order of submission: the units taken so far
/// are the first ones submitted, and the worker that asks next gets the
/// oldest pending unit, whichever worker it is.
pub proof fn law_oldest_first<T>(pool: PoolView<T>, w: int)
    requires
        pool.wf(),
        pool.can_take(w),
        pool.pending().len() > 0,
    ensures
        pool.queue[0] == Signal::NewTask(pool.submitted[pool.receipts.len() as int]),
        pool.take(w).receipts.len() == pool.receipts.len() + 1,
        pool.take(w).receipts[pool.receipts.len() as int].worker == w,
        pool.take(w).pending() == pool.pending().skip(1),
{
    reveal(PoolView::wf);
    assert(pool.queue[0] == Signal::NewTask(pool.pending()[0]));
    assert(pool.take(w).pending() =~= pool.pending().skip(1));
}

/// No unit is delivered twice: two workers that are executing hold two
/// different units, and each holds a unit that was submitted.
pub proof fn law_single_delivery<T>(pool: PoolView<T>, v: int, w: int)
    requires
        pool.wf(),
        pool.is_executing(v),
        pool.is_executing(w),
        v != w,
    ensures
        pool.current[v] != pool.current[w],
        0 <= pool.current[v] < pool.submitted.len(),
        0 <= pool.current[w] < pool.submitted.len(),
{
    reveal(PoolView::wf);
    assert(pool.workers[v].state == WorkerState::Executing);
    assert(pool.workers[w].state == WorkerState::Executing);
}

/// The stop orders stand behind all the work: a place in the queue holds a
/// stop order exactly if it lies behind every pending unit.
pub proof fn law_stop_orders_behind_work<T>(pool: PoolView<T>, k: int)
    requires
        pool.wf(),
        0 <= k < pool.queue.len(),
    ensures
        pool.pending().len() <= pool.queue.len(),
        pool.queue[k] is Terminate <==> k >= pool.pending().len(),
        pool.queue[k] is Terminate ==> pool.closed,
{
    reveal(PoolView::wf);
}

/// A busy worker holds up nobody else: when worker `w` takes a signal, every
/// other worker stays as it was, and an idle one among them can take the
/// next signal at once, so that as many units run side by side as there are
/// workers.
pub proof fn law_workers_run_side_by_side<T>(pool: PoolView<T>, v: int, w: int)
    requires
        pool.wf(),
        pool.can_take(w),
        0 <= v < pool.size(),
        v != w,
    ensures
        pool.take(w).workers[v] == pool.workers[v],
        pool.can_take(v) && pool.queue.len() >= 2 ==> pool.take(w).can_take(v),
        pool.queue[0] is NewTask ==> pool.take(w).is_executing(w),
{
    reveal(PoolView::wf);
}

/// A stop order is taken only behind all the work: once any worker has
/// stopped on one, shutdown has begun and no unit is pending.
pub proof fn law_work_before_stop<T>(pool: PoolView<T>, w: int)
    requires
        pool.wf(),
        0 <= w < pool.size(),
        pool.workers[w].state == WorkerState::Terminated,
    ensures
        pool.closed,
        pool.pending().len() == 0,
        forall|k: int| 0 <= k < pool.queue.len() ==> #[trigger] pool.queue[k] is Terminate,
{
    reveal(PoolView::wf);
}

/// When every worker has left its loop and one of them stopped on a stop
/// order, no unit is pending or running: every unit that was submitted was
/// taken once, and either ran to its end or failed together with its worker.
pub proof fn law_nothing_left_behind<T>(pool: PoolView<T>, w: int)
    requires
        pool.wf(),
        pool.all_exited(),
        0 <= w < pool.size(),
        pool.workers[w].state == WorkerState::Terminated,
    ensures
        pool.pending().len() == 0,
        pool.receipts.len() == pool.submitted.len(),
        forall|i: int|
            0 <= i < pool.submitted.len() ==> (#[trigger] pool.receipts[i]).outcome
                != Outcome::Running,
        forall|i: int|
            0 <= i < pool.submitted.len() && (#[trigger] pool.receipts[i]).outcome
                == Outcome::Failed ==> pool.workers[pool.receipts[i].worker].state
                == WorkerState::Failed,
{
    reveal(PoolView::wf);
    assert forall|i: int| 0 <= i < pool.submitted.len() implies (#[trigger] pool.receipts[i]).outcome
        != Outcome::Running by {
        if pool.receipts[i].outcome == Outcome::Running {
            let v = pool.receipts[i].worker;
            assert(pool.workers[v].exited());
        }
    }
}

/// When every worker has stopped on a stop order, every unit that was ever
/// submitted has run to its end, exactly once: each has its one receipt, and
/// the receipt says completed.
pub proof fn law_each_unit_once<T>(pool: PoolView<T>)
    requires
        pool.wf(),
        forall|w: int|
            0 <= w < pool.size() ==> (#[trigger] pool.workers[w]).state == WorkerState::Terminated,
    ensures
        pool.pending().len() == 0,
        pool.receipts.len() == pool.submitted.len(),
        forall|i: int|
            0 <= i < pool.submitted.len() ==> (#[trigger] pool.receipts[i]).outcome
                == Outcome::Completed,
{
    reveal(PoolView::wf);
    assert(pool.workers[0].state == WorkerState::Terminated);
    assert forall|i: int| 0 <= i < pool.submitted.len() implies (#[trigger] pool.receipts[i]).outcome
        == Outcome::Completed by {
        let v = pool.receipts[i].worker;
        assert(pool.workers[v].state == WorkerState::Terminated);
    }
}

/// A shutdown sends exactly one stop order for each worker: at every moment
/// after it began, the stop orders still queued and the workers that stopped
/// on one are together as many as the pool has workers, and no worker
/// stopped twice.
pub proof fn law_one_stop_order_each<T>(pool: PoolView<T>)
    requires
        pool.wf(),
        pool.closed,
    ensures
        pool.queue.len() - pool.pending().len() + pool.stopped.len() == pool.size(),
        pool.stopped.no_duplicates(),
        forall|j: int|
            0 <= j < pool.stopped.len() ==> 0 <= (#[trigger] pool.stopped[j]) < pool.size()
                && pool.workers[pool.stopped[j]].state == WorkerState::Terminated,
        forall|w: int|
            0 <= w < pool.size() && (#[trigger] pool.workers[w]).state == WorkerState::Terminated
                ==> pool.stopped.contains(w),
{
    reveal(PoolView::wf);
    assert forall|w: int|
        0 <= w < pool.size() && (#[trigger] pool.workers[w]).state
            == WorkerState::Terminated implies pool.stopped.contains(w) by {
        assert(pool.stopped[pool.current[w]] == w);
    }
}

/// Before shutdown begins the queue holds no stop order and no worker has
/// stopped on one.
pub proof fn law_no_stop_order_unasked<T>(pool: PoolView<T>)
    requires
        pool.wf(),
        !pool.closed,
    ensures
        pool.queue.len() == pool.pending().len(),
        pool.stopped.len() == 0,
        forall|k: int| 0 <= k < pool.queue.len() ==> #[trigger] pool.queue[k] is NewTask,
{
    reveal(PoolView::wf);
    if pool.stopped.len() > 0 {
        let w = pool.stopped[0];
        assert(pool.workers[w].state == WorkerState::Terminated);
    }
}

/// When every worker has stopped on a stop order the queue is empty: all the
/// work and all the stop orders were taken.
pub proof fn law_all_stopped_queue_empty<T>(pool: PoolView<T>)
    requires
        pool.wf(),
        forall|w: int|
            0 <= w < pool.size() ==> (#[trigger] pool.workers[w]).state == WorkerState::Terminated,
    ensures
        pool.stopped.len() == pool.size(),
        pool.queue.len() == 0,
{
    reveal(PoolView::wf);
    assert(pool.workers[0].state == WorkerState::Terminated);
    law_one_stop_order_each(pool);
    let all = set_int_range(0, pool.size() as int);
    lemma_int_range(0, pool.size() as int);
    pool.stopped.unique_seq_to_set();
    assert forall|w: int| all.contains(w) implies pool.stopped.to_set().contains(w) by {
        assert(pool.workers[w].state == WorkerState::Terminated);
        assert(pool.stopped.contains(w));
    }
    lemma_len_subset(all, pool.stopped.to_set());
}

/// Once every worker has left its loop the queue stands still: no worker
/// can take a signal, so a unit put there would never run.
pub proof fn law_dead_pool_takes_nothing<T>(pool: PoolView<T>, w: int)
    requires
        pool.wf(),
        pool.all_exited(),
    ensures
        !pool.can_take(w),
        !pool.is_executing(w),
{
    if 0 <= w < pool.workers.len() {
        assert(pool.workers[w].exited());
    }
}

/// A failure costs the pool one worker for good: a failed worker takes no
/// further signal, and each failed worker was lost to a unit of its own.
pub proof fn law_failure_shrinks_pool<T>(pool: PoolView<T>, v: int, w: int)
    requires
        pool.wf(),
        0 <= v < pool.size(),
        0 <= w < pool.size(),
        pool.workers[v].state == WorkerState::Failed,
        pool.workers[w].state == WorkerState::Failed,
    ensures
        !pool.can_take(v),
        pool.receipts[pool.current[v]].outcome == Outcome::Failed,
        v != w ==> pool.current[v] != pool.current[w],
{
    reveal(PoolView::wf);
}

} // verus!
