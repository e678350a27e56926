//! What holds of every pool, whatever its owner and its workers do and in
//! whatever order they do it: the invariant, the bound on the jobs that run
//! at once, and the finality of a stop.
//!
//! The laws on the way of the jobs through the pool are in
//! [`crate::delivery`], those on the shutdown in [`crate::teardown`].

use crate::count::{count_if, lemma_count_bounded};
use crate::history::{
    deliveries, handed_out, lemma_apply_inv, lemma_prefix_fits, ops_fit, run, Op,
};
use crate::model::{executing_worker, lemma_fresh_inv, running_worker, PoolState};
use crate::worker::{WorkerState, WorkerView};
use vstd::prelude::*;

verus! {

/// A new pool of `size` workers has exactly `size` running workers before
/// anything is submitted: each of them waits, none has stopped, none runs a
/// job, and nothing is queued.
pub proof fn law_new_pool_has_all_workers_running<T>(size: nat)
    requires
        size > 0,
    ensures
        ({
            let start = PoolState::<T>::fresh(size);
            &&& start.inv()
            &&& start.size() == size
            &&& start.running() == size
            &&& start.executing() == 0
            &&& start.pending() == 0
            &&& forall|id: int|
                0 <= id < size ==> (#[trigger] start.workers[id]).state == WorkerState::Waiting
        }),
{
    lemma_fresh_inv::<T>(size);
}

/// The invariant of the pool holds in every state that a history reaches
/// from a state in which it holds; and a pool that was shut down stays so.
pub proof fn law_invariant_holds<T>(s: PoolState<T>, ops: Seq<Op<T>>)
    requires
        s.inv(),
        ops_fit(s, ops),
    ensures
        run(s, ops).inv(),
        run(s, ops).size() == s.size(),
        s.terminating ==> run(s, ops).terminating,
    decreases ops.len(),
{
    if ops.len() > 0 {
        law_invariant_holds(s, ops.drop_last());
        lemma_apply_inv(run(s, ops.drop_last()), ops.last());
    }
}

/// At no instant do more jobs run than the pool has workers: whatever
/// happened before, the number of workers that run a job is at most the
/// number of workers that are in their loop, which is at most the size that
/// the pool was made with.
pub proof fn law_concurrency_is_bounded<T>(s: PoolState<T>, ops: Seq<Op<T>>)
    requires
        ops_fit(s, ops),
    ensures
        run(s, ops).executing() <= run(s, ops).running() <= s.size(),
{
    lemma_prefix_fits(s, ops);
    let workers = run(s, ops).workers;
    lemma_count_bounded(workers, running_worker());
    lemma_executing_are_running(workers);
}

/// Among any workers, those that run a job are at most as many as those that
/// are in their loop.
pub proof fn lemma_executing_are_running(workers: Seq<WorkerView>)
    ensures
        count_if(workers, executing_worker()) <= count_if(workers, running_worker()),
    decreases workers.len(),
{
    if workers.len() > 0 {
        lemma_executing_are_running(workers.drop_last());
    }
}

/// A stopped worker never runs again. Whatever happens to the pool, a worker
/// that has stopped stays stopped, for the reason for which it stopped, and
/// no job is ever handed to it.
pub proof fn law_stopped_worker_never_runs_again<T>(s: PoolState<T>, ops: Seq<Op<T>>, id: int)
    requires
        ops_fit(s, ops),
        s.has_worker(id),
        !s.workers[id].is_running(),
    ensures
        run(s, ops).workers[id].state == s.workers[id].state,
        forall|i: int|
            0 <= i < deliveries(s, ops).len() ==> (#[trigger] deliveries(s, ops)[i]).worker
                != id,
    decreases ops.len(),
{
    if ops.len() > 0 {
        lemma_prefix_fits(s, ops);
        law_stopped_worker_never_runs_again(s, ops.drop_last(), id);
        let earlier = deliveries(s, ops.drop_last());
        let last = handed_out(run(s, ops.drop_last()), ops.last());
        assert forall|i: int| 0 <= i < deliveries(s, ops).len() implies (#[trigger] deliveries(
            s,
            ops,
        )[i]).worker != id by {
            if i < earlier.len() {
                assert(deliveries(s, ops)[i] == earlier[i]);
            } else {
                assert(deliveries(s, ops)[i] == last[i - earlier.len()]);
            }
        }
    }
}

} // verus!
