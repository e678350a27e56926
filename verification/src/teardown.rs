//! The shutdown: it cannot hang, nothing runs once it is complete, and a job
//! that is submitted after it never runs.

use crate::count::{
    count_if, lemma_count_drop_first, lemma_count_push, lemma_count_update, lemma_count_zero,
};
use crate::history::{
    accepted, apply, deliveries, handed_out, jobs_of, lemma_queued_jobs_drop_first, op_fits,
    ops_fit, queued_jobs, run, taken_in, Delivery, Op,
};
use crate::laws::{law_invariant_holds, lemma_executing_are_running};
use crate::message::Message;
use crate::model::{
    lemma_take_handles_counts, running_worker, signalled_worker, stop_signal, PoolState,
};
use vstd::prelude::*;

verus! {

/// After a shutdown no running worker is ever left waiting: its turn hands
/// it a job or stops it, because a stop signal is queued for it or the queue
/// is closed.
pub proof fn law_no_worker_waits_after_shutdown<T>(s: PoolState<T>, id: int)
    requires
        s.inv(),
        s.terminating,
        s.has_worker(id),
    ensures
        !(s.turn_action(id) is Wait),
{
}

/// Whether `op` is the turn of a worker that is in its loop.
pub open spec fn is_live_turn<T>(s: PoolState<T>, op: Op<T>) -> bool {
    op matches Op::Turn(id) && s.workers[id].is_running()
}

/// The number of turns that the history `ops` lets a worker take while that
/// worker is in its loop.
pub open spec fn live_turns<T>(s: PoolState<T>, ops: Seq<Op<T>>) -> nat
    decreases ops.len(),
{
    if ops.len() == 0 {
        0
    } else {
        live_turns(s, ops.drop_last()) + if is_live_turn(run(s, ops.drop_last()), ops.last()) {
            1nat
        } else {
            0nat
        }
    }
}

/// After a shutdown, a turn of a running worker takes an entry from the
/// queue or stops the worker.
proof fn lemma_apply_makes_progress<T>(s: PoolState<T>, op: Op<T>)
    requires
        s.inv(),
        s.terminating,
        op_fits(s, op),
    ensures
        (if is_live_turn(s, op) {
            1nat
        } else {
            0nat
        }) + apply(s, op).pending() + apply(s, op).running() <= s.pending() + s.running()
            + taken_in(s, op).len(),
{
    match op {
        Op::Turn(id) => {
            if s.workers[id].is_running() {
                lemma_count_update(
                    s.workers,
                    id,
                    s.workers[id].step(s.queue.front()),
                    running_worker(),
                );
            }
        },
        Op::LockFailed(id) => {
            lemma_count_update(s.workers, id, s.workers[id].fail(), running_worker());
        },
        _ => {},
    }
}

/// A shutdown cannot hang. After it, every turn that a running worker takes
/// removes an entry from the queue or stops the worker, so the workers can
/// take only as many turns as there are entries and running workers, one
/// more for each job that is still accepted, before all of them have
/// stopped.
pub proof fn law_shutdown_terminates<T>(s: PoolState<T>, ops: Seq<Op<T>>)
    requires
        s.inv(),
        s.terminating,
        ops_fit(s, ops),
    ensures
        live_turns(s, ops) + run(s, ops).pending() + run(s, ops).running() <= s.pending()
            + s.running() + accepted(s, ops).len(),
    decreases ops.len(),
{
    if ops.len() > 0 {
        law_invariant_holds(s, ops.drop_last());
        law_shutdown_terminates(s, ops.drop_last());
        lemma_apply_makes_progress(run(s, ops.drop_last()), ops.last());
    }
}

/// After a shutdown, an operation takes a stop signal from the queue exactly
/// when it stops a worker by it.
proof fn lemma_apply_conserves_signals<T>(s: PoolState<T>, op: Op<T>)
    requires
        s.inv(),
        s.terminating,
        op_fits(s, op),
    ensures
        apply(s, op).queued_signals() + apply(s, op).signalled() == s.queued_signals()
            + s.signalled(),
{
    match op {
        Op::Execute(job) => {
            lemma_count_push(s.queue.entries, Message::NewJob(job), stop_signal::<T>());
        },
        Op::Turn(id) if s.workers[id].is_running() => {
            lemma_count_update(
                s.workers,
                id,
                s.workers[id].step(s.queue.front()),
                signalled_worker(),
            );
            if s.queue.entries.len() > 0 {
                lemma_count_drop_first(s.queue.entries, stop_signal::<T>());
            }
        },
        Op::LockFailed(id) => {
            lemma_count_update(s.workers, id, s.workers[id].fail(), signalled_worker());
        },
        _ => {},
    }
}

/// Each stop signal stops exactly one worker. After a shutdown, the stop
/// signals that are queued and the workers that a stop signal has stopped
/// are together always as many as before: a signal leaves the queue only by
/// stopping a worker, and no worker takes a second one.
pub proof fn law_each_stop_signal_stops_one_worker<T>(s: PoolState<T>, ops: Seq<Op<T>>)
    requires
        s.inv(),
        s.terminating,
        ops_fit(s, ops),
    ensures
        run(s, ops).queued_signals() + run(s, ops).signalled() == s.queued_signals()
            + s.signalled(),
    decreases ops.len(),
{
    if ops.len() > 0 {
        law_invariant_holds(s, ops.drop_last());
        law_each_stop_signal_stops_one_worker(s, ops.drop_last());
        lemma_apply_conserves_signals(run(s, ops.drop_last()), ops.last());
    }
}

/// A second shutdown changes nothing and leaves nothing to join.
pub proof fn law_shutdown_is_idempotent<T>(s: PoolState<T>)
    ensures
        s.shutdown().shutdown() == s.shutdown(),
        s.shutdown().join_plan() == Seq::<usize>::empty(),
        s.shutdown().lost_signals() == 0,
{
}

/// Once every worker has stopped, one more operation hands out nothing,
/// queues nothing and starts no worker again.
proof fn lemma_apply_when_all_stopped<T>(s: PoolState<T>, op: Op<T>)
    requires
        s.inv(),
        s.running() == 0,
        op_fits(s, op),
    ensures
        apply(s, op).running() == 0,
        apply(s, op).queue.entries == s.queue.entries,
        handed_out(s, op) == Seq::<Delivery<T>>::empty(),
        taken_in(s, op) == Seq::<T>::empty(),
{
    lemma_count_zero(s.workers, running_worker());
    match op {
        Op::LockFailed(id) => {
            assert(s.workers.update(id, s.workers[id].fail()) =~= s.workers);
        },
        Op::Shutdown => {
            lemma_take_handles_counts(s.workers, s.shutdown().workers);
        },
        _ => {},
    }
}

/// Nothing runs after the teardown is complete. Once every worker has
/// stopped, no worker runs again, no job is handed out, and every job that
/// is submitted is dropped; what was left in the queue stays there.
pub proof fn law_nothing_runs_after_all_stopped<T>(s: PoolState<T>, ops: Seq<Op<T>>)
    requires
        s.inv(),
        s.running() == 0,
        ops_fit(s, ops),
    ensures
        run(s, ops).running() == 0,
        run(s, ops).executing() == 0,
        run(s, ops).queue.entries == s.queue.entries,
        deliveries(s, ops) == Seq::<Delivery<T>>::empty(),
        accepted(s, ops) == Seq::<T>::empty(),
    decreases ops.len(),
{
    if ops.len() > 0 {
        law_invariant_holds(s, ops.drop_last());
        law_nothing_runs_after_all_stopped(s, ops.drop_last());
        lemma_apply_when_all_stopped(run(s, ops.drop_last()), ops.last());
    }
    lemma_executing_are_running(run(s, ops).workers);
}

/// Whether the first `k` entries of the queue of `s` are guarded: either
/// they hold a stop signal for every running worker, or they are the whole
/// queue and nothing more can be sent.
pub open spec fn guarded<T>(s: PoolState<T>, k: int) -> bool {
    &&& 0 <= k <= s.queue.entries.len()
    &&& {
        ||| count_if(s.queue.entries.take(k), stop_signal::<T>()) >= s.running()
        ||| !s.queue.sending && k == s.queue.entries.len()
    }
}

/// After a shutdown, an operation takes from the guarded front of the queue
/// only, and leaves what remains of it guarded.
proof fn lemma_apply_keeps_guard<T>(s: PoolState<T>, op: Op<T>, k: int) -> (left: int)
    requires
        s.inv(),
        s.terminating,
        op_fits(s, op),
        guarded(s, k),
    ensures
        guarded(apply(s, op), left),
        jobs_of(handed_out(s, op)) + queued_jobs(apply(s, op).queue.entries.take(left))
            == queued_jobs(s.queue.entries.take(k)),
{
    let front = s.queue.entries.take(k);
    match op {
        Op::Execute(job) => {
            assert(apply(s, op).queue.entries.take(k) =~= front);
            k
        },
        Op::Turn(id) if s.workers[id].is_running() => {
            lemma_count_update(
                s.workers,
                id,
                s.workers[id].step(s.queue.front()),
                running_worker(),
            );
            if s.queue.entries.len() > 0 {
                // The worker takes the oldest entry, which is a guarded one.
                assert(apply(s, op).queue.entries.take(k - 1) =~= front.drop_first());
                lemma_queued_jobs_drop_first(front);
                lemma_count_drop_first(front, stop_signal::<T>());
                k - 1
            } else {
                k
            }
        },
        Op::LockFailed(id) => {
            lemma_count_update(s.workers, id, s.workers[id].fail(), running_worker());
            k
        },
        _ => k,
    }
}

/// After a shutdown, a history takes from the guarded front of the queue
/// only.
proof fn lemma_run_keeps_guard<T>(s: PoolState<T>, ops: Seq<Op<T>>) -> (left: int)
    requires
        s.inv(),
        s.terminating,
        ops_fit(s, ops),
    ensures
        guarded(run(s, ops), left),
        jobs_of(deliveries(s, ops)) + queued_jobs(run(s, ops).queue.entries.take(left))
            == queued_jobs(s.queue.entries),
    decreases ops.len(),
{
    if ops.len() == 0 {
        let all = s.queue.entries.len() as int;
        assert(s.queue.entries.take(all) =~= s.queue.entries);
        all
    } else {
        let earlier = ops.drop_last();
        law_invariant_holds(s, earlier);
        let k = lemma_run_keeps_guard(s, earlier);
        lemma_apply_keeps_guard(run(s, earlier), ops.last(), k)
    }
}

/// A job that is submitted after the shutdown never runs.
///
/// Whatever happens to a pool that has been shut down, the jobs that are
/// handed out from then on are among those that are queued now, in their
/// order. A job that is accepted later stays in the queue: before a worker
/// could reach it, a stop signal has stopped that worker.
pub proof fn law_jobs_submitted_after_shutdown_never_run<T>(s: PoolState<T>, ops: Seq<Op<T>>)
    requires
        s.inv(),
        s.terminating,
        ops_fit(s, ops),
    ensures
        jobs_of(deliveries(s, ops)).is_prefix_of(queued_jobs(s.queue.entries)),
{
    let left = lemma_run_keeps_guard(s, ops);
}

} // verus!
