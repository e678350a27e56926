//! Histories of a pool: sequences of operations, the states they lead to, and
//! what they hand out on the way.

use crate::message::Message;
use crate::model::{
    lemma_close_inv, lemma_execute_inv, lemma_lock_failed_inv, lemma_shutdown_inv,
    lemma_turn_inv, PoolState,
};
use crate::worker::Turn;
use vstd::prelude::*;

verus! {

/// One operation on a pool.
pub enum Op<T> {
    /// The owner submits a job.
    Execute(T),
    /// The worker with this number takes a turn of its loop.
    Turn(int),
    /// The worker with this number fails to lock the queue.
    LockFailed(int),
    /// The owner shuts the pool down.
    Shutdown,
    /// The owner releases the pool's sending side.
    Close,
}

/// A job handed out to a worker.
pub struct Delivery<T> {
    /// The number of the worker that received the job.
    pub worker: int,
    /// The job.
    pub job: T,
}

/// Whether `op` names a worker that the pool has, if it names one.
pub open spec fn op_fits<T>(s: PoolState<T>, op: Op<T>) -> bool {
    match op {
        Op::Turn(id) => s.has_worker(id),
        Op::LockFailed(id) => s.has_worker(id),
        _ => true,
    }
}

/// Whether every operation of `ops` fits a pool of the size of `s`.
pub open spec fn ops_fit<T>(s: PoolState<T>, ops: Seq<Op<T>>) -> bool {
    forall|i: int| 0 <= i < ops.len() ==> op_fits(s, #[trigger] ops[i])
}

/// The state after `op`.
pub open spec fn apply<T>(s: PoolState<T>, op: Op<T>) -> PoolState<T> {
    match op {
        Op::Execute(job) => s.execute(job),
        Op::Turn(id) => s.turn(id),
        Op::LockFailed(id) => s.lock_failed(id),
        Op::Shutdown => s.shutdown(),
        Op::Close => s.close(),
    }
}

/// The state after all of `ops`, in order.
pub open spec fn run<T>(s: PoolState<T>, ops: Seq<Op<T>>) -> PoolState<T>
    decreases ops.len(),
{
    if ops.len() == 0 {
        s
    } else {
        apply(run(s, ops.drop_last()), ops.last())
    }
}

/// The jobs that `op` hands out in state `s`: one if it is the turn of a
/// worker that receives a job, none otherwise.
pub open spec fn handed_out<T>(s: PoolState<T>, op: Op<T>) -> Seq<Delivery<T>> {
    match op {
        Op::Turn(id) => match s.turn_action(id) {
            Turn::Run(job) => seq![Delivery { worker: id, job }],
            _ => Seq::empty(),
        },
        _ => Seq::empty(),
    }
}

/// The jobs that `op` adds to the queue in state `s`: one if it submits a job
/// that the pool accepts, none otherwise.
pub open spec fn taken_in<T>(s: PoolState<T>, op: Op<T>) -> Seq<T> {
    match op {
        Op::Execute(job) => if s.accepts() {
            seq![job]
        } else {
            Seq::empty()
        },
        _ => Seq::empty(),
    }
}

/// All deliveries that `ops` make when they start in state `s`, in order.
pub open spec fn deliveries<T>(s: PoolState<T>, ops: Seq<Op<T>>) -> Seq<Delivery<T>>
    decreases ops.len(),
{
    if ops.len() == 0 {
        Seq::empty()
    } else {
        deliveries(s, ops.drop_last()) + handed_out(run(s, ops.drop_last()), ops.last())
    }
}

/// All jobs that `ops` add to the queue when they start in state `s`, in
/// order.
pub open spec fn accepted<T>(s: PoolState<T>, ops: Seq<Op<T>>) -> Seq<T>
    decreases ops.len(),
{
    if ops.len() == 0 {
        Seq::empty()
    } else {
        accepted(s, ops.drop_last()) + taken_in(run(s, ops.drop_last()), ops.last())
    }
}

/// The jobs of a sequence of deliveries.
pub open spec fn jobs_of<T>(ds: Seq<Delivery<T>>) -> Seq<T> {
    ds.map_values(|d: Delivery<T>| d.job)
}

/// The jobs among the entries of a queue, oldest first.
pub open spec fn queued_jobs<T>(entries: Seq<Message<T>>) -> Seq<T>
    decreases entries.len(),
{
    if entries.len() == 0 {
        Seq::empty()
    } else {
        match entries.last() {
            Message::NewJob(job) => queued_jobs(entries.drop_last()).push(job),
            Message::Terminate => queued_jobs(entries.drop_last()),
        }
    }
}

/// The jobs of a single entry.
pub open spec fn job_of<T>(entry: Message<T>) -> Seq<T> {
    match entry {
        Message::NewJob(job) => seq![job],
        Message::Terminate => Seq::empty(),
    }
}

/// The jobs of a queue with one more entry at the back.
pub proof fn lemma_queued_jobs_push<T>(entries: Seq<Message<T>>, entry: Message<T>)
    ensures
        queued_jobs(entries.push(entry)) == queued_jobs(entries) + job_of(entry),
{
    assert(entries.push(entry).drop_last() =~= entries);
}

/// The jobs of two runs of entries, one after the other.
pub proof fn lemma_queued_jobs_concat<T>(front: Seq<Message<T>>, back: Seq<Message<T>>)
    ensures
        queued_jobs(front + back) == queued_jobs(front) + queued_jobs(back),
    decreases back.len(),
{
    if back.len() > 0 {
        assert((front + back).drop_last() =~= front + back.drop_last());
        lemma_queued_jobs_concat(front, back.drop_last());
    }
}

/// The jobs of a queue, split into those of its oldest entry and the rest.
pub proof fn lemma_queued_jobs_drop_first<T>(entries: Seq<Message<T>>)
    requires
        entries.len() > 0,
    ensures
        queued_jobs(entries) == job_of(entries[0]) + queued_jobs(entries.drop_first()),
{
    let head = seq![entries[0]];
    assert(head + entries.drop_first() =~= entries);
    lemma_queued_jobs_concat(head, entries.drop_first());
    lemma_queued_jobs_push(Seq::<Message<T>>::empty(), entries[0]);
}

/// A run of stop signals holds no job.
pub proof fn lemma_stop_signals_hold_no_job<T>(signals: Seq<Message<T>>)
    requires
        forall|i: int| 0 <= i < signals.len() ==> signals[i] is Terminate,
    ensures
        queued_jobs(signals) == Seq::<T>::empty(),
    decreases signals.len(),
{
    if signals.len() > 0 {
        lemma_stop_signals_hold_no_job(signals.drop_last());
    }
}

/// A history that fits a pool fits every state that it passes through, and
/// changes the number of workers in none of them.
pub proof fn lemma_prefix_fits<T>(s: PoolState<T>, ops: Seq<Op<T>>)
    requires
        ops_fit(s, ops),
    ensures
        run(s, ops).size() == s.size(),
        ops.len() > 0 ==> ops_fit(s, ops.drop_last()),
        ops.len() > 0 ==> op_fits(run(s, ops.drop_last()), ops.last()),
    decreases ops.len(),
{
    if ops.len() > 0 {
        lemma_prefix_fits(s, ops.drop_last());
    }
}

/// Every operation keeps the invariant of the pool.
pub proof fn lemma_apply_inv<T>(s: PoolState<T>, op: Op<T>)
    requires
        s.inv(),
        op_fits(s, op),
    ensures
        apply(s, op).inv(),
        s.terminating ==> apply(s, op).terminating,
{
    match op {
        Op::Execute(job) => lemma_execute_inv(s, job),
        Op::Turn(id) => lemma_turn_inv(s, id),
        Op::LockFailed(id) => lemma_lock_failed_inv(s, id),
        Op::Shutdown => lemma_shutdown_inv(s),
        Op::Close => lemma_close_inv(s),
    }
}

/// The history `first` followed by the history `second`.
pub proof fn lemma_run_concat<T>(s: PoolState<T>, first: Seq<Op<T>>, second: Seq<Op<T>>)
    ensures
        run(s, first + second) == run(run(s, first), second),
        deliveries(s, first + second) == deliveries(s, first) + deliveries(
            run(s, first),
            second,
        ),
        accepted(s, first + second) == accepted(s, first) + accepted(run(s, first), second),
    decreases second.len(),
{
    if second.len() > 0 {
        assert((first + second).drop_last() =~= first + second.drop_last());
        lemma_run_concat(s, first, second.drop_last());
    }
}

} // verus!
