//! The way of the jobs through the pool: each job that the pool accepts is
//! handed out once, in the order of submission, and as many jobs run side by
//! side as workers are free.

use crate::count::lemma_count_update;
use crate::history::{
    accepted, apply, deliveries, handed_out, jobs_of, lemma_apply_inv, lemma_prefix_fits,
    lemma_queued_jobs_concat, lemma_queued_jobs_drop_first, lemma_queued_jobs_push,
    lemma_run_concat, lemma_stop_signals_hold_no_job, op_fits, ops_fit, queued_jobs, run,
    taken_in, Delivery, Op,
};
use crate::laws::law_concurrency_is_bounded;
use crate::message::Message;
use crate::model::{
    executing_worker, lemma_fresh_inv, lemma_running_worker_counts, stop_signals, PoolState,
};
use crate::queue::Received;
use crate::worker::WorkerState;
use vstd::prelude::*;

verus! {

/// One operation moves jobs only from the submitter into the queue and from
/// the front of the queue to a worker.
proof fn lemma_apply_conserves_jobs<T>(s: PoolState<T>, op: Op<T>)
    requires
        op_fits(s, op),
    ensures
        queued_jobs(s.queue.entries) + taken_in(s, op) == jobs_of(handed_out(s, op))
            + queued_jobs(apply(s, op).queue.entries),
{
    match op {
        Op::Execute(job) => {
            lemma_queued_jobs_push(s.queue.entries, Message::NewJob(job));
        },
        Op::Turn(id) => {
            if s.workers[id].is_running() && s.queue.receiving && s.queue.entries.len() > 0 {
                lemma_queued_jobs_drop_first(s.queue.entries);
            }
        },
        Op::Shutdown => {
            lemma_queued_jobs_concat(s.queue.entries, stop_signals::<T>(s.workers.len()));
            lemma_stop_signals_hold_no_job(stop_signals::<T>(s.workers.len()));
        },
        _ => {},
    }
}

/// Every job is delivered exactly once, and in the order of submission.
///
/// Whatever the history, the jobs that were queued at its start, followed by
/// the jobs that the pool accepted during it, are exactly the jobs that were
/// handed out to workers, in the order in which they were handed out,
/// followed by the jobs that are still queued. So no job is handed out
/// twice or to two workers, none is lost, and none overtakes another. A job
/// that is not handed out stays in the queue.
pub proof fn law_jobs_are_delivered_once_in_order<T>(s: PoolState<T>, ops: Seq<Op<T>>)
    requires
        ops_fit(s, ops),
    ensures
        queued_jobs(s.queue.entries) + accepted(s, ops) == jobs_of(deliveries(s, ops))
            + queued_jobs(run(s, ops).queue.entries),
    decreases ops.len(),
{
    if ops.len() > 0 {
        let start = queued_jobs(s.queue.entries);
        let earlier = ops.drop_last();
        let mid = run(s, earlier);
        lemma_prefix_fits(s, ops);
        law_jobs_are_delivered_once_in_order(s, earlier);
        lemma_apply_conserves_jobs(mid, ops.last());
        assert(start + accepted(s, ops) =~= (start + accepted(s, earlier)) + taken_in(
            mid,
            ops.last(),
        ));
    }
}

/// The history in which each of the workers `ws` takes one turn, in order.
pub open spec fn turns<T>(ws: Seq<int>) -> Seq<Op<T>> {
    Seq::new(ws.len(), |i: int| Op::Turn(ws[i]))
}

/// The history in which the owner submits `jobs`, in order.
pub open spec fn submissions<T>(jobs: Seq<T>) -> Seq<Op<T>> {
    Seq::new(jobs.len(), |i: int| Op::Execute(jobs[i]))
}

/// The deliveries that give the first of `jobs` to the first of `ws`, the
/// second to the second, and so on.
pub open spec fn pairing<T>(ws: Seq<int>, jobs: Seq<T>) -> Seq<Delivery<T>> {
    Seq::new(ws.len(), |i: int| Delivery { worker: ws[i], job: jobs[i] })
}

/// Whether `ws` names workers of the pool, no worker twice.
pub open spec fn distinct_workers<T>(s: PoolState<T>, ws: Seq<int>) -> bool {
    &&& forall|i: int| 0 <= i < ws.len() ==> s.has_worker(#[trigger] ws[i])
    &&& forall|i: int, j: int| 0 <= i < j < ws.len() ==> ws[i] != ws[j]
}

/// Waiting workers take queued jobs side by side.
///
/// If the queue starts with as many jobs as there are workers in `ws`, all
/// of them distinct and waiting, and each of these workers takes one turn,
/// then each gets a job of its own, in the order of the queue, without any
/// job having to finish first. Afterwards all these jobs are running at
/// once, one on each of the workers; the other workers are as they were.
pub proof fn law_waiting_workers_take_jobs_side_by_side<T>(
    s: PoolState<T>,
    jobs: Seq<T>,
    ws: Seq<int>,
)
    requires
        s.inv(),
        distinct_workers(s, ws),
        jobs.len() == ws.len(),
        forall|i: int|
            0 <= i < ws.len() ==> s.workers[#[trigger] ws[i]].state == WorkerState::Waiting,
        jobs.len() <= s.queue.entries.len(),
        forall|i: int|
            0 <= i < jobs.len() ==> s.queue.entries[i] == Message::NewJob(#[trigger] jobs[i]),
    ensures
        deliveries(s, turns(ws)) == pairing(ws, jobs),
        forall|i: int|
            0 <= i < ws.len() ==> run(s, turns(ws)).workers[#[trigger] ws[i]].state
                == WorkerState::Executing,
        forall|id: int|
            s.has_worker(id) && !ws.contains(id) ==> run(s, turns(ws)).workers[id]
                == s.workers[id],
        run(s, turns(ws)).executing() == s.executing() + jobs.len(),
        run(s, turns(ws)).queue.entries == s.queue.entries.skip(jobs.len() as int),
        run(s, turns(ws)).inv(),
        run(s, turns(ws)).size() == s.size(),
    decreases ws.len(),
{
    if ws.len() > 0 {
        let ops = turns::<T>(ws);
        let n = ws.len() - 1;
        let id = ws[n];
        let earlier_ws = ws.drop_last();
        let earlier_jobs = jobs.drop_last();
        assert(ops.drop_last() =~= turns::<T>(earlier_ws));
        law_waiting_workers_take_jobs_side_by_side(s, earlier_jobs, earlier_ws);
        let mid = run(s, turns::<T>(earlier_ws));
        assert(!earlier_ws.contains(id)) by {
            if earlier_ws.contains(id) {
                let i = choose|i: int| 0 <= i < earlier_ws.len() && earlier_ws[i] == id;
                assert(ws[i] == ws[n]);
            }
        }
        lemma_running_worker_counts(mid, id);
        assert(mid.queue.front() == Received::Entry(Message::NewJob(jobs[n])));
        let stepped = mid.workers[id].step(mid.queue.front());
        lemma_count_update(mid.workers, id, stepped, executing_worker());
        lemma_apply_inv(mid, Op::Turn(id));
        let end = run(s, ops);
        assert forall|i: int| 0 <= i < ws.len() implies end.workers[#[trigger] ws[i]].state
            == WorkerState::Executing by {
            if i < n {
                assert(earlier_ws[i] == ws[i]);
            }
        }
        assert forall|other: int|
            s.has_worker(other) && !ws.contains(other) implies end.workers[other]
            == s.workers[other] by {
            assert(ws[n] == id);
            if earlier_ws.contains(other) {
                let i = choose|i: int| 0 <= i < earlier_ws.len() && earlier_ws[i] == other;
                assert(ws[i] == other);
            }
        }
    }
}

/// Submitting jobs to a pool that accepts them appends them to the queue
/// and changes nothing else.
pub proof fn lemma_submissions_are_queued<T>(s: PoolState<T>, jobs: Seq<T>)
    requires
        s.accepts(),
    ensures
        run(s, submissions(jobs)).queue.entries == s.queue.entries + Seq::new(
            jobs.len(),
            |i: int| Message::NewJob(jobs[i]),
        ),
        run(s, submissions(jobs)).workers == s.workers,
        run(s, submissions(jobs)).accepts(),
        run(s, submissions(jobs)).terminating == s.terminating,
        accepted(s, submissions(jobs)) == jobs,
        deliveries(s, submissions(jobs)) == Seq::<Delivery<T>>::empty(),
    decreases jobs.len(),
{
    if jobs.len() > 0 {
        let earlier = jobs.drop_last();
        assert(submissions(jobs).drop_last() =~= submissions(earlier));
        lemma_submissions_are_queued(s, earlier);
    }
}

/// Jobs beyond the number of free workers wait in the queue.
///
/// Submit `jobs` to a new pool of `size` workers, and let some distinct
/// workers, no more than there are jobs, take one turn each, in any order.
/// Then the first jobs are handed out, each to a worker of its own, and run
/// at the same time, as many as workers took a turn and so at most `size`;
/// the other jobs are still queued, in the order of their submission, until
/// a worker takes another turn.
pub proof fn law_surplus_jobs_wait_in_the_queue<T>(size: nat, jobs: Seq<T>, ws: Seq<int>)
    requires
        size > 0,
        ws.len() <= jobs.len(),
        distinct_workers(PoolState::<T>::fresh(size), ws),
    ensures
        ({
            let start = PoolState::<T>::fresh(size);
            let ops = submissions(jobs) + turns(ws);
            &&& accepted(start, ops) == jobs
            &&& deliveries(start, ops) == pairing(ws, jobs)
            &&& run(start, ops).executing() == ws.len()
            &&& ws.len() <= size
            &&& run(start, ops).pending() == jobs.len() - ws.len()
            &&& queued_jobs(run(start, ops).queue.entries) == jobs.skip(ws.len() as int)
            &&& forall|i: int|
                0 <= i < ws.len() ==> run(start, ops).workers[#[trigger] ws[i]].state
                    == WorkerState::Executing
        }),
{
    let s = PoolState::<T>::fresh(size);
    let ops = submissions(jobs) + turns(ws);
    lemma_fresh_inv::<T>(size);
    lemma_submissions_are_queued(s, jobs);
    let mid = run(s, submissions(jobs));
    let first = jobs.take(ws.len() as int);
    law_waiting_workers_take_jobs_side_by_side(mid, first, ws);
    lemma_run_concat(s, submissions(jobs), turns::<T>(ws));
    lemma_turns_accept_nothing(mid, ws);
    law_concurrency_is_bounded(s, ops);
    law_jobs_are_delivered_once_in_order(s, ops);
}

/// As many jobs as there are workers, or fewer, all run at once.
///
/// Submit `jobs` to a new pool of `size` workers, and let as many distinct
/// workers take one turn each, in any order. Then every job is handed out,
/// each to a worker of its own, nothing stays queued, and all the jobs are
/// running at the same time: none has waited for another to finish.
pub proof fn law_few_jobs_all_run_at_once<T>(size: nat, jobs: Seq<T>, ws: Seq<int>)
    requires
        size > 0,
        jobs.len() <= size,
        ws.len() == jobs.len(),
        distinct_workers(PoolState::<T>::fresh(size), ws),
    ensures
        ({
            let start = PoolState::<T>::fresh(size);
            let ops = submissions(jobs) + turns(ws);
            &&& accepted(start, ops) == jobs
            &&& deliveries(start, ops) == pairing(ws, jobs)
            &&& run(start, ops).executing() == jobs.len()
            &&& run(start, ops).pending() == 0
            &&& forall|i: int|
                0 <= i < ws.len() ==> run(start, ops).workers[#[trigger] ws[i]].state
                    == WorkerState::Executing
        }),
{
    law_surplus_jobs_wait_in_the_queue(size, jobs, ws);
}

/// Turns of workers submit nothing.
proof fn lemma_turns_accept_nothing<T>(s: PoolState<T>, ws: Seq<int>)
    ensures
        accepted(s, turns(ws)) == Seq::<T>::empty(),
    decreases ws.len(),
{
    if ws.len() > 0 {
        assert(turns::<T>(ws).drop_last() =~= turns::<T>(ws.drop_last()));
        lemma_turns_accept_nothing(s, ws.drop_last());
    }
}

} // verus!
