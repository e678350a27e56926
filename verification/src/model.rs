//! The pool as a state machine: its mathematical state, the transitions that
//! the operations of the pool perform, and the invariant that they keep.

use crate::count::{
    count_if, lemma_count_all, lemma_count_bounded, lemma_count_concat, lemma_count_drop_first,
    lemma_count_push, lemma_count_update, lemma_count_zero,
};
use crate::message::Message;
use crate::queue::QueueState;
use crate::worker::{StopCause, Turn, WorkerState, WorkerView};
use vstd::prelude::*;

verus! {

/// The predicate "this worker is still in its loop".
pub open spec fn running_worker() -> spec_fn(WorkerView) -> bool {
    |w: WorkerView| w.is_running()
}

/// The predicate "this worker is running a job".
pub open spec fn executing_worker() -> spec_fn(WorkerView) -> bool {
    |w: WorkerView| w.is_executing()
}

/// The predicate "this worker was stopped by a stop signal".
pub open spec fn signalled_worker() -> spec_fn(WorkerView) -> bool {
    |w: WorkerView| w.state == WorkerState::Stopped(StopCause::Terminated)
}

/// The predicate "this entry is a stop signal".
pub open spec fn stop_signal<T>() -> spec_fn(Message<T>) -> bool {
    |m: Message<T>| m is Terminate
}

/// `n` stop signals in a row.
pub open spec fn stop_signals<T>(n: nat) -> Seq<Message<T>> {
    Seq::new(n, |i: int| Message::Terminate)
}

/// The mathematical state of a pool.
pub struct PoolState<T> {
    /// The task queue.
    pub queue: QueueState<T>,
    /// The workers, in the order of their numbers.
    pub workers: Seq<WorkerView>,
    /// Whether the pool has been shut down.
    pub terminating: bool,
}

impl<T> PoolState<T> {
    /// The state of a new pool of `size` workers: all of them waiting, their
    /// handles held, nothing queued.
    pub open spec fn fresh(size: nat) -> Self {
        PoolState {
            queue: QueueState::fresh(),
            workers: Seq::new(size, |i: int| WorkerView::fresh(i)),
            terminating: false,
        }
    }

    /// The number of workers.
    pub open spec fn size(self) -> nat {
        self.workers.len()
    }

    /// Whether `id` is the number of a worker of this pool.
    pub open spec fn has_worker(self, id: int) -> bool {
        0 <= id < self.workers.len()
    }

    /// The number of workers that are still in their loop.
    pub open spec fn running(self) -> nat {
        count_if(self.workers, running_worker())
    }

    /// The number of workers that are running a job.
    pub open spec fn executing(self) -> nat {
        count_if(self.workers, executing_worker())
    }

    /// The number of workers that a stop signal has stopped.
    pub open spec fn signalled(self) -> nat {
        count_if(self.workers, signalled_worker())
    }

    /// The number of queued entries.
    pub open spec fn pending(self) -> nat {
        self.queue.entries.len()
    }

    /// The number of queued stop signals.
    pub open spec fn queued_signals(self) -> nat {
        count_if(self.queue.entries, stop_signal::<T>())
    }

    /// Releases the receiving side of the queue once no worker is left to
    /// hold it.
    pub open spec fn settle(self) -> Self {
        if self.running() == 0 {
            PoolState { queue: self.queue.disconnect(), ..self }
        } else {
            self
        }
    }

    /// Whether a submitted job is queued rather than dropped.
    pub open spec fn accepts(self) -> bool {
        self.queue.accepts()
    }

    /// The state after `job` was submitted.
    pub open spec fn execute(self, job: T) -> Self {
        PoolState { queue: self.queue.send(Message::NewJob(job)), ..self }
    }

    /// The state after worker `id` took a turn of its loop: a running worker
    /// takes the oldest entry and acts on it; a stopped worker does nothing.
    pub open spec fn turn(self, id: int) -> Self {
        if self.workers[id].is_running() {
            PoolState {
                queue: self.queue.receive(),
                workers: self.workers.update(id, self.workers[id].step(self.queue.front())),
                ..self
            }.settle()
        } else {
            self
        }
    }

    /// What worker `id` has to do after its turn.
    pub open spec fn turn_action(self, id: int) -> Turn<T> {
        self.workers[id].action(self.queue.front())
    }

    /// The state after worker `id` failed to lock the queue.
    pub open spec fn lock_failed(self, id: int) -> Self {
        PoolState { workers: self.workers.update(id, self.workers[id].fail()), ..self }.settle()
    }

    /// The state after a shutdown: one stop signal per worker was sent, and
    /// the handle of every worker was taken. A second shutdown does nothing.
    pub open spec fn shutdown(self) -> Self {
        if self.terminating {
            self
        } else {
            PoolState {
                queue: if self.queue.accepts() {
                    QueueState {
                        entries: self.queue.entries + stop_signals::<T>(self.workers.len()),
                        ..self.queue
                    }
                } else {
                    self.queue
                },
                workers: Seq::new(self.workers.len(), |i: int| self.workers[i].take_handle()),
                terminating: true,
            }
        }
    }

    /// How many of the stop signals of a shutdown cannot be sent: all of
    /// them if the queue does not accept them, else none.
    pub open spec fn lost_signals(self) -> nat {
        if self.terminating || self.queue.accepts() {
            0
        } else {
            self.workers.len()
        }
    }

    /// The workers whose threads a shutdown hands over for joining, in order.
    pub open spec fn join_plan(self) -> Seq<usize> {
        if self.terminating {
            Seq::empty()
        } else {
            Seq::new(self.workers.len(), |i: int| i as usize)
        }
    }

    /// The state after the owner released the pool's sending side.
    pub open spec fn close(self) -> Self {
        PoolState { queue: self.queue.close(), ..self }
    }

    /// What holds of every state that a pool can reach.
    ///
    /// The workers are numbered in order; their handles are held until the
    /// shutdown; the receiving side of the queue is held as long as a worker
    /// runs; and after a shutdown, while the sending side is held, there is a
    /// stop signal queued for every worker that still runs.
    pub open spec fn inv(self) -> bool {
        &&& self.workers.len() > 0
        &&& forall|i: int| 0 <= i < self.workers.len() ==> (#[trigger] self.workers[i]).id == i
        &&& forall|i: int|
            0 <= i < self.workers.len() ==> (#[trigger] self.workers[i]).joinable
                == !self.terminating
        &&& self.queue.receiving == (self.running() > 0)
        &&& self.terminating && self.queue.sending ==> self.queued_signals() >= self.running()
    }
}

/// A worker that runs is counted among the running ones.
pub proof fn lemma_running_worker_counts<T>(s: PoolState<T>, id: int)
    requires
        s.has_worker(id),
        s.workers[id].is_running(),
    ensures
        s.running() > 0,
{
    lemma_count_zero(s.workers, running_worker());
}

/// A new pool satisfies the invariant, and all its workers run and wait.
pub proof fn lemma_fresh_inv<T>(size: nat)
    requires
        size > 0,
    ensures
        PoolState::<T>::fresh(size).inv(),
        PoolState::<T>::fresh(size).running() == size,
        PoolState::<T>::fresh(size).executing() == 0,
{
    let s = PoolState::<T>::fresh(size);
    lemma_count_all(s.workers, running_worker());
    lemma_count_zero(s.workers, executing_worker());
}

/// Submitting a job keeps the invariant.
pub proof fn lemma_execute_inv<T>(s: PoolState<T>, job: T)
    requires
        s.inv(),
    ensures
        s.execute(job).inv(),
{
    lemma_count_push(s.queue.entries, Message::NewJob(job), stop_signal::<T>());
}

/// A turn of a worker keeps the invariant.
pub proof fn lemma_turn_inv<T>(s: PoolState<T>, id: int)
    requires
        s.inv(),
        s.has_worker(id),
    ensures
        s.turn(id).inv(),
{
    if s.workers[id].is_running() {
        let stepped = s.workers[id].step(s.queue.front());
        lemma_count_update(s.workers, id, stepped, running_worker());
        if s.queue.entries.len() > 0 {
            lemma_count_drop_first(s.queue.entries, stop_signal::<T>());
        }
    }
}

/// A failure to lock the queue keeps the invariant.
pub proof fn lemma_lock_failed_inv<T>(s: PoolState<T>, id: int)
    requires
        s.inv(),
        s.has_worker(id),
    ensures
        s.lock_failed(id).inv(),
{
    lemma_count_update(s.workers, id, s.workers[id].fail(), running_worker());
}

/// Taking the handles of all workers changes no count.
pub proof fn lemma_take_handles_counts(workers: Seq<WorkerView>, taken: Seq<WorkerView>)
    requires
        taken.len() == workers.len(),
        forall|i: int| 0 <= i < workers.len() ==> taken[i] == workers[i].take_handle(),
    ensures
        count_if(taken, running_worker()) == count_if(workers, running_worker()),
        count_if(taken, executing_worker()) == count_if(workers, executing_worker()),
        count_if(taken, signalled_worker()) == count_if(workers, signalled_worker()),
    decreases workers.len(),
{
    if workers.len() > 0 {
        lemma_take_handles_counts(workers.drop_last(), taken.drop_last());
    }
}

/// All of `n` stop signals in a row are stop signals.
pub proof fn lemma_stop_signals_count<T>(n: nat)
    ensures
        count_if(stop_signals::<T>(n), stop_signal::<T>()) == n,
{
    lemma_count_all(stop_signals::<T>(n), stop_signal::<T>());
}

/// A shutdown keeps the invariant.
pub proof fn lemma_shutdown_inv<T>(s: PoolState<T>)
    requires
        s.inv(),
    ensures
        s.shutdown().inv(),
        s.shutdown().terminating,
{
    if !s.terminating {
        let after = s.shutdown();
        lemma_take_handles_counts(s.workers, after.workers);
        lemma_count_bounded(s.workers, running_worker());
        if s.queue.accepts() {
            lemma_stop_signals_count::<T>(s.workers.len());
            lemma_count_concat(
                s.queue.entries,
                stop_signals::<T>(s.workers.len()),
                stop_signal::<T>(),
            );
        }
    }
}

/// Releasing the sending side keeps the invariant.
pub proof fn lemma_close_inv<T>(s: PoolState<T>)
    requires
        s.inv(),
    ensures
        s.close().inv(),
{
}

} // verus!
