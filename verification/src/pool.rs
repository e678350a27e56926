//! The pool: a fixed set of workers around one task queue.

use crate::count::{count_if, lemma_count_push, lemma_count_update};
use crate::message::Message;
use crate::model::{
    executing_worker, lemma_close_inv, lemma_execute_inv, lemma_fresh_inv,
    lemma_lock_failed_inv, lemma_running_worker_counts, lemma_shutdown_inv,
    lemma_take_handles_counts, lemma_turn_inv, running_worker, stop_signals, PoolState,
};
use crate::queue::TaskQueue;
use crate::worker::{StopCause, Turn, Worker, WorkerState, WorkerView};
use vstd::prelude::*;

verus! {

/// What became of a submitted job.
#[derive(Clone, Copy, PartialEq, Eq, Debug, Structural)]
pub enum Submission {
    /// The job is in the queue.
    Queued,
    /// No worker is left to receive it, or the pool's sending side was
    /// released: the job was dropped and will never run.
    Dropped,
}

/// What a shutdown leaves for its caller to do and to report.
#[derive(Debug, PartialEq, Eq)]
pub struct Shutdown {
    /// How many stop signals could not be sent, because the queue no longer
    /// accepted them.
    pub lost_signals: usize,
    /// The numbers of the workers whose threads are now to be joined, in
    /// order, each of them once.
    pub joins: Vec<usize>,
}

/// A pool of a fixed number of workers that take jobs from one shared queue.
///
/// The pool holds the state that the worker threads and the owner share. It
/// starts no thread and runs no job itself: each operation is one atomic
/// step, and tells its caller what to do next.
pub struct ThreadPool<T> {
    workers: Vec<Worker>,
    queue: TaskQueue<T>,
    running: usize,
    terminating: bool,
}

/// The views of the workers of a pool.
pub open spec fn worker_views(workers: Seq<Worker>) -> Seq<WorkerView> {
    Seq::new(workers.len(), |i: int| workers[i]@)
}

impl<T> View for ThreadPool<T> {
    type V = PoolState<T>;

    closed spec fn view(&self) -> PoolState<T> {
        PoolState {
            queue: self.queue@,
            workers: worker_views(self.workers@),
            terminating: self.terminating,
        }
    }
}

impl<T> ThreadPool<T> {
    /// Whether the pool is in a consistent state: its state satisfies the
    /// invariant of the state machine.
    pub closed spec fn wf(&self) -> bool {
        &&& self@.inv()
        &&& self.running == self@.running()
    }

    /// A consistent pool is in a state that satisfies the invariant of the
    /// state machine, so that the laws of the pool apply to it.
    pub proof fn lemma_wf_state(&self)
        requires
            self.wf(),
        ensures
            self@.inv(),
    {
    }

    /// A pool of `size` workers, all of them waiting, with an empty queue.
    pub fn new(size: usize) -> (pool: ThreadPool<T>)
        requires
            size > 0,
        ensures
            pool.wf(),
            pool@ == PoolState::<T>::fresh(size as nat),
    {
        let mut workers: Vec<Worker> = Vec::new();
        let mut id: usize = 0;
        while id < size
            invariant
                id <= size,
                workers@.len() == id,
                forall|i: int| 0 <= i < id ==> (#[trigger] workers@[i])@ == WorkerView::fresh(i),
            decreases size - id,
        {
            workers.push(Worker::new(id));
            id += 1;
        }
        let pool = ThreadPool {
            workers,
            queue: TaskQueue::new(),
            running: size,
            terminating: false,
        };
        proof {
            assert(pool@.workers =~= PoolState::<T>::fresh(size as nat).workers);
            lemma_fresh_inv::<T>(size as nat);
        }
        pool
    }

    /// The number of workers.
    pub fn size(&self) -> (n: usize)
        ensures
            n == self@.size(),
    {
        self.workers.len()
    }

    /// The number of queued entries.
    pub fn pending(&self) -> (n: usize)
        ensures
            n == self@.pending(),
    {
        self.queue.len()
    }

    /// The number of workers that are still in their loop.
    pub fn running(&self) -> (n: usize)
        requires
            self.wf(),
        ensures
            n == self@.running(),
    {
        self.running
    }

    /// The number of workers that are running a job. It never exceeds the
    /// number of workers.
    pub fn executing(&self) -> (n: usize)
        ensures
            n == self@.executing(),
            n <= self@.size(),
    {
        let ghost views = worker_views(self.workers@);
        let mut n: usize = 0;
        let mut id: usize = 0;
        while id < self.workers.len()
            invariant
                id <= self.workers@.len(),
                views == worker_views(self.workers@),
                n == count_if(views.take(id as int), executing_worker()),
                n <= id,
            decreases self.workers@.len() - id,
        {
            proof {
                assert(views.take(id + 1) =~= views.take(id as int).push(views[id as int]));
                lemma_count_push(views.take(id as int), views[id as int], executing_worker());
            }
            if self.workers[id].is_executing() {
                n += 1;
            }
            id += 1;
        }
        proof {
            assert(views.take(id as int) =~= views);
        }
        n
    }

    /// Whether the pool has been shut down.
    pub fn is_terminating(&self) -> (b: bool)
        ensures
            b == self@.terminating,
    {
        self.terminating
    }

    /// Where worker `id` is in its life cycle.
    pub fn worker_state(&self, id: usize) -> (state: WorkerState)
        requires
            self@.has_worker(id as int),
        ensures
            state == self@.workers[id as int].state,
    {
        self.workers[id].state()
    }

    /// Submits `job`: it goes to the back of the queue, unless it has to be
    /// dropped because no worker is left or the sending side was released.
    pub fn execute(&mut self, job: T) -> (submission: Submission)
        requires
            old(self).wf(),
        ensures
            final(self).wf(),
            final(self)@ == old(self)@.execute(job),
            submission == if old(self)@.accepts() {
                Submission::Queued
            } else {
                Submission::Dropped
            },
    {
        proof {
            lemma_execute_inv(self@, job);
        }
        match self.queue.send(Message::NewJob(job)) {
            Ok(()) => Submission::Queued,
            Err(_) => Submission::Dropped,
        }
    }

    /// Releases the receiving side of the queue once the last worker stopped.
    fn settle(&mut self)
        requires
            old(self).running == old(self)@.running(),
        ensures
            final(self)@ == old(self)@.settle(),
            final(self).running == old(self).running,
    {
        if self.running == 0 {
            self.queue.disconnect();
        }
    }

    /// One turn of the loop of worker `id`. A running worker takes the oldest
    /// entry from the queue: a job is handed out to be run, a stop signal
    /// stops the worker, an empty queue makes it wait, and an empty queue
    /// whose sending side was released stops it too. A stopped worker takes
    /// nothing and is told to stop.
    pub fn turn(&mut self, id: usize) -> (turn: Turn<T>)
        requires
            old(self).wf(),
            old(self)@.has_worker(id as int),
        ensures
            final(self).wf(),
            final(self)@ == old(self)@.turn(id as int),
            turn == old(self)@.turn_action(id as int),
    {
        proof {
            lemma_turn_inv(self@, id as int);
        }
        if let WorkerState::Stopped(cause) = self.workers[id].state() {
            return Turn::Stop(cause);
        }
        let received = self.queue.receive();
        let turn = self.workers[id].step(received);
        proof {
            lemma_running_worker_counts(old(self)@, id as int);
            lemma_count_update(
                old(self)@.workers,
                id as int,
                old(self)@.workers[id as int].step(received),
                running_worker(),
            );
            assert(worker_views(self.workers@) =~= old(self)@.workers.update(
                id as int,
                old(self)@.workers[id as int].step(received),
            ));
        }
        if !self.workers[id].is_running() {
            self.running = self.running - 1;
        }
        self.settle();
        turn
    }

    /// Records that worker `id` could not lock the queue: a running worker
    /// stops. The result is the reason for which the worker is now stopped.
    pub fn lock_failed(&mut self, id: usize) -> (cause: StopCause)
        requires
            old(self).wf(),
            old(self)@.has_worker(id as int),
        ensures
            final(self).wf(),
            final(self)@ == old(self)@.lock_failed(id as int),
            final(self)@.workers[id as int].state == WorkerState::Stopped(cause),
    {
        proof {
            lemma_lock_failed_inv(self@, id as int);
        }
        let was_running = self.workers[id].is_running();
        let cause = self.workers[id].lock_failed();
        proof {
            lemma_count_update(
                old(self)@.workers,
                id as int,
                old(self)@.workers[id as int].fail(),
                running_worker(),
            );
            if was_running {
                lemma_running_worker_counts(old(self)@, id as int);
            }
            assert(worker_views(self.workers@) =~= old(self)@.workers.update(
                id as int,
                old(self)@.workers[id as int].fail(),
            ));
        }
        if was_running {
            self.running = self.running - 1;
        }
        self.settle();
        cause
    }

    /// Shuts the pool down. First one stop signal per worker goes to the back
    /// of the queue, so that every running worker will find one; only then
    /// the handle of every worker is taken, and the workers are listed for
    /// joining. A pool that was shut down before is left as it is, and
    /// nothing is to be joined.
    pub fn shutdown(&mut self) -> (report: Shutdown)
        requires
            old(self).wf(),
        ensures
            final(self).wf(),
            final(self)@ == old(self)@.shutdown(),
            report.lost_signals == old(self)@.lost_signals(),
            report.joins@ == old(self)@.join_plan(),
    {
        proof {
            lemma_shutdown_inv(self@);
        }
        let mut joins: Vec<usize> = Vec::new();
        if self.terminating {
            return Shutdown { lost_signals: 0, joins };
        }
        let ghost before = self@;
        let ghost old_workers = self.workers@;
        let size = self.workers.len();
        let mut lost: usize = 0;
        let mut sent: usize = 0;
        while sent < size
            invariant
                sent <= size,
                size == self.workers@.len(),
                self.workers@ == old_workers,
                self.running == old(self).running,
                self.terminating == old(self).terminating,
                self.queue@.sending == before.queue.sending,
                self.queue@.receiving == before.queue.receiving,
                self.queue@.entries == if before.queue.accepts() {
                    before.queue.entries + stop_signals::<T>(sent as nat)
                } else {
                    before.queue.entries
                },
                lost == if before.queue.accepts() {
                    0
                } else {
                    sent
                },
            decreases size - sent,
        {
            proof {
                assert(stop_signals::<T>((sent + 1) as nat) =~= stop_signals::<T>(
                    sent as nat,
                ).push(Message::Terminate));
                assert((before.queue.entries + stop_signals::<T>(sent as nat)).push(
                    Message::Terminate,
                ) =~= before.queue.entries + stop_signals::<T>((sent + 1) as nat));
            }
            if self.queue.send(Message::Terminate).is_err() {
                lost += 1;
            }
            sent += 1;
        }
        let ghost signalled = self.queue@;
        let mut id: usize = 0;
        while id < size
            invariant
                id <= size,
                size == self.workers@.len(),
                size == old_workers.len(),
                self.queue@ == signalled,
                self.running == old(self).running,
                before.inv(),
                !before.terminating,
                before.workers == worker_views(old_workers),
                forall|i: int|
                    0 <= i < id ==> (#[trigger] self.workers@[i])@
                        == old_workers[i]@.take_handle(),
                forall|i: int| id <= i < size ==> #[trigger] self.workers@[i] == old_workers[i],
                joins@ == Seq::new(id as nat, |i: int| i as usize),
            decreases size - id,
        {
            proof {
                assert(before.workers[id as int].joinable);
            }
            if self.workers[id].take_handle() {
                joins.push(id);
            }
            proof {
                assert(joins@ =~= Seq::new((id + 1) as nat, |i: int| i as usize));
            }
            id += 1;
        }
        self.terminating = true;
        proof {
            assert(self@.workers =~= before.shutdown().workers);
            assert(self@.queue == before.shutdown().queue);
            lemma_take_handles_counts(before.workers, self@.workers);
        }
        Shutdown { lost_signals: lost, joins }
    }

    /// Releases the pool's sending side, as its owner does when it lets go of
    /// the pool: what is queued can still be received, later jobs are
    /// dropped, and a worker that finds the queue empty stops.
    pub fn close(&mut self)
        requires
            old(self).wf(),
        ensures
            final(self).wf(),
            final(self)@ == old(self)@.close(),
    {
        proof {
            lemma_close_inv(self@);
        }
        self.queue.close();
    }
}

} // verus!
