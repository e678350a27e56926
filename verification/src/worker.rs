//! The life cycle of one worker: it waits for an entry, runs the job it gets,
//! and stops for good on a stop signal or when the queue fails.

use crate::message::Message;
use crate::queue::Received;
use vstd::prelude::*;

verus! {

/// Why a worker left its loop.
#[derive(Clone, Copy, PartialEq, Eq, Debug, Structural)]
pub enum StopCause {
    /// It received a stop signal.
    Terminated,
    /// The queue was empty and closed for good.
    QueueClosed,
    /// It could not get exclusive access to the queue.
    LockFailed,
}

/// Where a worker is in its life cycle. A worker is running while it is
/// waiting or executing; once stopped it never runs again.
#[derive(Clone, Copy, PartialEq, Eq, Debug, Structural)]
pub enum WorkerState {
    /// In its loop, with no job in hand.
    Waiting,
    /// In its loop, running the job it received last.
    Executing,
    /// Out of its loop, for the given reason.
    Stopped(StopCause),
}

/// What a worker has to do after a turn of its loop.
#[derive(Debug, PartialEq, Eq)]
pub enum Turn<T> {
    /// Run this job, then take another turn.
    Run(T),
    /// Nothing is queued: wait until something is sent, then take another turn.
    Wait,
    /// Leave the loop.
    Stop(StopCause),
}

/// The mathematical state of a [`Worker`].
pub struct WorkerView {
    /// The worker's number within its pool.
    pub id: int,
    /// Where the worker is in its life cycle.
    pub state: WorkerState,
    /// Whether the handle of the worker's thread is still held, so that the
    /// thread can be joined.
    pub joinable: bool,
}

impl WorkerView {
    /// A worker as it is created: waiting, its handle held.
    pub open spec fn fresh(id: int) -> Self {
        WorkerView { id, state: WorkerState::Waiting, joinable: true }
    }

    /// Whether the worker is still in its loop.
    pub open spec fn is_running(self) -> bool {
        !(self.state is Stopped)
    }

    /// Whether the worker is running a job.
    pub open spec fn is_executing(self) -> bool {
        self.state is Executing
    }

    /// The state that follows when a running worker gets `received`; a
    /// stopped worker stays as it is.
    pub open spec fn step<T>(self, received: Received<T>) -> Self {
        match self.state {
            WorkerState::Stopped(_) => self,
            _ => match received {
                Received::Entry(Message::NewJob(_)) => WorkerView {
                    state: WorkerState::Executing,
                    ..self
                },
                Received::Entry(Message::Terminate) => WorkerView {
                    state: WorkerState::Stopped(StopCause::Terminated),
                    ..self
                },
                Received::Empty => WorkerView { state: WorkerState::Waiting, ..self },
                Received::Closed => WorkerView {
                    state: WorkerState::Stopped(StopCause::QueueClosed),
                    ..self
                },
            },
        }
    }

    /// What the worker has to do when it gets `received`.
    pub open spec fn action<T>(self, received: Received<T>) -> Turn<T> {
        match self.state {
            WorkerState::Stopped(cause) => Turn::Stop(cause),
            _ => match received {
                Received::Entry(Message::NewJob(job)) => Turn::Run(job),
                Received::Entry(Message::Terminate) => Turn::Stop(StopCause::Terminated),
                Received::Empty => Turn::Wait,
                Received::Closed => Turn::Stop(StopCause::QueueClosed),
            },
        }
    }

    /// The state that follows when the worker fails to lock the queue: a
    /// running worker stops, a stopped worker stays as it is.
    pub open spec fn fail(self) -> Self {
        match self.state {
            WorkerState::Stopped(_) => self,
            _ => WorkerView { state: WorkerState::Stopped(StopCause::LockFailed), ..self },
        }
    }

    /// The state after the handle of the worker's thread was taken.
    pub open spec fn take_handle(self) -> Self {
        WorkerView { joinable: false, ..self }
    }
}

/// The pool's record of one worker.
pub struct Worker {
    id: usize,
    state: WorkerState,
    joinable: bool,
}

impl View for Worker {
    type V = WorkerView;

    closed spec fn view(&self) -> WorkerView {
        WorkerView { id: self.id as int, state: self.state, joinable: self.joinable }
    }
}

impl Worker {
    /// The record of a worker whose thread has just been started.
    pub fn new(id: usize) -> (worker: Worker)
        ensures
            worker@ == WorkerView::fresh(id as int),
    {
        Worker { id, state: WorkerState::Waiting, joinable: true }
    }

    /// The worker's number within its pool.
    pub fn id(&self) -> (id: usize)
        ensures
            id == self@.id,
    {
        self.id
    }

    /// Where the worker is in its life cycle.
    pub fn state(&self) -> (state: WorkerState)
        ensures
            state == self@.state,
    {
        self.state
    }

    /// Whether the worker is still in its loop.
    pub fn is_running(&self) -> (b: bool)
        ensures
            b == self@.is_running(),
    {
        match self.state {
            WorkerState::Stopped(_) => false,
            _ => true,
        }
    }

    /// Whether the worker is running a job.
    pub fn is_executing(&self) -> (b: bool)
        ensures
            b == self@.is_executing(),
    {
        match self.state {
            WorkerState::Executing => true,
            _ => false,
        }
    }

    /// Whether the handle of the worker's thread is still held.
    pub fn is_joinable(&self) -> (b: bool)
        ensures
            b == self@.joinable,
    {
        self.joinable
    }

    /// One turn of the worker's loop, given what its attempt to receive
    /// yielded: a job is to be run, a stop signal or a closed queue stops the
    /// worker, an empty queue makes it wait. A stopped worker stays stopped
    /// and runs nothing, whatever it is handed.
    pub fn step<T>(&mut self, received: Received<T>) -> (turn: Turn<T>)
        ensures
            final(self)@ == old(self)@.step(received),
            turn == old(self)@.action(received),
    {
        match self.state {
            WorkerState::Stopped(cause) => Turn::Stop(cause),
            _ => match received {
                Received::Entry(Message::NewJob(job)) => {
                    self.state = WorkerState::Executing;
                    Turn::Run(job)
                },
                Received::Entry(Message::Terminate) => {
                    self.state = WorkerState::Stopped(StopCause::Terminated);
                    Turn::Stop(StopCause::Terminated)
                },
                Received::Empty => {
                    self.state = WorkerState::Waiting;
                    Turn::Wait
                },
                Received::Closed => {
                    self.state = WorkerState::Stopped(StopCause::QueueClosed);
                    Turn::Stop(StopCause::QueueClosed)
                },
            },
        }
    }

    /// Records that the worker could not lock the queue. A running worker
    /// stops; the result is the reason for which the worker is now stopped.
    pub fn lock_failed(&mut self) -> (cause: StopCause)
        ensures
            final(self)@ == old(self)@.fail(),
            final(self)@.state == WorkerState::Stopped(cause),
    {
        match self.state {
            WorkerState::Stopped(cause) => cause,
            _ => {
                self.state = WorkerState::Stopped(StopCause::LockFailed);
                StopCause::LockFailed
            },
        }
    }

    /// Takes the handle of the worker's thread, so that it is joined at most
    /// once: the result tells whether the handle was still held.
    pub fn take_handle(&mut self) -> (held: bool)
        ensures
            final(self)@ == old(self)@.take_handle(),
            held == old(self)@.joinable,
    {
        let held = self.joinable;
        self.joinable = false;
        held
    }
}

/// A stopped worker never runs again: no turn and no failure changes it,
/// every turn tells it to stop, and taking its handle leaves it stopped.
pub proof fn law_stopped_is_terminal<T>(worker: WorkerView, received: Received<T>)
    requires
        !worker.is_running(),
    ensures
        worker.step(received) == worker,
        worker.fail() == worker,
        worker.action(received) is Stop,
        worker.take_handle().state == worker.state,
{
}

} // verus!
