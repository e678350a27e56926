//! The task queue: an unbounded first-in, first-out channel of [`Message`]s
//! with a sending side and a receiving side, either of which can be released.

use crate::message::Message;
use std::collections::VecDeque;
use vstd::prelude::*;

verus! {

/// What one attempt to take an entry from the queue yields.
#[derive(Debug, PartialEq, Eq)]
pub enum Received<T> {
    /// The oldest entry, now removed from the queue.
    Entry(Message<T>),
    /// Nothing is queued, but the sending side is alive: the caller has to wait.
    Empty,
    /// Nothing is queued and nothing will be: the queue is permanently closed.
    Closed,
}

/// The mathematical state of a [`TaskQueue`].
pub struct QueueState<T> {
    /// The queued entries, oldest first.
    pub entries: Seq<Message<T>>,
    /// Whether the sending side is still held.
    pub sending: bool,
    /// Whether the receiving side is still held.
    pub receiving: bool,
}

impl<T> QueueState<T> {
    /// The state of a new queue: empty, both sides held.
    pub open spec fn fresh() -> Self {
        QueueState { entries: Seq::empty(), sending: true, receiving: true }
    }

    /// Whether a send is accepted: only while both sides are held.
    pub open spec fn accepts(self) -> bool {
        self.sending && self.receiving
    }

    /// The state after an attempt to send `entry`: appended at the back if the
    /// queue accepts it, otherwise nothing changes.
    pub open spec fn send(self, entry: Message<T>) -> Self {
        if self.accepts() {
            QueueState { entries: self.entries.push(entry), ..self }
        } else {
            self
        }
    }

    /// What an attempt to receive yields in this state.
    pub open spec fn front(self) -> Received<T> {
        if !self.receiving {
            Received::Closed
        } else if self.entries.len() > 0 {
            Received::Entry(self.entries[0])
        } else if self.sending {
            Received::Empty
        } else {
            Received::Closed
        }
    }

    /// The state after an attempt to receive: the oldest entry is gone if one
    /// was handed out, otherwise nothing changes.
    pub open spec fn receive(self) -> Self {
        if self.receiving && self.entries.len() > 0 {
            QueueState { entries: self.entries.drop_first(), ..self }
        } else {
            self
        }
    }

    /// The state after the sending side was released.
    pub open spec fn close(self) -> Self {
        QueueState { sending: false, ..self }
    }

    /// The state after the receiving side was released.
    pub open spec fn disconnect(self) -> Self {
        QueueState { receiving: false, ..self }
    }
}

/// An unbounded first-in, first-out queue of [`Message`]s.
///
/// Sending never waits. It fails only once a side of the queue has been
/// released, and then hands the entry back. Receiving takes the oldest entry;
/// on an empty queue it reports whether more may come.
pub struct TaskQueue<T> {
    entries: VecDeque<Message<T>>,
    sending: bool,
    receiving: bool,
}

impl<T> View for TaskQueue<T> {
    type V = QueueState<T>;

    closed spec fn view(&self) -> QueueState<T> {
        QueueState { entries: self.entries@, sending: self.sending, receiving: self.receiving }
    }
}

impl<T> TaskQueue<T> {
    /// An empty queue with both sides held.
    pub fn new() -> (queue: Self)
        ensures
            queue@ == QueueState::<T>::fresh(),
    {
        TaskQueue { entries: VecDeque::new(), sending: true, receiving: true }
    }

    /// The number of queued entries.
    pub fn len(&self) -> (n: usize)
        ensures
            n == self@.entries.len(),
    {
        self.entries.len()
    }

    /// Whether nothing is queued.
    pub fn is_empty(&self) -> (b: bool)
        ensures
            b == (self@.entries.len() == 0),
    {
        self.entries.len() == 0
    }

    /// Whether a send would be accepted.
    pub fn accepts(&self) -> (b: bool)
        ensures
            b == self@.accepts(),
    {
        self.sending && self.receiving
    }

    /// Appends `entry` at the back of the queue. Fails, handing the entry
    /// back, exactly when a side of the queue has been released.
    pub fn send(&mut self, entry: Message<T>) -> (sent: Result<(), Message<T>>)
        ensures
            final(self)@ == old(self)@.send(entry),
            old(self)@.accepts() ==> sent is Ok,
            !old(self)@.accepts() ==> sent == Err::<(), Message<T>>(entry),
    {
        if self.sending && self.receiving {
            self.entries.push_back(entry);
            Ok(())
        } else {
            Err(entry)
        }
    }

    /// Takes the oldest entry, if there is one; otherwise tells whether the
    /// caller has to wait or the queue is closed for good.
    pub fn receive(&mut self) -> (received: Received<T>)
        ensures
            final(self)@ == old(self)@.receive(),
            received == old(self)@.front(),
    {
        if !self.receiving {
            return Received::Closed;
        }
        match self.entries.pop_front() {
            Some(entry) => {
                assert(self.entries@ =~= old(self).entries@.drop_first());
                Received::Entry(entry)
            },
            None => {
                if self.sending {
                    Received::Empty
                } else {
                    Received::Closed
                }
            },
        }
    }

    /// Releases the sending side: what is queued can still be received, and
    /// nothing more can be sent.
    pub fn close(&mut self)
        ensures
            final(self)@ == old(self)@.close(),
    {
        self.sending = false;
    }

    /// Releases the receiving side: nothing more can be sent or received.
    pub fn disconnect(&mut self)
        ensures
            final(self)@ == old(self)@.disconnect(),
    {
        self.receiving = false;
    }
}

} // verus!
