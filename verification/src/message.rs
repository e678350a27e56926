//! Entries of the task queue.

use vstd::prelude::*;

verus! {

/// One entry of the task queue: either a job to run, or the signal that tells
/// the worker that receives it to leave its loop.
#[derive(Debug, PartialEq, Eq)]
pub enum Message<T> {
    /// A job that some worker has to run.
    NewJob(T),
    /// The signal to stop; each one stops exactly the worker that receives it.
    Terminate,
}

} // verus!
