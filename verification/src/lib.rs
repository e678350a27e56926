//! A fixed-size worker pool, reduced to its sequential core: the task queue,
//! the worker life cycle and the pool that ties them together.
//!
//! The pool starts no thread and runs no job. It holds the state that the
//! owner of a pool and its worker threads share, and each of its operations
//! is one atomic step of the protocol between them: submitting a job, one
//! turn of a worker's loop, the shutdown. A program puts the pool behind a
//! lock, lets each thread perform its steps under the lock, and does what
//! the steps tell it to do outside of it.
//!
//! The operations are specified as the transitions of a state machine
//! ([`model`]); what follows for all histories of a pool is proved in
//! [`laws`], [`delivery`] and [`teardown`].

pub mod count;
pub mod delivery;
pub mod history;
pub mod laws;
pub mod message;
pub mod model;
pub mod pool;
pub mod queue;
pub mod request;
pub mod teardown;
pub mod worker;

pub use message::Message;
pub use model::PoolState;
pub use pool::{Shutdown, Submission, ThreadPool};
pub use queue::{QueueState, Received, TaskQueue};
pub use request::{compose_response, select_page, Page, ROOT_REQUEST_LINE};
pub use worker::{StopCause, Turn, Worker, WorkerState, WorkerView};
