//! A fixed-size worker pool, written as a deterministic core.
//!
//! The pool owns a first-in first-out channel of messages and a fixed set of
//! workers that compete for them. Every decision the pool or a worker takes
//! is a function of this crate: what a submission enqueues, what a worker
//! does with the message it dequeued, what disposal sends and in which order
//! the worker threads are to be joined. Threads, locks and blocking are left
//! to the program that drives the core: it calls [`ThreadPool::poll`] for a
//! worker under a lock, and does what the answer says with the lock released.
//!
//! [`model`] holds the pool as a mathematical object, and [`laws`] what is
//! proved of it: no job is lost or handed out twice, no more jobs run than
//! there are workers, and no worker is told to stop while a job from before
//! the disposal waits.
pub mod channel;
pub mod error;
pub mod laws;
pub mod message;
pub mod model;
pub mod pool;
pub mod request;
pub mod worker;

pub use crate::error::PoolError;
pub use crate::message::Message;
pub use crate::pool::ThreadPool;
pub use crate::worker::{Action, Worker, WorkerState};
