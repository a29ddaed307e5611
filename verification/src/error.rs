//! The ways in which the pool can fail.
use vstd::prelude::*;

verus! {

/// What went wrong in the pool.
#[derive(Clone, Copy, Debug, PartialEq, Eq, Structural)]
pub enum PoolError {
    /// A pool without workers was asked for.
    InvalidConfiguration,
    /// A message was sent although nobody is left to receive it, or a
    /// worker waited on a channel that nobody can send on any more.
    ChannelClosed,
    /// A worker panicked while it held exclusive access to the channel.
    LockPoisoned,
    /// A worker's thread ended abnormally.
    ThreadJoinFailure,
}

impl PoolError {
    /// A short description, fit for a log line or a panic message.
    pub fn describe(&self) -> (text: &'static str)
        ensures
            text@ == Self::description(*self),
    {
        match self {
            PoolError::InvalidConfiguration => "a pool needs at least one worker",
            PoolError::ChannelClosed => "the channel is closed",
            PoolError::LockPoisoned => "the channel lock is poisoned",
            PoolError::ThreadJoinFailure => "a worker thread panicked",
        }
    }

    /// The text that [`PoolError::describe`] gives for each error.
    pub open spec fn description(e: PoolError) -> Seq<char> {
        match e {
            PoolError::InvalidConfiguration => "a pool needs at least one worker"@,
            PoolError::ChannelClosed => "the channel is closed"@,
            PoolError::LockPoisoned => "the channel lock is poisoned"@,
            PoolError::ThreadJoinFailure => "a worker thread panicked"@,
        }
    }
}

} // verus!
