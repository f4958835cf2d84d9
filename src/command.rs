use vstd::prelude::*;

use crate::order::{Order, Trade};

verus! {

/// A mutation of the book, carried through the task queue to a worker.
#[derive(Clone, Copy, Debug, PartialEq, Eq, Structural)]
pub enum Command {
    AddOrder(Order),
    CancelOrder(u64),
    CancelAll,
}

/// What a mutation hands back: the trades of an add, or whether a cancel
/// removed anything.
#[derive(Debug)]
pub enum Reply {
    Trades(Vec<Trade>),
    Done(bool),
}

/// The ways a call on the market can fail.
#[derive(Clone, Copy, Debug, PartialEq, Eq, Structural)]
pub enum MarketError {
    /// The market is shut down, or was shutting down when the task came.
    QueueClosed,
    /// The task was taken by a worker, which failed before replying.
    ReplyDropped,
    /// A writer failed while it held the book.
    LockPoisoned,
    /// The market was asked for no workers.
    ConfigInvalid,
}

impl MarketError {
    /// A short name for the error.
    pub fn describe(&self) -> (r: String)
        ensures
            r@ == match self {
                MarketError::QueueClosed => "task queue closed"@,
                MarketError::ReplyDropped => "reply dropped"@,
                MarketError::LockPoisoned => "order book lock poisoned"@,
                MarketError::ConfigInvalid => "pool size must be positive"@,
            },
    {
        match self {
            MarketError::QueueClosed => String::from_str("task queue closed"),
            MarketError::ReplyDropped => String::from_str("reply dropped"),
            MarketError::LockPoisoned => String::from_str("order book lock poisoned"),
            MarketError::ConfigInvalid => String::from_str("pool size must be positive"),
        }
    }
}

} // verus!
