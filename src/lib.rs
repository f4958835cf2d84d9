//! A serialized order-book core: mutations of one in-memory order book run
//! one at a time on a pool of workers fed by a task queue, while reads take a
//! shared lock on the caller's thread.

use vstd::prelude::*;

pub mod command;
pub mod market;
pub mod order;
pub mod order_book;

verus! {

} // verus!
