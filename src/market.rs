use vstd::prelude::*;

use crossbeam::channel::{Receiver, RecvError, SendError, Sender};
use std::sync::{Arc, PoisonError, RwLock, RwLockReadGuard, RwLockWriteGuard};

use crate::command::{Command, MarketError, Reply};
use crate::order::{Order, Trade};
use crate::order_book::OrderBook;

verus! {

/// crossbeam's sending end of a channel, carried opaquely.
#[verifier::external_type_specification]
#[verifier::external_body]
#[verifier::reject_recursive_types(T)]
pub struct ExSender<T>(Sender<T>);

/// crossbeam's receiving end of a channel, carried opaquely.
#[verifier::external_type_specification]
#[verifier::external_body]
#[verifier::reject_recursive_types(T)]
pub struct ExReceiver<T>(Receiver<T>);

/// crossbeam's error of a send on a channel whose receivers are gone.
#[verifier::external_type_specification]
#[verifier::external_body]
#[verifier::reject_recursive_types(T)]
pub struct ExSendError<T>(SendError<T>);

/// crossbeam's error of a receive on an empty channel whose senders are gone.
#[verifier::external_type_specification]
#[verifier::external_body]
pub struct ExRecvError(RecvError);

/// std's reader/writer lock, carried opaquely.
#[verifier::external_type_specification]
#[verifier::external_body]
#[verifier::reject_recursive_types(T)]
pub struct ExRwLock<T: ?Sized>(RwLock<T>);

/// std's guard of shared access to a `RwLock`.
#[verifier::external_type_specification]
#[verifier::external_body]
#[verifier::reject_recursive_types(T)]
pub struct ExRwLockReadGuard<'a, T: ?Sized>(RwLockReadGuard<'a, T>);

/// std's guard of exclusive access to a `RwLock`.
#[verifier::external_type_specification]
#[verifier::external_body]
#[verifier::reject_recursive_types(T)]
pub struct ExRwLockWriteGuard<'a, T: ?Sized + 'a>(RwLockWriteGuard<'a, T>);

/// std's error of a lock that a panicking writer left poisoned.
#[verifier::external_type_specification]
#[verifier::external_body]
#[verifier::reject_recursive_types(T)]
pub struct ExPoisonError<T>(PoisonError<T>);

/// Relies on crossbeam's `unbounded`: a new multi-producer multi-consumer
/// channel without a capacity bound.
pub assume_specification<T>[ crossbeam::channel::unbounded::<T> ]() -> (Sender<T>, Receiver<T>);

/// Relies on crossbeam's `bounded`: a new channel; it panics only for a
/// capacity too large to lay out.
pub assume_specification<T>[ crossbeam::channel::bounded::<T> ](cap: usize) -> (Sender<T>, Receiver<T>)
    requires
        cap == 1,
;

/// Relies on crossbeam's `Sender::send`: enqueues the message, or hands it back
/// in the error when every receiver is gone.
pub assume_specification<T>[ Sender::<T>::send ](s: &Sender<T>, msg: T) -> Result<(), SendError<T>>;

/// Relies on crossbeam's `Receiver::recv`: blocks for the next message, and
/// fails once the channel is empty and every sender is gone.
pub assume_specification<T>[ Receiver::<T>::recv ](r: &Receiver<T>) -> Result<T, RecvError>;

/// Relies on crossbeam's `Receiver` clone: another handle on the same channel.
pub assume_specification<T>[ <Receiver<T> as Clone>::clone ](r: &Receiver<T>) -> Receiver<T>;

/// Relies on crossbeam's `Sender` clone: another handle on the same channel.
pub assume_specification<T>[ <Sender<T> as Clone>::clone ](s: &Sender<T>) -> Sender<T>;

/// Relies on `RwLock::new`: a new unlocked lock around the value.
pub assume_specification<T>[ RwLock::<T>::new ](t: T) -> RwLock<T>;

/// Relies on `RwLock::read`: shared access, or an error when a writer
/// panicked while it held the lock. It may panic or deadlock on a thread
/// that already holds the lock. That cannot happen here: the lock is a
/// private field of `Market` and `Worker`, and is taken only in
/// `Market::get_order_by_id` and `Worker::run`, each of which drops its
/// guard before it returns and calls nothing that takes the lock again.
pub assume_specification<T: ?Sized>[ RwLock::<T>::read ](l: &RwLock<T>) -> Result<RwLockReadGuard<'_, T>, PoisonError<RwLockReadGuard<'_, T>>>;

/// Relies on the read guard's `Deref`: the value that the lock holds.
pub assume_specification<'a, 'b, T: ?Sized>[ <RwLockReadGuard<'a, T> as core::ops::Deref>::deref ](g: &'b RwLockReadGuard<'a, T>) -> &'b T;

/// Relies on `RwLock::write`: exclusive access, or an error when a writer
/// panicked while it held the lock. It may panic or deadlock on a thread
/// that already holds the lock, which cannot happen here for the reason
/// given at `RwLock::read`.
pub assume_specification<T: ?Sized>[ RwLock::<T>::write ](l: &RwLock<T>) -> Result<RwLockWriteGuard<'_, T>, PoisonError<RwLockWriteGuard<'_, T>>>;

/// Relies on `PoisonError::into_inner`: the guard that the poisoned lock
/// still hands out.
pub assume_specification<T>[ PoisonError::<T>::into_inner ](e: PoisonError<T>) -> T;

/// Relies on the write guard's `DerefMut`: the value that the lock holds.
pub assume_specification<'a, 'b, T: ?Sized>[ <RwLockWriteGuard<'a, T> as core::ops::DerefMut>::deref_mut ](g: &'b mut RwLockWriteGuard<'a, T>) -> &'b mut T;

/// A job for a worker: a mutation and the slot that takes its outcome.
pub struct Job {
    pub command: Command,
    pub reply: Sender<Result<Reply, MarketError>>,
}

/// What the task queue carries: a job, or the signal for one worker to stop.
pub enum Task {
    Run(Job),
    Stop,
}

/// The façade over one shared order book. Mutations go through the task
/// queue to the workers, which run them one at a time under the write lock;
/// reads take the read lock on the caller's thread.
#[derive(Clone, Debug)]
pub struct Market {
    tasks: Sender<Task>,
    book: Arc<RwLock<OrderBook>>,
    pool_size: usize,
}

/// What one worker thread needs: its end of the task queue and the book.
pub struct Worker {
    tasks: Receiver<Task>,
    book: Arc<RwLock<OrderBook>>,
}

/// The outcome of a submission, from what came back on its reply slot: a
/// failure reported by the worker is a dropped reply. A slot closed without
/// a reply means the task was discarded at shutdown: a worker that takes a
/// job answers it in `Worker::serve`, whose book mutation is proved not to
/// panic.
pub fn outcome_of(received: Result<Result<Reply, MarketError>, RecvError>) -> (r: Result<Reply, MarketError>)
    ensures
        match received {
            Ok(Ok(reply)) => r == Ok::<Reply, MarketError>(reply),
            Ok(Err(_)) => r == Err::<Reply, MarketError>(MarketError::ReplyDropped),
            Err(_) => r == Err::<Reply, MarketError>(MarketError::QueueClosed),
        },
{
    match received {
        Ok(Ok(reply)) => Ok(reply),
        Ok(Err(_)) => Err(MarketError::ReplyDropped),
        Err(_) => Err(MarketError::QueueClosed),
    }
}

/// The trades carried by the outcome of an add.
pub fn trades_of(outcome: Result<Reply, MarketError>) -> (r: Result<Vec<Trade>, MarketError>)
    ensures
        match outcome {
            Ok(Reply::Trades(t)) => r == Ok::<Vec<Trade>, MarketError>(t),
            Ok(Reply::Done(_)) => r == Err::<Vec<Trade>, MarketError>(MarketError::ReplyDropped),
            Err(e) => r == Err::<Vec<Trade>, MarketError>(e),
        },
{
    match outcome {
        Ok(Reply::Trades(t)) => Ok(t),
        Ok(Reply::Done(_)) => Err(MarketError::ReplyDropped),
        Err(e) => Err(e),
    }
}

/// The flag carried by the outcome of a cancel.
pub fn flag_of(outcome: Result<Reply, MarketError>) -> (r: Result<bool, MarketError>)
    ensures
        match outcome {
            Ok(Reply::Done(b)) => r == Ok::<bool, MarketError>(b),
            Ok(Reply::Trades(_)) => r == Err::<bool, MarketError>(MarketError::ReplyDropped),
            Err(e) => r == Err::<bool, MarketError>(e),
        },
{
    match outcome {
        Ok(Reply::Done(b)) => Ok(b),
        Ok(Reply::Trades(_)) => Err(MarketError::ReplyDropped),
        Err(e) => Err(e),
    }
}

/// The task that adds `order`, answered on `reply`.
pub fn add_order_task(order: Order, reply: Sender<Result<Reply, MarketError>>) -> (r: Task)
    ensures
        r == Task::Run(Job { command: Command::AddOrder(order), reply }),
{
    Task::Run(Job { command: Command::AddOrder(order), reply })
}

/// The task that cancels the order `order_id`, answered on `reply`.
pub fn cancel_order_task(order_id: u64, reply: Sender<Result<Reply, MarketError>>) -> (r: Task)
    ensures
        r == Task::Run(Job { command: Command::CancelOrder(order_id), reply }),
{
    Task::Run(Job { command: Command::CancelOrder(order_id), reply })
}

/// The task that cancels every order, answered on `reply`.
pub fn cancel_all_task(reply: Sender<Result<Reply, MarketError>>) -> (r: Task)
    ensures
        r == Task::Run(Job { command: Command::CancelAll, reply }),
{
    Task::Run(Job { command: Command::CancelAll, reply })
}

/// Whether an error is one that a submission can meet.
pub open spec fn submission_error(e: MarketError) -> bool {
    e == MarketError::QueueClosed || e == MarketError::ReplyDropped
}

impl Market {
    pub closed spec fn spec_pool_size(&self) -> usize {
        self.pool_size
    }

    /// A market over an empty book, with the workers that are to serve it,
    /// one for each of `pool_size` threads.
    pub fn new(pool_size: usize) -> (r: Result<(Market, Vec<Worker>), MarketError>)
        ensures
            r is Err <==> pool_size == 0,
            r matches Err(e) ==> e == MarketError::ConfigInvalid,
            r matches Ok((m, ws)) ==> ws@.len() == pool_size && m.spec_pool_size() == pool_size,
    {
        if pool_size == 0 {
            return Err(MarketError::ConfigInvalid);
        }
        let (tasks, queue) = crossbeam::channel::unbounded();
        let book = Arc::new(RwLock::new(OrderBook::new()));
        let mut workers: Vec<Worker> = Vec::new();
        let mut i: usize = 0;
        while i < pool_size
            invariant
                i <= pool_size,
                workers@.len() == i,
            decreases pool_size - i,
        {
            workers.push(Worker { tasks: queue.clone(), book: Arc::clone(&book) });
            i = i + 1;
        }
        Ok((Market { tasks, book, pool_size }, workers))
    }

    /// The number of workers the market was made with.
    pub fn pool_size(&self) -> (r: usize)
        ensures
            r == self.spec_pool_size(),
    {
        self.pool_size
    }

    /// Queues `task` for a worker and waits on `answer` for its outcome.
    fn submit(&self, task: Task, answer: Receiver<Result<Reply, MarketError>>) -> (r: Result<Reply, MarketError>)
        ensures
            r matches Err(e) ==> submission_error(e),
    {
        match self.tasks.send(task) {
            Ok(()) => {},
            Err(_) => {
                return Err(MarketError::QueueClosed);
            },
        }
        outcome_of(answer.recv())
    }

    /// Adds an order to the book through the task queue; the trades it made.
    pub fn add_order(&self, order: Order) -> (r: Result<Vec<Trade>, MarketError>)
        ensures
            r matches Err(e) ==> submission_error(e),
    {
        let (reply, answer) = crossbeam::channel::bounded(1);
        trades_of(self.submit(add_order_task(order, reply), answer))
    }

    /// Reads the order with identifier `order_id` under the read lock.
    pub fn get_order_by_id(&self, order_id: u64) -> (r: Result<Option<Order>, MarketError>)
        ensures
            r matches Ok(Some(o)) ==> o.id == order_id && o.quantity > 0,
            r matches Err(e) ==> e == MarketError::LockPoisoned,
    {
        match self.book.read() {
            Ok(guard) => {
                let book: &OrderBook = &*guard;
                Ok(book.get_order_by_id(order_id))
            },
            Err(_) => Err(MarketError::LockPoisoned),
        }
    }

    /// Cancels the order with identifier `order_id` through the task queue;
    /// whether it was in the book.
    pub fn cancel_order(&self, order_id: u64) -> (r: Result<bool, MarketError>)
        ensures
            r matches Err(e) ==> submission_error(e),
    {
        let (reply, answer) = crossbeam::channel::bounded(1);
        flag_of(self.submit(cancel_order_task(order_id, reply), answer))
    }

    /// Cancels every order through the task queue; whether the book held any.
    pub fn cancel_all_orders(&self) -> (r: Result<bool, MarketError>)
        ensures
            r matches Err(e) ==> submission_error(e),
    {
        let (reply, answer) = crossbeam::channel::bounded(1);
        flag_of(self.submit(cancel_all_task(reply), answer))
    }

    /// Closes the market: one stop signal for each worker, queued behind the
    /// tasks already waiting, so that those are run first.
    pub fn shutdown(&self) {
        let mut i: usize = 0;
        while i < self.pool_size
            invariant
                i <= self.pool_size,
            decreases self.pool_size - i,
        {
            let _ = self.tasks.send(Task::Stop);
            i = i + 1;
        }
    }
}

impl Worker {
    /// The next job for this worker, or `None` once it is told to stop or
    /// the queue is closed.
    pub fn next_job(&self) -> (r: Option<Job>) {
        job_of(self.tasks.recv())
    }

    /// Runs `command` on the book under the write lock. A lock poisoned by
    /// an earlier writer still holds a well-formed book, so it is taken over.
    pub fn run(&self, command: Command) -> (r: Reply)
        ensures
            command is AddOrder <==> r is Trades,
    {
        let mut guard = match self.book.write() {
            Ok(g) => g,
            Err(e) => e.into_inner(),
        };
        let book: &mut OrderBook = &mut *guard;
        book.apply(command)
    }

    /// Runs a job and sends its reply to the submitter.
    pub fn serve(&self, job: Job) {
        let Job { command, reply } = job;
        let outcome = self.run(command);
        let _ = reply.send(Ok(outcome));
    }
}

/// The job in what a worker took from the queue.
pub fn job_of(received: Result<Task, RecvError>) -> (r: Option<Job>)
    ensures
        match received {
            Ok(Task::Run(j)) => r == Some(j),
            _ => r is None,
        },
{
    match received {
        Ok(Task::Run(j)) => Some(j),
        _ => None,
    }
}

} // verus!
