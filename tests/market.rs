use crossbeam::channel::RecvError;
use market_core::command::{Command, MarketError, Reply};
use market_core::market::{
    add_order_task, cancel_all_task, cancel_order_task, flag_of, job_of, outcome_of, trades_of, Job, Market, Task,
    Worker,
};
use market_core::order::{Order, Trade};

// Runs jobs until told to stop; a job whose order id is `fail_on` is answered
// with a failure instead of being run.
fn serve(worker: Worker, fail_on: Option<u64>) {
    while let Some(job) = worker.next_job() {
        let failing = match (&job.command, fail_on) {
            (Command::AddOrder(o), Some(id)) => o.id == id,
            _ => false,
        };
        if failing {
            let _ = job.reply.send(Err(MarketError::ReplyDropped));
        } else {
            worker.serve(job);
        }
    }
}

fn run_market<F: FnOnce(&Market) + Send>(pool_size: usize, fail_on: Option<u64>, body: F) {
    let (market, workers) = Market::new(pool_size).unwrap();
    crossbeam::scope(|s| {
        for w in workers {
            s.spawn(move |_| serve(w, fail_on));
        }
        body(&market);
        market.shutdown();
    })
    .unwrap();
}

#[test]
fn zero_workers_is_config_error() {
    assert!(matches!(Market::new(0), Err(MarketError::ConfigInvalid)));
}

#[test]
fn new_makes_one_worker_per_thread() {
    let (market, workers) = Market::new(3).unwrap();
    assert_eq!(workers.len(), 3);
    assert_eq!(market.pool_size(), 3);
}

#[test]
fn submit_get_cancel_scenario() {
    run_market(2, None, |m| {
        assert!(m.add_order(Order::buy(1, 100, 5)).unwrap().is_empty());
        assert!(m.add_order(Order::buy(2, 100, 3)).unwrap().is_empty());
        assert!(m.add_order(Order::buy(3, 100, 2)).unwrap().is_empty());
        assert_eq!(m.get_order_by_id(2).unwrap(), Some(Order::buy(2, 100, 3)));
        assert!(m.cancel_order(2).unwrap());
        assert_eq!(m.get_order_by_id(2).unwrap(), None);
    });
}

#[test]
fn crossing_buy_trades_against_sell() {
    run_market(2, None, |m| {
        assert!(m.add_order(Order::sell(10, 99, 4)).unwrap().is_empty());
        let trades = m.add_order(Order::buy(11, 100, 10)).unwrap();
        assert!(trades.iter().any(|t| t.sell_id == 10));
        assert_eq!(trades, vec![Trade { buy_id: 11, sell_id: 10, price: 99, quantity: 4 }]);
        assert_eq!(m.get_order_by_id(10).unwrap(), None);
        assert_eq!(m.get_order_by_id(11).unwrap(), Some(Order::buy(11, 100, 6)));
    });
}

#[test]
fn cancel_all_scenario() {
    run_market(1, None, |m| {
        assert!(!m.cancel_all_orders().unwrap());
        m.add_order(Order::buy(1, 100, 5)).unwrap();
        m.add_order(Order::sell(2, 120, 5)).unwrap();
        assert!(m.cancel_all_orders().unwrap());
        assert_eq!(m.get_order_by_id(1).unwrap(), None);
        assert_eq!(m.get_order_by_id(2).unwrap(), None);
    });
}

#[test]
fn many_threads_many_orders() {
    run_market(4, None, |m| {
        let replies = std::sync::atomic::AtomicUsize::new(0);
        crossbeam::scope(|s| {
            for t in 0..100u64 {
                let replies = &replies;
                s.spawn(move |_| {
                    for k in 0..100u64 {
                        let id = t * 100 + k;
                        // buys below every sell: nothing ever crosses
                        let order = if id % 2 == 0 { Order::buy(id, 100, 1) } else { Order::sell(id, 200, 1) };
                        m.add_order(order).unwrap();
                        replies.fetch_add(1, std::sync::atomic::Ordering::SeqCst);
                    }
                });
            }
        })
        .unwrap();
        assert_eq!(replies.load(std::sync::atomic::Ordering::SeqCst), 10_000);
        for id in 0..10_000u64 {
            assert_eq!(m.get_order_by_id(id).unwrap().map(|o| o.id), Some(id));
        }
        assert_eq!(m.get_order_by_id(10_000).unwrap(), None);
    });
}

#[test]
fn own_submissions_apply_in_order() {
    run_market(4, None, |m| {
        for id in 0..200u64 {
            assert!(m.add_order(Order::buy(id, 100, 1)).unwrap().is_empty());
            assert!(m.cancel_order(id).unwrap());
            assert!(!m.cancel_order(id).unwrap());
        }
        assert!(!m.cancel_all_orders().unwrap());
    });
}

#[test]
fn shutdown_with_tasks_queued() {
    let (market, workers) = Market::new(1).unwrap();
    crossbeam::scope(|s| {
        let handle = {
            let w = workers.into_iter().next().unwrap();
            s.spawn(move |_| serve(w, None))
        };
        let mut submitters = Vec::new();
        for id in 0..50u64 {
            let m = &market;
            submitters.push(s.spawn(move |_| m.add_order(Order::buy(id, 100, 1))));
        }
        market.shutdown();
        for h in submitters {
            match h.join().unwrap() {
                Ok(trades) => assert!(trades.is_empty()),
                Err(e) => assert_eq!(e, MarketError::QueueClosed),
            }
        }
        handle.join().unwrap();
        assert!(matches!(market.add_order(Order::buy(99, 1, 1)), Err(MarketError::QueueClosed)));
        assert!(matches!(market.cancel_all_orders(), Err(MarketError::QueueClosed)));
    })
    .unwrap();
}

#[test]
fn failed_mutation_reports_error_and_market_survives() {
    run_market(2, Some(13), |m| {
        assert_eq!(m.add_order(Order::buy(13, 100, 1)), Err(MarketError::ReplyDropped));
        crossbeam::scope(|s| {
            let h = s.spawn(|_| m.add_order(Order::buy(14, 100, 1)));
            assert_eq!(h.join().unwrap(), Ok(vec![]));
        })
        .unwrap();
        assert!(m.cancel_order(14).unwrap());
        assert_eq!(m.get_order_by_id(13).unwrap(), None);
    });
}

#[test]
fn reads_run_beside_each_other() {
    run_market(1, None, |m| {
        m.add_order(Order::sell(5, 10, 1)).unwrap();
        crossbeam::scope(|s| {
            let hs: Vec<_> = (0..8).map(|_| s.spawn(|_| m.get_order_by_id(5).unwrap())).collect();
            for h in hs {
                assert_eq!(h.join().unwrap(), Some(Order::sell(5, 10, 1)));
            }
        })
        .unwrap();
    });
}

#[test]
fn outcome_of_maps_each_case() {
    assert!(matches!(outcome_of(Ok(Ok(Reply::Done(true)))), Ok(Reply::Done(true))));
    assert_eq!(outcome_of(Ok(Err(MarketError::LockPoisoned))).unwrap_err(), MarketError::ReplyDropped);
    assert_eq!(outcome_of(Err(RecvError)).unwrap_err(), MarketError::QueueClosed);
}

#[test]
fn trades_of_maps_each_case() {
    let t = Trade { buy_id: 1, sell_id: 2, price: 3, quantity: 4 };
    assert_eq!(trades_of(Ok(Reply::Trades(vec![t]))), Ok(vec![t]));
    assert_eq!(trades_of(Ok(Reply::Done(true))), Err(MarketError::ReplyDropped));
    assert_eq!(trades_of(Err(MarketError::QueueClosed)), Err(MarketError::QueueClosed));
}

#[test]
fn flag_of_maps_each_case() {
    assert_eq!(flag_of(Ok(Reply::Done(false))), Ok(false));
    assert_eq!(flag_of(Ok(Reply::Trades(vec![]))), Err(MarketError::ReplyDropped));
    assert_eq!(flag_of(Err(MarketError::ReplyDropped)), Err(MarketError::ReplyDropped));
}

#[test]
fn job_of_keeps_only_jobs() {
    let (reply, _answer) = crossbeam::channel::bounded(1);
    let job = job_of(Ok(Task::Run(Job { command: Command::CancelAll, reply })));
    assert!(matches!(job.map(|j| j.command), Some(Command::CancelAll)));
    assert!(job_of(Ok(Task::Stop)).is_none());
    assert!(job_of(Err(RecvError)).is_none());
}

#[test]
fn error_names() {
    assert_eq!(MarketError::QueueClosed.describe(), "task queue closed");
    assert_eq!(MarketError::ConfigInvalid.describe(), "pool size must be positive");
}

#[test]
fn task_builders_carry_their_command() {
    let (reply, _answer) = crossbeam::channel::bounded(1);
    match add_order_task(Order::buy(7, 100, 2), reply) {
        Task::Run(job) => assert_eq!(job.command, Command::AddOrder(Order::buy(7, 100, 2))),
        Task::Stop => panic!("a builder makes a job"),
    }
    let (reply, _answer) = crossbeam::channel::bounded(1);
    match cancel_order_task(7, reply) {
        Task::Run(job) => assert_eq!(job.command, Command::CancelOrder(7)),
        Task::Stop => panic!("a builder makes a job"),
    }
    let (reply, _answer) = crossbeam::channel::bounded(1);
    match cancel_all_task(reply) {
        Task::Run(job) => assert_eq!(job.command, Command::CancelAll),
        Task::Stop => panic!("a builder makes a job"),
    }
}

#[test]
fn worker_runs_commands_on_the_shared_book() {
    let (market, workers) = Market::new(1).unwrap();
    let w = &workers[0];
    assert!(matches!(w.run(Command::AddOrder(Order::sell(3, 10, 2))), Reply::Trades(t) if t.is_empty()));
    assert_eq!(market.get_order_by_id(3).unwrap(), Some(Order::sell(3, 10, 2)));
    match w.run(Command::AddOrder(Order::buy(4, 12, 1))) {
        Reply::Trades(t) => assert_eq!(t, vec![Trade { buy_id: 4, sell_id: 3, price: 10, quantity: 1 }]),
        Reply::Done(_) => panic!("an add replies with trades"),
    }
    assert!(matches!(w.run(Command::CancelOrder(3)), Reply::Done(true)));
    assert!(matches!(w.run(Command::CancelAll), Reply::Done(false)));
}

#[test]
fn serve_answers_on_the_reply_slot() {
    let (_market, workers) = Market::new(1).unwrap();
    let (reply, answer) = crossbeam::channel::bounded(1);
    workers[0].serve(Job { command: Command::CancelAll, reply });
    assert!(matches!(answer.recv(), Ok(Ok(Reply::Done(false)))));
}
