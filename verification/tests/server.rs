use crossbeam_queue::ArrayQueue;
use std::sync::Arc;
use vellum::engine::{
    idle, idle_verdict, BookOutcome, Command, Engine, EngineReply, Idle, Job, Polled, Request,
    Trade, QUEUE_CAPACITY,
};
use vellum::queue::Port;
use vellum::session::{to_command, to_messages, Action, Session, REASON_UNKNOWN_ORDER};
use vellum::submit::{Submission, SubmitStep};
use vellum::{Message, Side};

fn order(client_order_id: u64) -> Command {
    Command::NewOrder { client_order_id, side: Side::Buy, price: 100, qty: 10 }
}

fn trade(resting_order_id: u64, incoming_order_id: u64) -> Trade {
    Trade { resting_order_id, incoming_order_id, price: 100, qty: 4 }
}

fn request(cmd: Command) -> Request {
    Submission::new(cmd).unsent.unwrap()
}

fn port(capacity: usize) -> Port<Request> {
    Port::new(Arc::new(ArrayQueue::new(capacity)))
}

fn server_id(job: Job) -> u64 {
    match job {
        Job::Add { server_order_id, .. } => server_order_id,
        Job::Cancel { server_order_id } => server_order_id,
    }
}

#[test]
fn orders_are_numbered_from_one() {
    let mut engine = Engine::new();
    let mut ids = Vec::new();
    for client_id in [7, 7, 3] {
        ids.push(server_id(engine.accept(request(order(client_id))).job));
    }
    assert_eq!(ids, vec![1, 2, 3]);
}

#[test]
fn a_new_order_becomes_a_job_under_a_new_id() {
    let mut engine = Engine::new();
    let pending = engine.accept(request(Command::NewOrder {
        client_order_id: 42,
        side: Side::Sell,
        price: 105,
        qty: 5,
    }));
    assert_eq!(
        pending.job,
        Job::Add { client_order_id: 42, server_order_id: 1, side: Side::Sell, price: 105, qty: 5 }
    );
}

#[test]
fn cancelling_uses_up_no_id() {
    let mut engine = Engine::new();
    assert_eq!(server_id(engine.accept(request(order(1))).job), 1);
    let cancel = engine.accept(request(Command::Cancel { server_order_id: 99 }));
    assert_eq!(cancel.job, Job::Cancel { server_order_id: 99 });
    assert_eq!(server_id(engine.accept(request(order(2))).job), 2);
}

#[test]
fn replies_follow_the_job() {
    let add =
        Job::Add { client_order_id: 5, server_order_id: 8, side: Side::Buy, price: 1, qty: 2 };
    match add.reply(BookOutcome::Trades(vec![trade(3, 8)])) {
        EngineReply::OrderResult { client_order_id, server_order_id, trades } => {
            assert_eq!((client_order_id, server_order_id), (5, 8));
            assert_eq!(trades, vec![trade(3, 8)]);
        }
        EngineReply::CancelResult { .. } => panic!("wrong kind"),
    }
    match (Job::Cancel { server_order_id: 8 }).reply(BookOutcome::Found(true)) {
        EngineReply::CancelResult { server_order_id, found } => {
            assert_eq!((server_order_id, found), (8, true));
        }
        EngineReply::OrderResult { .. } => panic!("wrong kind"),
    }
}

#[test]
fn an_engine_stops_when_told_to_and_drained() {
    assert_eq!(idle_verdict(true, true), Idle::Spin);
    assert_eq!(idle_verdict(true, false), Idle::Spin);
    assert_eq!(idle_verdict(false, false), Idle::Spin);
    assert_eq!(idle_verdict(false, true), Idle::Stop);

    let mut queue = port(2);
    assert_eq!(idle(&mut queue, true), Idle::Spin);
    assert_eq!(idle(&mut queue, false), Idle::Stop);
    assert!(matches!(Submission::new(order(1)).step(&mut queue), SubmitStep::Sent));
    assert_eq!(idle(&mut queue, false), Idle::Spin);
}

#[test]
fn a_request_travels_to_the_engine_and_back() {
    let mut queue = port(QUEUE_CAPACITY);
    let mut engine = Engine::new();
    assert!(matches!(engine.poll(&mut queue), Polled::Nothing));

    let mut submission = Submission::new(order(42));
    assert!(matches!(submission.step(&mut queue), SubmitStep::Sent));
    assert!(submission.unsent.is_none());
    assert!(matches!(submission.step(&mut queue), SubmitStep::Spin));

    let mut pending = match engine.poll(&mut queue) {
        Polled::Taken(pending) => pending,
        _ => panic!("the request is in the queue"),
    };
    assert_eq!(server_id(pending.job), 1);
    assert!(pending.complete(BookOutcome::Trades(vec![trade(9, 1)])).is_ok());

    match submission.step(&mut queue) {
        SubmitStep::Done(EngineReply::OrderResult { client_order_id, server_order_id, trades }) => {
            assert_eq!((client_order_id, server_order_id), (42, 1));
            assert_eq!(trades, vec![trade(9, 1)]);
        }
        _ => panic!("the engine has answered"),
    }
    assert!(matches!(submission.step(&mut queue), SubmitStep::Spin));
    assert!(matches!(engine.poll(&mut queue), Polled::Nothing));
}

#[test]
fn requests_are_taken_up_in_the_order_they_were_sent() {
    let mut queue = port(4);
    let mut engine = Engine::new();
    for client_id in [10, 20, 30] {
        let mut s = Submission::new(order(client_id));
        assert!(matches!(s.step(&mut queue), SubmitStep::Sent));
    }
    for (client_id, id) in [(10, 1), (20, 2), (30, 3)] {
        match engine.poll(&mut queue) {
            Polled::Taken(p) => assert_eq!(
                p.job,
                Job::Add {
                    client_order_id: client_id,
                    server_order_id: id,
                    side: Side::Buy,
                    price: 100,
                    qty: 10,
                }
            ),
            _ => panic!("a request is in the queue"),
        }
    }
}

#[test]
fn a_full_queue_hands_the_request_back_unchanged() {
    let mut queue = port(1);
    let mut first = Submission::new(order(1));
    let mut second = Submission::new(Command::Cancel { server_order_id: 5 });
    assert!(matches!(first.step(&mut queue), SubmitStep::Sent));
    for _ in 0..3 {
        assert!(matches!(second.step(&mut queue), SubmitStep::Spin));
        assert_eq!(
            second.unsent.as_ref().map(|r| r.cmd),
            Some(Command::Cancel { server_order_id: 5 })
        );
    }
    let mut engine = Engine::new();
    assert!(matches!(engine.poll(&mut queue), Polled::Taken(_)));
    assert!(matches!(second.step(&mut queue), SubmitStep::Sent));
    match engine.poll(&mut queue) {
        Polled::Taken(mut p) => {
            assert_eq!(p.job, Job::Cancel { server_order_id: 5 });
            assert!(p.complete(BookOutcome::Found(false)).is_ok());
        }
        _ => panic!("the request is in the queue"),
    }
    assert!(matches!(
        second.step(&mut queue),
        SubmitStep::Done(EngineReply::CancelResult { server_order_id: 5, found: false })
    ));
}

#[test]
fn a_slot_holds_one_reply_and_hands_the_next_back() {
    let mut queue = port(1);
    let mut engine = Engine::new();
    let mut submission = Submission::new(Command::Cancel { server_order_id: 5 });
    assert!(matches!(submission.step(&mut queue), SubmitStep::Sent));
    let mut pending = match engine.poll(&mut queue) {
        Polled::Taken(pending) => pending,
        _ => panic!("the request is in the queue"),
    };
    assert!(pending.complete(BookOutcome::Found(false)).is_ok());
    assert!(matches!(
        pending.complete(BookOutcome::Found(true)),
        Err(EngineReply::CancelResult { server_order_id: 5, found: true })
    ));
    assert!(matches!(
        submission.step(&mut queue),
        SubmitStep::Done(EngineReply::CancelResult { server_order_id: 5, found: false })
    ));
    assert!(matches!(submission.step(&mut queue), SubmitStep::Spin));
}

#[test]
fn a_request_is_sent_once() {
    let mut queue = port(8);
    let mut submission = Submission::new(order(1));
    for _ in 0..5 {
        submission.step(&mut queue);
    }
    let mut engine = Engine::new();
    assert!(matches!(engine.poll(&mut queue), Polled::Taken(_)));
    assert!(matches!(engine.poll(&mut queue), Polled::Nothing));
}

#[test]
fn each_submitter_gets_the_reply_to_its_own_command() {
    let mut queue = port(4);
    let cmds = [order(7), Command::Cancel { server_order_id: 5 }, order(7)];
    let mut subs: Vec<Submission> = cmds.iter().map(|c| Submission::new(*c)).collect();
    for s in subs.iter_mut() {
        assert!(matches!(s.step(&mut queue), SubmitStep::Sent));
    }
    let mut engine = Engine::new();
    while let Polled::Taken(mut p) = engine.poll(&mut queue) {
        let outcome = match p.job {
            Job::Add { .. } => BookOutcome::Trades(Vec::new()),
            Job::Cancel { .. } => BookOutcome::Found(true),
        };
        assert!(p.complete(outcome).is_ok());
    }
    let replies: Vec<SubmitStep> = subs.iter_mut().rev().map(|s| s.step(&mut queue)).collect();
    assert!(matches!(
        replies[0],
        SubmitStep::Done(EngineReply::OrderResult { client_order_id: 7, server_order_id: 2, .. })
    ));
    assert!(matches!(
        replies[1],
        SubmitStep::Done(EngineReply::CancelResult { server_order_id: 5, found: true })
    ));
    assert!(matches!(
        replies[2],
        SubmitStep::Done(EngineReply::OrderResult { client_order_id: 7, server_order_id: 1, .. })
    ));
}

#[test]
fn two_ports_lead_to_one_queue() {
    let (mut near, mut far) = Port::pair(Arc::new(ArrayQueue::new(2)));
    assert!(matches!(Submission::new(order(9)).step(&mut near), SubmitStep::Sent));
    assert_eq!(idle(&mut far, false), Idle::Spin);
    assert!(matches!(Engine::new().poll(&mut far), Polled::Taken(_)));
    assert_eq!(idle(&mut near, false), Idle::Stop);
}

#[test]
fn a_step_goes_on_from_what_the_queue_answered() {
    let mut s = Submission::new(order(1));
    let req = s.unsent.take().unwrap();
    assert!(matches!(s.after_push(Err(req)), SubmitStep::Spin));
    assert!(s.unsent.is_some());
    assert!(matches!(s.after_push(Ok(())), SubmitStep::Sent));
    assert!(s.unsent.is_none());
    assert!(matches!(Submission::after_pop(None), SubmitStep::Spin));
    assert!(matches!(
        Submission::after_pop(Some(EngineReply::CancelResult { server_order_id: 3, found: true })),
        SubmitStep::Done(EngineReply::CancelResult { server_order_id: 3, found: true })
    ));
}

#[test]
fn only_requests_become_commands() {
    assert_eq!(
        to_command(Message::NewOrder { order_id: 42, side: Side::Sell, price: 9, qty: 8 }),
        Some(Command::NewOrder { client_order_id: 42, side: Side::Sell, price: 9, qty: 8 })
    );
    assert_eq!(
        to_command(Message::Cancel { order_id: 6 }),
        Some(Command::Cancel { server_order_id: 6 })
    );
    assert_eq!(to_command(Message::Ack { order_id: 6 }), None);
    assert_eq!(to_command(Message::Reject { order_id: 6, reason: 1 }), None);
    assert_eq!(
        to_command(Message::Trade {
            resting_order_id: 1,
            incoming_order_id: 2,
            price: 3,
            qty: 4,
        }),
        None
    );
}

#[test]
fn an_order_is_acknowledged_then_traded() {
    let reply = EngineReply::OrderResult {
        client_order_id: 42,
        server_order_id: 7,
        trades: vec![trade(3, 7), trade(5, 7)],
    };
    assert_eq!(
        to_messages(&reply),
        vec![
            Message::Ack { order_id: 7 },
            Message::Trade { resting_order_id: 3, incoming_order_id: 7, price: 100, qty: 4 },
            Message::Trade { resting_order_id: 5, incoming_order_id: 7, price: 100, qty: 4 },
        ]
    );
}

#[test]
fn a_cancellation_is_answered_once() {
    assert_eq!(
        to_messages(&EngineReply::CancelResult { server_order_id: 7, found: true }),
        vec![Message::Ack { order_id: 7 }]
    );
    assert_eq!(REASON_UNKNOWN_ORDER, 1);
    assert_eq!(
        to_messages(&EngineReply::CancelResult { server_order_id: 7, found: false }),
        vec![Message::Reject { order_id: 7, reason: 1 }]
    );
}

#[test]
fn the_acknowledged_id_cancels_the_order() {
    let mut engine = Engine::new();
    let added = engine.accept(request(order(42))).job;
    let out = to_messages(&added.reply(BookOutcome::Trades(Vec::new())));
    let id = match out[0] {
        Message::Ack { order_id } => order_id,
        _ => panic!("an order is acknowledged first"),
    };
    let cancel = to_command(Message::Cancel { order_id: id }).unwrap();
    assert_eq!(
        engine.accept(request(cancel)).job,
        Job::Cancel { server_order_id: server_id(added) }
    );
}

fn waiting_for_order() -> Session {
    let mut s = Session::new();
    let msg = Message::NewOrder { order_id: 42, side: Side::Buy, price: 100, qty: 10 };
    assert_eq!(s.on_read(Some(msg)), Action::Submit(order(42)));
    s
}

fn two_trades() -> EngineReply {
    EngineReply::OrderResult {
        client_order_id: 42,
        server_order_id: 7,
        trades: vec![trade(3, 7), trade(5, 7)],
    }
}

#[test]
fn a_reply_is_sent_in_full() {
    let mut s = waiting_for_order();
    let reply = two_trades();
    assert!(s.expects(&reply));
    let mut sent = Vec::new();
    let mut action = s.on_reply(&reply);
    while let Action::Send(msg) = action {
        sent.push(msg);
        action = s.on_written(true);
    }
    assert_eq!(action, Action::Read);
    assert_eq!(sent, to_messages(&reply));
    assert_eq!(
        s.on_read(Some(Message::Cancel { order_id: 7 })),
        Action::Submit(Command::Cancel { server_order_id: 7 })
    );
}

#[test]
fn a_client_that_cannot_be_told_the_outcome_is_given_up() {
    let mut s = waiting_for_order();
    s.on_reply(&two_trades());
    assert_eq!(s.on_written(false), Action::Close);

    let mut s = Session::new();
    s.on_read(Some(Message::Cancel { order_id: 7 }));
    let reply = EngineReply::CancelResult { server_order_id: 7, found: false };
    assert!(s.expects(&reply));
    assert_eq!(s.on_reply(&reply), Action::Send(Message::Reject { order_id: 7, reason: 1 }));
    assert_eq!(s.on_written(false), Action::Close);
}

#[test]
fn a_trade_that_cannot_be_written_ends_the_report_only() {
    let mut s = waiting_for_order();
    s.on_reply(&two_trades());
    assert!(matches!(s.on_written(true), Action::Send(Message::Trade { .. })));
    assert_eq!(s.on_written(false), Action::Read);
    assert_eq!(s.on_read(None), Action::Close);
}

#[test]
fn messages_of_the_server_are_passed_over() {
    let mut s = Session::new();
    let msg = Message::Ack { order_id: 1 };
    assert_eq!(s.on_read(Some(msg)), Action::Unexpected(msg));
    assert_eq!(
        s.on_read(Some(Message::Cancel { order_id: 2 })),
        Action::Submit(Command::Cancel { server_order_id: 2 })
    );
}

#[test]
fn a_connection_expects_the_kind_of_reply_it_asked_for() {
    let order_reply = two_trades();
    let cancel_reply = EngineReply::CancelResult { server_order_id: 7, found: true };
    let mut s = Session::new();
    assert!(!s.expects(&order_reply));
    assert!(!s.expects(&cancel_reply));
    s.on_read(Some(Message::Cancel { order_id: 7 }));
    assert!(!s.expects(&order_reply));
    assert!(s.expects(&cancel_reply));
    let s = waiting_for_order();
    assert!(s.expects(&order_reply));
    assert!(!s.expects(&cancel_reply));
}
