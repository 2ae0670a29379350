//! A client's connection as the server sees it: which command a message becomes, which
//! messages a reply becomes, and when the connection is closed.
use vstd::pervasive::unreached;
use vstd::prelude::*;

use crate::engine::{Command, EngineReply, Trade};
use crate::message::Message;

verus! {

/// The reason given when an order to cancel is not in the book.
pub const REASON_UNKNOWN_ORDER: u8 = 1;

/// What the server does next for a connection.
#[derive(Debug, Clone, Copy, PartialEq, Eq, Structural)]
pub enum Action {
    /// Read the next message.
    Read,
    /// Note that a client sent a message that only a server sends, and read the next one.
    Unexpected(Message),
    /// Have the engine answer a command.
    Submit(Command),
    /// Write a message to the client.
    Send(Message),
    /// Close the connection.
    Close,
}

/// Where a connection stands.
#[derive(Debug)]
enum Phase {
    Reading,
    /// A new order is with the engine.
    AwaitingOrder,
    /// A cancellation is with the engine.
    AwaitingCancel,
    /// The message before `next` in `out` is being written.
    Sending { out: Vec<Message>, next: usize },
    Closed,
}

/// Where a connection stands, as contracts speak of it.
#[verifier::ext_equal]
pub enum SessionView {
    Reading,
    /// A new order is with the engine.
    AwaitingOrder,
    /// A cancellation is with the engine.
    AwaitingCancel,
    /// A message is being written, the `first` of its reply or not; `rest` is still to come.
    Sending { first: bool, rest: Seq<Message> },
    Closed,
}

/// A client's connection.
#[derive(Debug)]
pub struct Session {
    phase: Phase,
}

/// The command that a message asks for, if it is one that clients send.
pub open spec fn command_of(msg: Message) -> Option<Command> {
    match msg {
        Message::NewOrder { order_id, side, price, qty } => Some(
            Command::NewOrder { client_order_id: order_id, side, price, qty },
        ),
        Message::Cancel { order_id } => Some(Command::Cancel { server_order_id: order_id }),
        _ => None,
    }
}

/// The message that reports a trade.
pub open spec fn trade_message(t: Trade) -> Message {
    Message::Trade {
        resting_order_id: t.resting_order_id,
        incoming_order_id: t.incoming_order_id,
        price: t.price,
        qty: t.qty,
    }
}

/// The messages that tell a client of a reply, in the order in which they are sent. An order
/// is acknowledged under the id that the server gave it, and the trades it made follow.
pub open spec fn messages_of(reply: EngineReply) -> Seq<Message> {
    match reply {
        EngineReply::OrderResult { server_order_id, trades, .. } => {
            seq![Message::Ack { order_id: server_order_id }] + trades@.map_values(
                |t: Trade| trade_message(t),
            )
        },
        EngineReply::CancelResult { server_order_id, found } => seq![
            if found {
                Message::Ack { order_id: server_order_id }
            } else {
                Message::Reject { order_id: server_order_id, reason: REASON_UNKNOWN_ORDER }
            },
        ],
    }
}

/// The command that a message asks for, if it is one that clients send.
pub fn to_command(msg: Message) -> (cmd: Option<Command>)
    ensures
        cmd == command_of(msg),
        match msg {
            Message::NewOrder { order_id, side, price, qty } => cmd == Some(
                Command::NewOrder { client_order_id: order_id, side, price, qty },
            ),
            Message::Cancel { order_id } => cmd == Some(
                Command::Cancel { server_order_id: order_id },
            ),
            Message::Ack { .. } | Message::Reject { .. } | Message::Trade { .. } => cmd is None,
        },
{
    match msg {
        Message::NewOrder { order_id, side, price, qty } => Some(
            Command::NewOrder { client_order_id: order_id, side, price, qty },
        ),
        Message::Cancel { order_id } => Some(Command::Cancel { server_order_id: order_id }),
        _ => None,
    }
}

/// The messages that tell a client of a reply, in the order in which they are sent.
pub fn to_messages(reply: &EngineReply) -> (out: Vec<Message>)
    ensures
        out@ == messages_of(*reply),
        match *reply {
            EngineReply::OrderResult { server_order_id, trades, .. } => {
                &&& out@.len() == 1 + trades@.len()
                &&& out@[0] == (Message::Ack { order_id: server_order_id })
                &&& forall|i: int|
                    0 <= i < trades@.len() ==> out@[i + 1] == (Message::Trade {
                        resting_order_id: (#[trigger] trades@[i]).resting_order_id,
                        incoming_order_id: trades@[i].incoming_order_id,
                        price: trades@[i].price,
                        qty: trades@[i].qty,
                    })
            },
            EngineReply::CancelResult { server_order_id, found: true } => out@ == seq![
                Message::Ack { order_id: server_order_id },
            ],
            EngineReply::CancelResult { server_order_id, found: false } => out@ == seq![
                Message::Reject { order_id: server_order_id, reason: 1 },
            ],
        },
{
    let mut out: Vec<Message> = Vec::new();
    match reply {
        EngineReply::OrderResult { server_order_id, trades, .. } => {
            out.push(Message::Ack { order_id: *server_order_id });
            let mut i: usize = 0;
            while i < trades.len()
                invariant
                    i <= trades@.len(),
                    out@ == seq![Message::Ack { order_id: *server_order_id }]
                        + trades@.take(i as int).map_values(|t: Trade| trade_message(t)),
                decreases trades.len() - i,
            {
                let t = trades[i];
                out.push(
                    Message::Trade {
                        resting_order_id: t.resting_order_id,
                        incoming_order_id: t.incoming_order_id,
                        price: t.price,
                        qty: t.qty,
                    },
                );
                assert(trades@.take(i + 1) =~= trades@.take(i as int).push(t));
                i = i + 1;
            }
            assert(trades@.take(i as int) =~= trades@);
        },
        EngineReply::CancelResult { server_order_id, found } => {
            if *found {
                out.push(Message::Ack { order_id: *server_order_id });
            } else {
                out.push(
                    Message::Reject { order_id: *server_order_id, reason: REASON_UNKNOWN_ORDER },
                );
            }
        },
    }
    out
}

impl View for Session {
    type V = SessionView;

    closed spec fn view(&self) -> SessionView {
        match self.phase {
            Phase::Reading => SessionView::Reading,
            Phase::AwaitingOrder => SessionView::AwaitingOrder,
            Phase::AwaitingCancel => SessionView::AwaitingCancel,
            Phase::Sending { out, next } => SessionView::Sending {
                first: next == 1,
                rest: out@.skip(next as int),
            },
            Phase::Closed => SessionView::Closed,
        }
    }
}

/// Whether `reply` is the kind of answer that a connection in this state waits for.
pub open spec fn awaits(state: SessionView, reply: EngineReply) -> bool {
    match reply {
        EngineReply::OrderResult { .. } => state is AwaitingOrder,
        EngineReply::CancelResult { .. } => state is AwaitingCancel,
    }
}

/// The state and the action after a message was read, or could not be.
pub open spec fn after_read(got: Option<Message>) -> (SessionView, Action) {
    match got {
        None => (SessionView::Closed, Action::Close),
        Some(msg) => match command_of(msg) {
            Some(cmd) => (
                if cmd is NewOrder {
                    SessionView::AwaitingOrder
                } else {
                    SessionView::AwaitingCancel
                },
                Action::Submit(cmd),
            ),
            None => (SessionView::Reading, Action::Unexpected(msg)),
        },
    }
}

/// The state and the action after the engine answered: the first message is sent.
pub open spec fn after_reply(reply: EngineReply) -> (SessionView, Action) {
    let out = messages_of(reply);
    (SessionView::Sending { first: true, rest: out.skip(1) }, Action::Send(out[0]))
}

/// The state and the action after a message was written, or could not be. A client that
/// cannot be told the outcome is given up. One that cannot be told of a trade misses the
/// trades that follow.
pub open spec fn after_write(first: bool, rest: Seq<Message>, ok: bool) -> (SessionView, Action) {
    if ok && rest.len() > 0 {
        (SessionView::Sending { first: false, rest: rest.skip(1) }, Action::Send(rest[0]))
    } else if !ok && first {
        (SessionView::Closed, Action::Close)
    } else {
        (SessionView::Reading, Action::Read)
    }
}

impl Session {
    #[verifier::type_invariant]
    spec fn inv(self) -> bool {
        self.phase matches Phase::Sending { out, next } ==> 1 <= next <= out@.len()
    }

    /// A connection that was just made: the first message is to be read.
    pub fn new() -> (s: Self)
        ensures
            s@ == SessionView::Reading,
    {
        Session { phase: Phase::Reading }
    }

    /// Goes on from an attempt to read a message: `None` stands for one that failed.
    pub fn on_read(&mut self, got: Option<Message>) -> (action: Action)
        requires
            old(self)@ is Reading,
        ensures
            (final(self)@, action) == after_read(got),
    {
        match got {
            None => {
                self.phase = Phase::Closed;
                Action::Close
            },
            Some(msg) => match to_command(msg) {
                Some(cmd) => {
                    self.phase = match cmd {
                        Command::NewOrder { .. } => Phase::AwaitingOrder,
                        Command::Cancel { .. } => Phase::AwaitingCancel,
                    };
                    Action::Submit(cmd)
                },
                None => Action::Unexpected(msg),
            },
        }
    }

    /// Whether `reply` is the kind of answer that this connection waits for.
    pub fn expects(&self, reply: &EngineReply) -> (b: bool)
        ensures
            b == awaits(self@, *reply),
    {
        match (&self.phase, reply) {
            (Phase::AwaitingOrder, EngineReply::OrderResult { .. }) => true,
            (Phase::AwaitingCancel, EngineReply::CancelResult { .. }) => true,
            _ => false,
        }
    }

    /// Goes on from the engine's answer.
    pub fn on_reply(&mut self, reply: &EngineReply) -> (action: Action)
        requires
            awaits(old(self)@, *reply),
        ensures
            (final(self)@, action) == after_reply(*reply),
    {
        let out = to_messages(reply);
        let msg = out[0];
        self.phase = Phase::Sending { out, next: 1 };
        Action::Send(msg)
    }

    /// Goes on from an attempt to write a message.
    pub fn on_written(&mut self, ok: bool) -> (action: Action)
        requires
            old(self)@ is Sending,
        ensures
            (final(self)@, action) == after_write(
                old(self)@->first,
                old(self)@->rest,
                ok,
            ),
    {
        proof {
            use_type_invariant(&*self);
        }
        let mut phase = Phase::Reading;
        std::mem::swap(&mut phase, &mut self.phase);
        match phase {
            Phase::Sending { out, next } => {
                if ok && next < out.len() {
                    let msg = out[next];
                    assert(out@.skip(next as int).skip(1) =~= out@.skip(next + 1));
                    self.phase = Phase::Sending { out, next: next + 1 };
                    Action::Send(msg)
                } else if !ok && next == 1 {
                    self.phase = Phase::Closed;
                    Action::Close
                } else {
                    Action::Read
                }
            },
            _ => unreached(),
        }
    }
}

} // verus!
