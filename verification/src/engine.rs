//! The engine: what the one thread that owns the order book does with each request.
//!
//! Clients number their orders for their own tracking. The engine gives every order a server
//! order id of its own, in the same serialized place where the book is touched, so that ids
//! stay unique however many clients are connected.
use vstd::pervasive::unreached;
use vstd::prelude::*;

use crate::message::Side;
use crate::queue::{Call, Port};

verus! {

/// How many requests may wait for the engine.
pub const QUEUE_CAPACITY: usize = 4096;

/// What a client asks of the engine.
#[derive(Debug, Clone, Copy, PartialEq, Eq, Structural)]
pub enum Command {
    NewOrder { client_order_id: u64, side: Side, price: u64, qty: u32 },
    Cancel { server_order_id: u64 },
}

/// One match that the order book made.
#[derive(Debug, Clone, Copy, PartialEq, Eq, Structural)]
pub struct Trade {
    pub resting_order_id: u64,
    pub incoming_order_id: u64,
    pub price: u64,
    pub qty: u32,
}

/// The engine's answer to a command.
#[derive(Debug)]
pub enum EngineReply {
    OrderResult { client_order_id: u64, server_order_id: u64, trades: Vec<Trade> },
    CancelResult { server_order_id: u64, found: bool },
}

/// A command on its way to the engine, with the slot in which the answer is awaited.
pub struct Request {
    pub cmd: Command,
    pub reply_slot: Port<EngineReply>,
}

/// What the engine wants of the order book.
#[derive(Debug, Clone, Copy, PartialEq, Eq, Structural)]
pub enum Job {
    /// Match the order against the book, and let what is left of it rest there.
    Add { client_order_id: u64, server_order_id: u64, side: Side, price: u64, qty: u32 },
    /// Take the order out of the book.
    Cancel { server_order_id: u64 },
}

/// What the order book answered to a [`Job`].
#[derive(Debug)]
pub enum BookOutcome {
    /// The trades that an added order made, in order.
    Trades(Vec<Trade>),
    /// Whether the order to cancel was in the book.
    Found(bool),
}

/// A request that the engine has taken up, until the book has answered.
pub struct Pending {
    pub job: Job,
    pub reply_slot: Port<EngineReply>,
}

/// What the engine found in its queue.
pub enum Polled {
    Nothing,
    /// A request, taken up.
    Taken(Pending),
    /// A new order for which no id is left.
    OutOfIds(Request),
}

/// What the engine does when it found no request.
#[derive(Debug, Clone, Copy, PartialEq, Eq, Structural)]
pub enum Idle {
    /// Look again.
    Spin,
    /// End.
    Stop,
}

/// The engine's own state: the id of the next order.
#[derive(Debug)]
pub struct Engine {
    next_server_id: u64,
}

/// The job that `cmd` comes to when `next_id` is the id of the next order.
pub open spec fn job_for(next_id: u64, cmd: Command) -> Job {
    match cmd {
        Command::NewOrder { client_order_id, side, price, qty } => Job::Add {
            client_order_id,
            server_order_id: next_id,
            side,
            price,
            qty,
        },
        Command::Cancel { server_order_id } => Job::Cancel { server_order_id },
    }
}

/// The id of the next order once `cmd` is taken up. Only a new order uses one up.
pub open spec fn next_id_after(next_id: u64, cmd: Command) -> int {
    if cmd is NewOrder {
        next_id + 1
    } else {
        next_id as int
    }
}

/// What the engine has in hand once it took up `req`: the job, to be answered in the slot that
/// the request came with.
pub open spec fn pending_for(next_id: u64, req: Request) -> Pending {
    Pending { job: job_for(next_id, req.cmd), reply_slot: req.reply_slot }
}

/// What the engine makes of what it found in its queue: a request is taken up, unless it wants
/// an id and none is left.
pub open spec fn polled_for(next_id: u64, got: Option<Request>) -> Polled {
    match got {
        None => Polled::Nothing,
        Some(req) => if req.cmd is NewOrder && next_id == u64::MAX {
            Polled::OutOfIds(req)
        } else {
            Polled::Taken(pending_for(next_id, req))
        },
    }
}

/// The id of the next order after [`polled_for`].
pub open spec fn next_id_after_poll(next_id: u64, got: Option<Request>) -> int {
    if polled_for(next_id, got) is Taken {
        next_id_after(next_id, got->0.cmd)
    } else {
        next_id as int
    }
}

impl Job {
    /// Whether `outcome` answers this job.
    pub open spec fn answered_by(self, outcome: BookOutcome) -> bool {
        match self {
            Job::Add { .. } => outcome is Trades,
            Job::Cancel { .. } => outcome is Found,
        }
    }

    /// The engine's answer once the book has answered this job.
    pub open spec fn spec_reply(self, outcome: BookOutcome) -> EngineReply {
        match self {
            Job::Add { client_order_id, server_order_id, .. } => EngineReply::OrderResult {
                client_order_id,
                server_order_id,
                trades: outcome->Trades_0,
            },
            Job::Cancel { server_order_id } => EngineReply::CancelResult {
                server_order_id,
                found: outcome->Found_0,
            },
        }
    }

    /// The engine's answer once the book has answered this job.
    pub fn reply(self, outcome: BookOutcome) -> (reply: EngineReply)
        requires
            self.answered_by(outcome),
        ensures
            reply == self.spec_reply(outcome),
            match self {
                Job::Add { client_order_id, server_order_id, .. } => {
                    &&& outcome matches BookOutcome::Trades(trades)
                    &&& reply == (EngineReply::OrderResult {
                        client_order_id,
                        server_order_id,
                        trades,
                    })
                },
                Job::Cancel { server_order_id } => {
                    &&& outcome matches BookOutcome::Found(found)
                    &&& reply == (EngineReply::CancelResult { server_order_id, found })
                },
            },
    {
        match (self, outcome) {
            (Job::Add { client_order_id, server_order_id, .. }, BookOutcome::Trades(trades)) =>
                EngineReply::OrderResult { client_order_id, server_order_id, trades },
            (Job::Cancel { server_order_id }, BookOutcome::Found(found)) =>
                EngineReply::CancelResult { server_order_id, found },
            _ => unreached(),
        }
    }
}

impl Pending {
    /// Answers the request: pushes the reply into its slot, once, and returns what the push
    /// gave. A slot that has no room hands the reply back.
    pub fn complete(&mut self, outcome: BookOutcome) -> (r: Result<(), EngineReply>)
        requires
            old(self).job.answered_by(outcome),
        ensures
            final(self).job == old(self).job,
            old(self).reply_slot.called(
                Call::Push { value: old(self).job.spec_reply(outcome), taken: r is Ok },
                final(self).reply_slot,
            ),
            r matches Err(back) ==> back == old(self).job.spec_reply(outcome),
    {
        let reply = self.job.reply(outcome);
        self.reply_slot.push(reply)
    }
}

impl Engine {
    #[verifier::type_invariant]
    spec fn ids_start_at_one(self) -> bool {
        self.next_server_id >= 1
    }

    /// The id of the next order.
    pub closed spec fn next_id(self) -> u64 {
        self.next_server_id
    }

    /// An engine that has seen no order yet.
    pub fn new() -> (engine: Self)
        ensures
            engine.next_id() == 1,
    {
        Engine { next_server_id: 1 }
    }

    /// Takes up a request: a new order gets the next id, a cancellation keeps the id it names.
    /// No order is ever numbered zero.
    pub fn accept(&mut self, req: Request) -> (pending: Pending)
        requires
            req.cmd is NewOrder ==> old(self).next_id() < u64::MAX,
        ensures
            pending == pending_for(old(self).next_id(), req),
            pending.job matches Job::Add { server_order_id, .. } ==> server_order_id >= 1,
            final(self).next_id() == next_id_after(old(self).next_id(), req.cmd),
            pending.reply_slot == req.reply_slot,
            match req.cmd {
                Command::NewOrder { client_order_id, side, price, qty } => {
                    &&& pending.job matches Job::Add {
                        client_order_id: tracked_by,
                        server_order_id,
                        side: on,
                        price: at,
                        qty: many,
                    }
                    &&& tracked_by == client_order_id
                    &&& server_order_id == old(self).next_id()
                    &&& on == side
                    &&& at == price
                    &&& many == qty
                    &&& final(self).next_id() == server_order_id + 1
                },
                Command::Cancel { server_order_id } => {
                    &&& pending.job == (Job::Cancel { server_order_id })
                    &&& final(self).next_id() == old(self).next_id()
                },
            },
    {
        proof {
            use_type_invariant(&*self);
        }
        let job = match req.cmd {
            Command::NewOrder { client_order_id, side, price, qty } => {
                let server_order_id: u64 = self.next_server_id;
                self.next_server_id = server_order_id + 1;
                Job::Add { client_order_id, server_order_id, side, price, qty }
            },
            Command::Cancel { server_order_id } => Job::Cancel { server_order_id },
        };
        Pending { job, reply_slot: req.reply_slot }
    }

    /// Takes up a request that was found, unless it wants an id and none is left.
    pub fn take_up(&mut self, req: Request) -> (polled: Polled)
        ensures
            polled == polled_for(old(self).next_id(), Some(req)),
            final(self).next_id() == next_id_after_poll(old(self).next_id(), Some(req)),
            polled is OutOfIds <==> req.cmd is NewOrder && old(self).next_id() == u64::MAX,
            match polled {
                Polled::Nothing => false,
                Polled::OutOfIds(back) => {
                    &&& back == req
                    &&& final(self).next_id() == old(self).next_id()
                },
                Polled::Taken(pending) => {
                    &&& pending.reply_slot == req.reply_slot
                    &&& match req.cmd {
                        Command::NewOrder { client_order_id, side, price, qty } => {
                            &&& pending.job == (Job::Add {
                                client_order_id,
                                server_order_id: old(self).next_id(),
                                side,
                                price,
                                qty,
                            })
                            &&& final(self).next_id() == old(self).next_id() + 1
                        },
                        Command::Cancel { server_order_id } => {
                            &&& pending.job == (Job::Cancel { server_order_id })
                            &&& final(self).next_id() == old(self).next_id()
                        },
                    }
                },
            },
    {
        let fresh: bool = match req.cmd {
            Command::NewOrder { .. } => true,
            Command::Cancel { .. } => false,
        };
        if fresh && self.next_server_id == u64::MAX {
            Polled::OutOfIds(req)
        } else {
            Polled::Taken(self.accept(req))
        }
    }

    /// Pops the queue, once, and takes up the request that came out, if one did.
    pub fn poll(&mut self, queue: &mut Port<Request>) -> (polled: Polled)
        ensures
            exists|got: Option<Request>|
                {
                    &&& #[trigger] old(queue).called(Call::Pop { got }, *final(queue))
                    &&& polled == polled_for(old(self).next_id(), got)
                    &&& final(self).next_id() == next_id_after_poll(old(self).next_id(), got)
                },
            match polled {
                Polled::Taken(Pending { job: Job::Add { server_order_id, .. }, .. }) => {
                    &&& server_order_id == old(self).next_id()
                    &&& final(self).next_id() == server_order_id + 1
                },
                _ => final(self).next_id() == old(self).next_id(),
            },
    {
        match queue.pop() {
            Some(req) => self.take_up(req),
            None => Polled::Nothing,
        }
    }
}

/// Whether an engine that found no request goes on: it ends only when it is told to and no
/// request is left.
pub fn idle_verdict(running: bool, drained: bool) -> (next: Idle)
    ensures
        next == if !running && drained {
            Idle::Stop
        } else {
            Idle::Spin
        },
{
    if !running && drained {
        Idle::Stop
    } else {
        Idle::Spin
    }
}

/// What the engine does after `queue` gave it no request. While it is `running` it goes on;
/// after that it asks once whether the queue is empty, and ends if it is.
pub fn idle(queue: &mut Port<Request>, running: bool) -> (next: Idle)
    ensures
        running ==> next == Idle::Spin && *final(queue) == *old(queue),
        !running ==> old(queue).called(Call::IsEmpty { answer: next == Idle::Stop }, *final(queue)),
{
    let drained: bool = !running && queue.is_empty();
    idle_verdict(running, drained)
}

} // verus!
