//! How a client thread gets a command to the engine and the answer back: it offers the request
//! to the queue until there is room, then looks into the reply slot until the answer is there.
use crossbeam_queue::ArrayQueue;
use std::sync::Arc;
use vstd::prelude::*;

use crate::engine::{Command, EngineReply, Request, QUEUE_CAPACITY};
use crate::queue::{Call, Port};

verus! {

/// How many replies a slot was made to hold: what `ArrayQueue::capacity` of crossbeam-queue
/// gives, which is fixed when the queue is made.
pub uninterp spec fn slot_capacity(slot: ArrayQueue<EngineReply>) -> nat;

/// `ArrayQueue::new` of crossbeam-queue: a queue with room for `capacity` replies. It panics
/// without any room, and when the room asked for cannot be allocated, which is why the
/// capacity is kept within that of the request queue. The queue is a new one that nothing else
/// leads to yet; contracts speak of values and not of where they are, so that is left unsaid.
#[verifier::external_body]
fn new_slot(capacity: usize) -> (slot: ArrayQueue<EngineReply>)
    requires
        0 < capacity <= QUEUE_CAPACITY,
    ensures
        slot_capacity(slot) == capacity,
{
    ArrayQueue::new(capacity)
}

/// A command on its way through the engine.
pub struct Submission {
    /// The request, as long as the queue has not taken it.
    pub unsent: Option<Request>,
    /// Where the answer will be found.
    pub reply_slot: Port<EngineReply>,
}

/// What became of one step of a submission.
pub enum SubmitStep {
    /// Nothing moved: try again.
    Spin,
    /// The engine's queue has taken the request.
    Sent,
    /// The engine has answered.
    Done(EngineReply),
}

/// Whether one step leads from `before` to `after`, and from `queue` to `queue_after`: one push
/// of the request into the queue as long as it is unsent, and after that one pop of the reply
/// slot. Nothing else is done to either.
pub open spec fn steps_to(
    before: Submission,
    queue: Port<Request>,
    step: SubmitStep,
    after: Submission,
    queue_after: Port<Request>,
) -> bool {
    match before.unsent {
        Some(req) => {
            &&& after.reply_slot == before.reply_slot
            &&& queue.called(Call::Push { value: req, taken: step is Sent }, queue_after)
            &&& match step {
                SubmitStep::Spin => after.unsent == Some(req),
                SubmitStep::Sent => after.unsent is None,
                SubmitStep::Done(_) => false,
            }
        },
        None => {
            &&& queue_after == queue
            &&& after.unsent is None
            &&& match step {
                SubmitStep::Spin => before.reply_slot.called(
                    Call::Pop { got: None },
                    after.reply_slot,
                ),
                SubmitStep::Sent => false,
                SubmitStep::Done(reply) => before.reply_slot.called(
                    Call::Pop { got: Some(reply) },
                    after.reply_slot,
                ),
            }
        },
    }
}

impl Submission {
    /// A submission that has not been sent yet holds a request for an answer in its own slot.
    pub open spec fn wf(self) -> bool {
        self.unsent matches Some(req) ==> req.reply_slot.queue() == self.reply_slot.queue()
    }

    /// Sets out to have `cmd` answered in a slot that holds one reply, and that nothing was
    /// done to yet.
    pub fn new(cmd: Command) -> (s: Self)
        ensures
            s.wf(),
            s.unsent matches Some(req) && req.cmd == cmd && req.reply_slot.calls().len() == 0,
            s.reply_slot.calls().len() == 0,
            slot_capacity(s.reply_slot.queue()) == 1,
    {
        let (reply_slot, engine_side) = Port::pair(Arc::new(new_slot(1)));
        let req = Request { cmd, reply_slot: engine_side };
        Submission { unsent: Some(req), reply_slot }
    }

    /// Goes on from an attempt to put the request into the queue: one that was handed back is
    /// kept for the next attempt.
    pub fn after_push(&mut self, pushed: Result<(), Request>) -> (step: SubmitStep)
        ensures
            final(self).reply_slot == old(self).reply_slot,
            match pushed {
                Ok(_) => final(self).unsent is None && step == SubmitStep::Sent,
                Err(back) => final(self).unsent == Some(back) && step == SubmitStep::Spin,
            },
    {
        match pushed {
            Ok(_) => {
                self.unsent = None;
                SubmitStep::Sent
            },
            Err(back) => {
                self.unsent = Some(back);
                SubmitStep::Spin
            },
        }
    }

    /// Goes on from a look into the reply slot.
    pub fn after_pop(popped: Option<EngineReply>) -> (step: SubmitStep)
        ensures
            step == match popped {
                Some(reply) => SubmitStep::Done(reply),
                None => SubmitStep::Spin,
            },
    {
        match popped {
            Some(reply) => SubmitStep::Done(reply),
            None => SubmitStep::Spin,
        }
    }

    /// One step: pushes the request into the queue or, once the queue has taken it, pops the
    /// reply slot, and tells what that gave. The request is offered unchanged until it is
    /// taken, and offered no more after that.
    pub fn step(&mut self, queue: &mut Port<Request>) -> (step: SubmitStep)
        requires
            old(self).wf(),
        ensures
            final(self).wf(),
            steps_to(*old(self), *old(queue), step, *final(self), *final(queue)),
    {
        match self.unsent.take() {
            Some(req) => {
                let pushed = queue.push(req);
                self.after_push(pushed)
            },
            None => {
                let popped = self.reply_slot.pop();
                Self::after_pop(popped)
            },
        }
    }
}

} // verus!
