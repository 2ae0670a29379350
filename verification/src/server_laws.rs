//! What holds of the server and the client as a whole.
use vstd::prelude::*;

use crate::client::{message_of, next_order_id_after, Line};
use crate::engine::{
    job_for, next_id_after, next_id_after_poll, pending_for, polled_for, BookOutcome, Command,
    Engine, EngineReply, Job, Pending, Polled, Request, Trade,
};
use crate::message::Message;
use crate::queue::{Call, Port};
use crate::session::{
    after_read, after_reply, after_write, awaits, command_of, messages_of, trade_message, Action,
    SessionView, REASON_UNKNOWN_ORDER,
};
use crate::submit::{steps_to, Submission, SubmitStep};

verus! {

/// The commands in these requests.
pub open spec fn commands(reqs: Seq<Request>) -> Seq<Command> {
    reqs.map_values(|req: Request| req.cmd)
}

/// How many of the commands are new orders.
pub open spec fn new_orders(cmds: Seq<Command>) -> nat
    decreases cmds.len(),
{
    if cmds.len() == 0 {
        0
    } else {
        new_orders(cmds.drop_first()) + if cmds[0] is NewOrder {
            1nat
        } else {
            0
        }
    }
}

/// The jobs that an engine makes of commands that it takes up one after the other, when
/// `next_id` is the id of the first new order among them.
pub open spec fn jobs_for(next_id: u64, cmds: Seq<Command>) -> Seq<Job>
    decreases cmds.len(),
{
    if cmds.len() == 0 {
        Seq::empty()
    } else {
        seq![job_for(next_id, cmds[0])] + jobs_for(
            next_id_after(next_id, cmds[0]) as u64,
            cmds.drop_first(),
        )
    }
}

/// Every command becomes one job, a new order becomes an order for the book under the id that
/// is due, and ids are handed out without gaps: as many were given before it as there were new
/// orders before it.
pub proof fn law_ids_are_consecutive(next_id: u64, cmds: Seq<Command>, i: int)
    requires
        next_id + new_orders(cmds) <= u64::MAX,
        0 <= i < cmds.len(),
    ensures
        jobs_for(next_id, cmds).len() == cmds.len(),
        jobs_for(next_id, cmds)[i] == job_for(
            (next_id + new_orders(cmds.take(i))) as u64,
            cmds[i],
        ),
        next_id + new_orders(cmds.take(i)) <= u64::MAX,
    decreases cmds.len(),
{
    let rest = cmds.drop_first();
    let next = next_id_after(next_id, cmds[0]) as u64;
    lemma_jobs_len(next, rest);
    if i > 0 {
        law_ids_are_consecutive(next, rest, i - 1);
        assert(cmds.take(i).drop_first() =~= rest.take(i - 1));
    } else {
        assert(cmds.take(0) =~= Seq::empty());
    }
}

proof fn lemma_jobs_len(next_id: u64, cmds: Seq<Command>)
    ensures
        jobs_for(next_id, cmds).len() == cmds.len(),
    decreases cmds.len(),
{
    if cmds.len() > 0 {
        lemma_jobs_len(next_id_after(next_id, cmds[0]) as u64, cmds.drop_first());
    }
}

proof fn lemma_new_orders_split(cmds: Seq<Command>, i: int, j: int)
    requires
        0 <= i < j <= cmds.len(),
    ensures
        new_orders(cmds.take(i)) + (if cmds[i] is NewOrder {
            1nat
        } else {
            0
        }) <= new_orders(cmds.take(j)),
    decreases cmds.len(),
{
    let rest = cmds.drop_first();
    assert(cmds.take(j).drop_first() =~= rest.take(j - 1));
    if i > 0 {
        assert(cmds.take(i).drop_first() =~= rest.take(i - 1));
        lemma_new_orders_split(rest, i - 1, j - 1);
    }
}

/// No two orders ever get the same id: of two new orders, the one taken up later gets the
/// larger id, whichever clients they come from.
pub proof fn law_server_ids_are_unique(next_id: u64, cmds: Seq<Command>, i: int, j: int)
    requires
        next_id + new_orders(cmds) <= u64::MAX,
        0 <= i < j < cmds.len(),
        cmds[i] is NewOrder,
        cmds[j] is NewOrder,
    ensures
        jobs_for(next_id, cmds)[i] is Add,
        jobs_for(next_id, cmds)[j] is Add,
        next_id <= jobs_for(next_id, cmds)[i]->Add_server_order_id,
        jobs_for(next_id, cmds)[i]->Add_server_order_id < jobs_for(
            next_id,
            cmds,
        )[j]->Add_server_order_id,
{
    law_ids_are_consecutive(next_id, cmds, i);
    law_ids_are_consecutive(next_id, cmds, j);
    lemma_new_orders_split(cmds, i, j);
}

/// A connection gets the kind of answer it waits for: whatever the book answers to the job that
/// a client's command comes to, the reply fits the state that the command left the connection
/// in.
pub proof fn law_reply_fits_the_request(
    msg: Message,
    cmd: Command,
    next_id: u64,
    outcome: BookOutcome,
)
    requires
        command_of(msg) == Some(cmd),
        job_for(next_id, cmd).answered_by(outcome),
    ensures
        after_read(Some(msg)).1 == Action::Submit(cmd),
        awaits(after_read(Some(msg)).0, job_for(next_id, cmd).spec_reply(outcome)),
{
}

/// The engine answers where the answer is awaited: a request that it took up is answered in the
/// slot that its submitter looks into.
pub proof fn law_answer_goes_to_the_submitter(s: Submission, next_id: u64)
    requires
        s.wf(),
        s.unsent is Some,
    ensures
        pending_for(next_id, s.unsent->0).reply_slot.queue() == s.reply_slot.queue(),
{
}

/// A request that was taken up is answered by exactly one push into its own slot: a new order
/// by an order result under the client's id and the id that the server gave it, a cancellation
/// by a cancel result under the id that it named. `done` is the request once it is answered.
pub proof fn law_request_is_answered_once(
    next_id: u64,
    req: Request,
    outcome: BookOutcome,
    taken: bool,
    done: Pending,
)
    requires
        pending_for(next_id, req).job.answered_by(outcome),
        pending_for(next_id, req).reply_slot.called(
            Call::Push { value: pending_for(next_id, req).job.spec_reply(outcome), taken },
            done.reply_slot,
        ),
    ensures
        done.reply_slot.queue() == req.reply_slot.queue(),
        done.reply_slot.calls().len() == req.reply_slot.calls().len() + 1,
        done.reply_slot.calls().drop_last() == req.reply_slot.calls(),
        done.reply_slot.calls().last() == (Call::Push {
            value: match req.cmd {
                Command::NewOrder { client_order_id, .. } => EngineReply::OrderResult {
                    client_order_id,
                    server_order_id: next_id,
                    trades: outcome->Trades_0,
                },
                Command::Cancel { server_order_id } => EngineReply::CancelResult {
                    server_order_id,
                    found: outcome->Found_0,
                },
            },
            taken,
        }),
{
    assert(done.reply_slot.calls().drop_last() =~= req.reply_slot.calls());
}

/// How many pushes a queue has taken among these calls.
pub open spec fn taken_pushes<T>(calls: Seq<Call<T>>) -> nat
    decreases calls.len(),
{
    if calls.len() == 0 {
        0
    } else {
        taken_pushes(calls.drop_last()) + match calls.last() {
            Call::Push { taken: true, .. } => 1nat,
            _ => 0,
        }
    }
}

/// A request gets into the queue once, and as it is: however many steps its submission takes,
/// each of them pushes that request or nothing, the queue has taken one push when the request is
/// no longer unsent and none before, and that is the last one. `subs[i]` and `ports[i]` are the
/// submission and the port to the queue before step `i`.
pub proof fn law_request_is_sent_once(
    subs: Seq<Submission>,
    ports: Seq<Port<Request>>,
    steps: Seq<SubmitStep>,
)
    requires
        subs.len() == steps.len() + 1,
        ports.len() == steps.len() + 1,
        forall|i: int|
            0 <= i < steps.len() ==> steps_to(
                #[trigger] subs[i],
                ports[i],
                steps[i],
                subs[i + 1],
                ports[i + 1],
            ),
    ensures
        ports.last().queue() == ports[0].queue(),
        subs.last().unsent is Some ==> subs.last().unsent == subs[0].unsent,
        subs[0].unsent is None ==> ports.last().calls() == ports[0].calls(),
        ports[0].calls().is_prefix_of(ports.last().calls()),
        forall|k: int|
            ports[0].calls().len() <= k < ports.last().calls().len()
                ==> #[trigger] ports.last().calls()[k] == (Call::Push {
                value: subs[0].unsent->0,
                taken: subs.last().unsent is None && k == ports.last().calls().len() - 1,
            }),
        taken_pushes(ports.last().calls()) + (if subs.last().unsent is Some {
            1nat
        } else {
            0
        }) == taken_pushes(ports[0].calls()) + (if subs[0].unsent is Some {
            1nat
        } else {
            0
        }),
    decreases steps.len(),
{
    if steps.len() > 0 {
        let n = steps.len() - 1;
        let s = subs.drop_last();
        let p = ports.drop_last();
        let t = steps.drop_last();
        assert forall|i: int| 0 <= i < t.len() implies steps_to(
            #[trigger] s[i],
            p[i],
            t[i],
            s[i + 1],
            p[i + 1],
        ) by {
            assert(s[i] == subs[i]);
        }
        law_request_is_sent_once(s, p, t);
        assert(steps_to(subs[n], ports[n], steps[n], subs[n + 1], ports[n + 1]));
        if let Some(req) = subs[n].unsent {
            assert(ports[n + 1].calls().drop_last() =~= ports[n].calls());
        }
    }
}

/// Whether `reply` was put into a slot among these calls.
pub open spec fn was_put_in(calls: Seq<Call<EngineReply>>, reply: EngineReply) -> bool {
    calls.contains(Call::Push { value: reply, taken: true })
}

/// Whether `taker` is at the other end of the slot that `giver` leads to, and what came out to
/// the one was put in by the other.
pub open spec fn takes_from(taker: Port<EngineReply>, giver: Port<EngineReply>) -> bool {
    &&& taker.queue() == giver.queue()
    &&& forall|reply: EngineReply|
        taker.calls().contains(Call::Pop { got: Some(reply) }) ==> #[trigger] was_put_in(
            giver.calls(),
            reply,
        )
}

/// Whether `reply` is the kind of answer that `cmd` calls for, under the id that `cmd` gave.
pub open spec fn answers(cmd: Command, reply: EngineReply) -> bool {
    match (cmd, reply) {
        (
            Command::NewOrder { client_order_id: asked, .. },
            EngineReply::OrderResult { client_order_id, .. },
        ) => client_order_id == asked,
        (
            Command::Cancel { server_order_id: asked },
            EngineReply::CancelResult { server_order_id, .. },
        ) => server_order_id == asked,
        _ => false,
    }
}

proof fn lemma_only_reply_put_in(
    giver: Port<EngineReply>,
    reply: EngineReply,
    taken: bool,
    given: Port<EngineReply>,
    got: EngineReply,
)
    requires
        giver.calls().len() == 0,
        giver.called(Call::Push { value: reply, taken }, given),
        was_put_in(given.calls(), got),
    ensures
        got == reply,
{
    let i = choose|i: int|
        0 <= i < given.calls().len() && given.calls()[i] == (Call::Push {
            value: got,
            taken: true,
        });
    assert(i == 0);
}

/// A reply that was put into the slot of a request, on the engine's side, is the reply to that
/// request: to a new order an order result under the client's id and the id that was due, to a
/// cancellation a cancel result under the id that it named. `done` is the request once the
/// engine has answered it.
pub proof fn law_reply_put_in_answers_the_request(
    next_id: u64,
    req: Request,
    outcome: BookOutcome,
    taken: bool,
    done: Pending,
    reply: EngineReply,
)
    requires
        req.reply_slot.calls().len() == 0,
        pending_for(next_id, req).job.answered_by(outcome),
        pending_for(next_id, req).reply_slot.called(
            Call::Push { value: pending_for(next_id, req).job.spec_reply(outcome), taken },
            done.reply_slot,
        ),
        was_put_in(done.reply_slot.calls(), reply),
    ensures
        answers(req.cmd, reply),
        reply == match req.cmd {
            Command::NewOrder { client_order_id, .. } => EngineReply::OrderResult {
                client_order_id,
                server_order_id: next_id,
                trades: outcome->Trades_0,
            },
            Command::Cancel { server_order_id } => EngineReply::CancelResult {
                server_order_id,
                found: outcome->Found_0,
            },
        },
{
    let pending = pending_for(next_id, req);
    lemma_only_reply_put_in(
        pending.reply_slot,
        pending.job.spec_reply(outcome),
        taken,
        done.reply_slot,
        reply,
    );
}

/// A submitter gets the reply to its own command, as far as a slot gives out only what was put
/// in. `sub` is a submission that has just been made, `done` is its request once the engine has
/// answered it, and `reply` is what a step of the submission has found.
pub proof fn law_submitter_gets_its_own_reply(
    sub: Submission,
    next_id: u64,
    outcome: BookOutcome,
    taken: bool,
    done: Pending,
    waiting: Submission,
    queue: Port<Request>,
    reply: EngineReply,
    answered: Submission,
    queue_after: Port<Request>,
)
    requires
        sub.wf(),
        sub.unsent is Some,
        sub.unsent->0.reply_slot.calls().len() == 0,
        pending_for(next_id, sub.unsent->0).job.answered_by(outcome),
        pending_for(next_id, sub.unsent->0).reply_slot.called(
            Call::Push {
                value: pending_for(next_id, sub.unsent->0).job.spec_reply(outcome),
                taken,
            },
            done.reply_slot,
        ),
        steps_to(waiting, queue, SubmitStep::Done(reply), answered, queue_after),
        takes_from(answered.reply_slot, done.reply_slot),
    ensures
        answered.reply_slot.queue() == sub.reply_slot.queue(),
        answers(sub.unsent->0.cmd, reply),
        reply == match sub.unsent->0.cmd {
            Command::NewOrder { client_order_id, .. } => EngineReply::OrderResult {
                client_order_id,
                server_order_id: next_id,
                trades: outcome->Trades_0,
            },
            Command::Cancel { server_order_id } => EngineReply::CancelResult {
                server_order_id,
                found: outcome->Found_0,
            },
        },
{
    let calls = answered.reply_slot.calls();
    assert(calls[calls.len() - 1] == (Call::Pop { got: Some(reply) }));
    assert(was_put_in(done.reply_slot.calls(), reply));
    law_reply_put_in_answers_the_request(next_id, sub.unsent->0, outcome, taken, done, reply);
}

/// However many submitters there are, each gets the reply to its own command, and no two get
/// the same server order id for a new order. The engine takes up `reqs` one after the other,
/// `dones[i]` is the slot of the request `reqs[i]` once it is answered, and `replies[i]` came
/// out to the submitter at the other end, `takers[i]`.
pub proof fn law_submitters_get_their_own_replies(
    next_id: u64,
    reqs: Seq<Request>,
    outcomes: Seq<BookOutcome>,
    taken: Seq<bool>,
    dones: Seq<Port<EngineReply>>,
    takers: Seq<Port<EngineReply>>,
    replies: Seq<EngineReply>,
)
    requires
        next_id + new_orders(commands(reqs)) <= u64::MAX,
        outcomes.len() == reqs.len(),
        taken.len() == reqs.len(),
        dones.len() == reqs.len(),
        takers.len() == reqs.len(),
        replies.len() == reqs.len(),
        forall|i: int|
            0 <= i < reqs.len() ==> {
                let job = jobs_for(next_id, commands(reqs))[i];
                &&& (#[trigger] reqs[i]).reply_slot.calls().len() == 0
                &&& job.answered_by(outcomes[i])
                &&& reqs[i].reply_slot.called(
                    Call::Push { value: job.spec_reply(outcomes[i]), taken: taken[i] },
                    dones[i],
                )
                &&& takes_from(takers[i], dones[i])
                &&& takers[i].calls().contains(Call::Pop { got: Some(replies[i]) })
            },
    ensures
        forall|i: int| 0 <= i < reqs.len() ==> answers(reqs[i].cmd, #[trigger] replies[i]),
        forall|i: int, j: int|
            0 <= i < j < reqs.len() && reqs[i].cmd is NewOrder && reqs[j].cmd is NewOrder
                ==> (#[trigger] replies[i])->OrderResult_server_order_id < (
            #[trigger] replies[j])->OrderResult_server_order_id,
{
    let cmds = commands(reqs);
    let jobs = jobs_for(next_id, cmds);
    assert forall|i: int| 0 <= i < reqs.len() implies #[trigger] replies[i] == jobs[i].spec_reply(
        outcomes[i],
    ) && answers(reqs[i].cmd, replies[i]) by {
        assert(reqs[i].reply_slot.calls().len() == 0);
        assert(was_put_in(dones[i].calls(), replies[i]));
        lemma_only_reply_put_in(
            reqs[i].reply_slot,
            jobs[i].spec_reply(outcomes[i]),
            taken[i],
            dones[i],
            replies[i],
        );
        law_ids_are_consecutive(next_id, cmds, i);
    }
    assert forall|i: int, j: int|
        0 <= i < j < reqs.len() && reqs[i].cmd is NewOrder
            && reqs[j].cmd is NewOrder implies (#[trigger] replies[i])->OrderResult_server_order_id
        < (#[trigger] replies[j])->OrderResult_server_order_id by {
        law_server_ids_are_unique(next_id, cmds, i, j);
    }
}

/// What a client is told of a new order: first that it was accepted, under the id that the
/// server gave it, then each trade, in the order in which the book made them.
pub proof fn law_order_is_acknowledged_then_traded(
    next_id: u64,
    cmd: Command,
    trades: Vec<Trade>,
)
    requires
        cmd is NewOrder,
    ensures
        ({
            let reply = job_for(next_id, cmd).spec_reply(BookOutcome::Trades(trades));
            let out = messages_of(reply);
            &&& out.len() == 1 + trades@.len()
            &&& out[0] == Message::Ack { order_id: next_id }
            &&& forall|i: int|
                0 <= i < trades@.len() ==> out[i + 1] == trade_message(#[trigger] trades@[i])
        }),
{
}

/// What a client is told of a cancellation: one message, under the id that it named. It is an
/// acknowledgement if the order was in the book, and otherwise a rejection.
pub proof fn law_cancellation_is_answered_once(next_id: u64, id: u64, found: bool)
    ensures
        messages_of(
            job_for(next_id, Command::Cancel { server_order_id: id }).spec_reply(
                BookOutcome::Found(found),
            ),
        ) == seq![
            if found {
                Message::Ack { order_id: id }
            } else {
                Message::Reject { order_id: id, reason: REASON_UNKNOWN_ORDER }
            },
        ],
{
}

/// The id in an acknowledgement is the one to cancel by: a cancellation that names it reaches
/// the book under the id that the order was put there with.
pub proof fn law_acknowledged_id_cancels_the_order(
    next_id: u64,
    order: Command,
    trades: Vec<Trade>,
    later_id: u64,
)
    requires
        order is NewOrder,
    ensures
        ({
            let job = job_for(next_id, order);
            let ack = messages_of(job.spec_reply(BookOutcome::Trades(trades)))[0];
            let cancel = command_of(Message::Cancel { order_id: ack->Ack_order_id });
            &&& ack is Ack
            &&& cancel is Some
            &&& job_for(later_id, cancel->0) == Job::Cancel {
                server_order_id: job->Add_server_order_id,
            }
        }),
{
}

/// The messages that a connection sends from here on, if every write succeeds, until it reads
/// again.
pub open spec fn sent_from(state: SessionView, action: Action) -> Seq<Message>
    decreases (match state {
        SessionView::Sending { rest, .. } => rest.len() + 1,
        _ => 0,
    }),
{
    match (state, action) {
        (SessionView::Sending { first, rest }, Action::Send(msg)) => {
            let next = after_write(first, rest, true);
            seq![msg] + sent_from(next.0, next.1)
        },
        _ => Seq::empty(),
    }
}

/// A client that can be written to is sent the whole of a reply, in order.
pub proof fn law_reply_is_sent_in_full(reply: EngineReply)
    ensures
        sent_from(after_reply(reply).0, after_reply(reply).1) == messages_of(reply),
{
    let out = messages_of(reply);
    lemma_rest_is_sent(true, out[0], out.skip(1));
    assert(out =~= seq![out[0]] + out.skip(1));
}

proof fn lemma_rest_is_sent(first: bool, msg: Message, rest: Seq<Message>)
    ensures
        sent_from(SessionView::Sending { first, rest }, Action::Send(msg)) == seq![msg] + rest,
    decreases rest.len(),
{
    if rest.len() > 0 {
        lemma_rest_is_sent(false, rest[0], rest.skip(1));
        assert(rest =~= seq![rest[0]] + rest.skip(1));
    } else {
        let next = after_write(first, rest, true);
        assert(sent_from(next.0, next.1) =~= rest);
    }
}

/// A connection is closed only when nothing can be read from it or when the outcome of a
/// request cannot be written. A trade that cannot be written does not close it, but ends the
/// report of that order's trades.
pub proof fn law_when_a_connection_is_closed(
    got: Option<Message>,
    first: bool,
    rest: Seq<Message>,
    ok: bool,
)
    ensures
        after_read(got).1 is Close <==> got is None,
        after_write(first, rest, ok).1 is Close <==> !ok && first,
        !ok && !first ==> after_write(first, rest, ok) == (SessionView::Reading, Action::Read),
{
}

/// A message that only a server sends is passed over: the next one is read.
pub proof fn law_server_messages_are_passed_over(msg: Message)
    requires
        !(msg is NewOrder),
        !(msg is Cancel),
    ensures
        after_read(Some(msg)) == (SessionView::Reading, Action::Unexpected(msg)),
{
}

/// Whatever a client sends is a request that the server takes up as it was typed.
pub proof fn law_typed_requests_are_understood(next_id: u64, line: Line, msg: Message)
    requires
        message_of(next_id, line) == Some(msg),
    ensures
        match line {
            Line::Order { side, price, qty } => command_of(msg) == Some(
                Command::NewOrder { client_order_id: next_id, side, price, qty },
            ),
            Line::Cancel { server_order_id } => command_of(msg) == Some(
                Command::Cancel { server_order_id },
            ),
            _ => false,
        },
{
}

/// The id of a client's next order after it took in some lines.
pub open spec fn client_id_after(next_id: u64, lines: Seq<Line>) -> u64
    decreases lines.len(),
{
    if lines.len() == 0 {
        next_id
    } else {
        next_order_id_after(client_id_after(next_id, lines.drop_last()), lines.last())
    }
}

/// A client numbers its orders upwards: as long as the count does not start over, an order
/// gets a larger id than every order typed before it.
pub proof fn law_client_ids_increase(next_id: u64, lines: Seq<Line>, i: int, j: int)
    requires
        next_id + lines.len() <= u64::MAX,
        0 <= i < j <= lines.len(),
        lines[i] is Order,
    ensures
        client_id_after(next_id, lines.take(i)) < client_id_after(next_id, lines.take(j)),
    decreases j,
{
    lemma_client_id_bound(next_id, lines.take(j - 1));
    assert(lines.take(j).drop_last() =~= lines.take(j - 1));
    if i < j - 1 {
        law_client_ids_increase(next_id, lines, i, j - 1);
    }
}

proof fn lemma_client_id_bound(next_id: u64, lines: Seq<Line>)
    requires
        next_id + lines.len() <= u64::MAX,
    ensures
        next_id <= client_id_after(next_id, lines) <= next_id + lines.len(),
    decreases lines.len(),
{
    if lines.len() > 0 {
        lemma_client_id_bound(next_id, lines.drop_last());
    }
}

/// A new order reaches the book as it was asked for: under the client's id for it and the id
/// that is due, on the side, at the price and in the quantity of the command. It uses up that
/// id and no other.
pub proof fn law_order_reaches_the_book_as_asked(next_id: u64, cmd: Command)
    requires
        cmd is NewOrder,
    ensures
        job_for(next_id, cmd) is Add,
        job_for(next_id, cmd)->client_order_id == cmd->client_order_id,
        job_for(next_id, cmd)->Add_server_order_id == next_id,
        job_for(next_id, cmd)->side == cmd->side,
        job_for(next_id, cmd)->price == cmd->price,
        job_for(next_id, cmd)->qty == cmd->qty,
        next_id_after(next_id, cmd) == next_id + 1,
{
}

/// A cancellation reaches the book under the id that it names, and uses up no id.
pub proof fn law_cancellation_reaches_the_book_as_asked(next_id: u64, cmd: Command)
    requires
        cmd is Cancel,
    ensures
        job_for(next_id, cmd) is Cancel,
        job_for(next_id, cmd)->Cancel_server_order_id == cmd->server_order_id,
        next_id_after(next_id, cmd) == next_id,
{
}

/// Whether one poll leads from `before` to `after`, and from `queue` to `queue_after`.
pub open spec fn polls_to(
    before: Engine,
    queue: Port<Request>,
    polled: Polled,
    after: Engine,
    queue_after: Port<Request>,
) -> bool {
    exists|got: Option<Request>|
        {
            &&& #[trigger] queue.called(Call::Pop { got }, queue_after)
            &&& polled == polled_for(before.next_id(), got)
            &&& after.next_id() == next_id_after_poll(before.next_id(), got)
        }
}

/// The id under which a poll took up a new order, if it did.
pub open spec fn new_order_id(polled: Polled) -> Option<u64> {
    match polled {
        Polled::Taken(Pending { job: Job::Add { server_order_id, .. }, .. }) => Some(
            server_order_id,
        ),
        _ => None,
    }
}

/// One poll pops the queue once and deals with what came out. A new order is taken up with all
/// that it asks for, under the next id, which it uses up whatever else it holds; only when the
/// last id has come is it handed back. A cancellation is taken up under the id that it names.
/// Either is to be answered in the slot that it came with.
pub proof fn law_poll_takes_up_what_came_out(
    before: Engine,
    queue: Port<Request>,
    polled: Polled,
    after: Engine,
    queue_after: Port<Request>,
)
    requires
        polls_to(before, queue, polled, after, queue_after),
    ensures
        queue_after.queue() == queue.queue(),
        queue_after.calls().len() == queue.calls().len() + 1,
        queue_after.calls().drop_last() == queue.calls(),
        match queue_after.calls().last() {
            Call::Pop { got: None } => polled is Nothing && after.next_id() == before.next_id(),
            Call::Pop { got: Some(Request { cmd, reply_slot }) } => match cmd {
                Command::NewOrder { client_order_id, side, price, qty } => if before.next_id()
                    == u64::MAX {
                    &&& polled == Polled::OutOfIds(Request { cmd, reply_slot })
                    &&& after.next_id() == before.next_id()
                } else {
                    &&& polled == Polled::Taken(
                        Pending {
                            job: Job::Add {
                                client_order_id,
                                server_order_id: before.next_id(),
                                side,
                                price,
                                qty,
                            },
                            reply_slot,
                        },
                    )
                    &&& after.next_id() == before.next_id() + 1
                },
                Command::Cancel { server_order_id } => {
                    &&& polled == Polled::Taken(
                        Pending { job: Job::Cancel { server_order_id }, reply_slot },
                    )
                    &&& after.next_id() == before.next_id()
                },
            },
            _ => false,
        },
        match new_order_id(polled) {
            Some(id) => id == before.next_id() && after.next_id() == id + 1,
            None => after.next_id() == before.next_id(),
        },
{
    let got = choose|got: Option<Request>|
        {
            &&& #[trigger] queue.called(Call::Pop { got }, queue_after)
            &&& polled == polled_for(before.next_id(), got)
            &&& after.next_id() == next_id_after_poll(before.next_id(), got)
        };
    assert(queue_after.calls().last() == (Call::Pop { got }));
    assert(queue_after.calls().drop_last() =~= queue.calls());
}

proof fn lemma_polls_use_up_ids(
    engines: Seq<Engine>,
    ports: Seq<Port<Request>>,
    polls: Seq<Polled>,
    i: int,
    j: int,
)
    requires
        engines.len() == polls.len() + 1,
        ports.len() == polls.len() + 1,
        forall|k: int|
            0 <= k < polls.len() ==> polls_to(
                #[trigger] engines[k],
                ports[k],
                polls[k],
                engines[k + 1],
                ports[k + 1],
            ),
        0 <= i <= j <= polls.len(),
    ensures
        engines[i].next_id() <= engines[j].next_id(),
    decreases j - i,
{
    if i < j {
        lemma_polls_use_up_ids(engines, ports, polls, i, j - 1);
        assert(polls_to(engines[j - 1], ports[j - 1], polls[j - 1], engines[j], ports[j]));
        law_poll_takes_up_what_came_out(
            engines[j - 1],
            ports[j - 1],
            polls[j - 1],
            engines[j],
            ports[j],
        );
    }
}

/// No two orders ever get the same id, however long an engine runs: over any run of polls, a
/// new order that is taken up gets the id that was due, the next one due is one more, and an
/// order that is taken up later gets a larger id, whatever the orders hold. `engines[i]` and
/// `ports[i]` are the engine and its port to the queue before poll `i`.
pub proof fn law_polled_orders_are_numbered_upwards(
    engines: Seq<Engine>,
    ports: Seq<Port<Request>>,
    polls: Seq<Polled>,
)
    requires
        engines.len() == polls.len() + 1,
        ports.len() == polls.len() + 1,
        forall|i: int|
            0 <= i < polls.len() ==> polls_to(
                #[trigger] engines[i],
                ports[i],
                polls[i],
                engines[i + 1],
                ports[i + 1],
            ),
    ensures
        forall|i: int|
            0 <= i < polls.len() ==> match new_order_id(#[trigger] polls[i]) {
                Some(id) => engines[i].next_id() == id && engines[i + 1].next_id() == id + 1,
                None => engines[i + 1].next_id() == engines[i].next_id(),
            },
        forall|i: int, j: int|
            0 <= i < j < polls.len() && new_order_id(polls[i]) is Some && new_order_id(
                polls[j],
            ) is Some ==> new_order_id(#[trigger] polls[i])->0 < new_order_id(
                #[trigger] polls[j],
            )->0,
{
    assert forall|i: int| 0 <= i < polls.len() implies match new_order_id(#[trigger] polls[i]) {
        Some(id) => engines[i].next_id() == id && engines[i + 1].next_id() == id + 1,
        None => engines[i + 1].next_id() == engines[i].next_id(),
    } by {
        assert(polls_to(engines[i], ports[i], polls[i], engines[i + 1], ports[i + 1]));
        law_poll_takes_up_what_came_out(
            engines[i],
            ports[i],
            polls[i],
            engines[i + 1],
            ports[i + 1],
        );
    }
    assert forall|i: int, j: int|
        0 <= i < j < polls.len() && new_order_id(polls[i]) is Some && new_order_id(
            polls[j],
        ) is Some implies new_order_id(#[trigger] polls[i])->0 < new_order_id(
        #[trigger] polls[j],
    )->0 by {
        lemma_polls_use_up_ids(engines, ports, polls, i + 1, j);
    }
}

/// An order is answered with the trades that the book made of it, all of them and in order,
/// under the ids of its job; a cancellation with whether the order was found, under its id. The
/// one outcome never stands for the other.
pub proof fn law_reply_holds_what_the_book_answered(job: Job, trades: Vec<Trade>, found: bool)
    ensures
        job is Add ==> {
            let reply = job.spec_reply(BookOutcome::Trades(trades));
            &&& job.answered_by(BookOutcome::Trades(trades))
            &&& !job.answered_by(BookOutcome::Found(found))
            &&& reply is OrderResult
            &&& reply->client_order_id == job->client_order_id
            &&& reply->OrderResult_server_order_id == job->Add_server_order_id
            &&& reply->trades == trades
        },
        job is Cancel ==> {
            let reply = job.spec_reply(BookOutcome::Found(found));
            &&& job.answered_by(BookOutcome::Found(found))
            &&& !job.answered_by(BookOutcome::Trades(trades))
            &&& reply is CancelResult
            &&& reply->CancelResult_server_order_id == job->Cancel_server_order_id
            &&& reply->found == found
        },
{
}

/// One step of a submission that is unsent pushes its request, as it is, into the queue, and
/// looks into no slot; one of a submission that is sent pops its slot and leaves the queue
/// alone. What came of the step is what the queue, or the slot, gave.
pub proof fn law_step_offers_the_request_or_looks_for_the_reply(
    before: Submission,
    queue: Port<Request>,
    step: SubmitStep,
    after: Submission,
    queue_after: Port<Request>,
)
    requires
        steps_to(before, queue, step, after, queue_after),
    ensures
        queue_after.queue() == queue.queue(),
        after.reply_slot.queue() == before.reply_slot.queue(),
        before.unsent matches Some(req) ==> {
            &&& queue_after.calls() == queue.calls().push(
                Call::Push { value: req, taken: step is Sent },
            )
            &&& after.reply_slot.calls() == before.reply_slot.calls()
            &&& step is Sent <==> after.unsent is None
            &&& step is Spin <==> after.unsent == Some(req)
            &&& !(step is Done)
        },
        before.unsent is None ==> {
            &&& queue_after.calls() == queue.calls()
            &&& after.unsent is None
            &&& after.reply_slot.calls() == before.reply_slot.calls().push(
                Call::Pop {
                    got: match step {
                        SubmitStep::Done(reply) => Some(reply),
                        _ => None,
                    },
                },
            )
            &&& !(step is Sent)
        },
{
}

/// The command of a new order's message asks for that order, and the command of a
/// cancellation's message for that cancellation. No other message asks for anything.
pub proof fn law_command_asks_for_what_the_message_holds(msg: Message)
    ensures
        msg is NewOrder ==> {
            &&& command_of(msg) is Some
            &&& command_of(msg)->0 is NewOrder
            &&& command_of(msg)->0->client_order_id == msg->NewOrder_order_id
            &&& command_of(msg)->0->side == msg->side
            &&& command_of(msg)->0->price == msg->NewOrder_price
            &&& command_of(msg)->0->qty == msg->NewOrder_qty
        },
        msg is Cancel ==> {
            &&& command_of(msg) is Some
            &&& command_of(msg)->0 is Cancel
            &&& command_of(msg)->0->server_order_id == msg->Cancel_order_id
        },
        msg is Ack || msg is Reject || msg is Trade ==> command_of(msg) is None,
{
}

/// The client of an order is told of each trade exactly what the book made: after the
/// acknowledgement, message for message, the two orders, the price and the quantity.
pub proof fn law_trades_are_reported_as_made(
    client_order_id: u64,
    server_order_id: u64,
    trades: Vec<Trade>,
)
    ensures
        ({
            let out = messages_of(
                EngineReply::OrderResult { client_order_id, server_order_id, trades },
            );
            &&& out.len() == 1 + trades@.len()
            &&& out[0] is Ack
            &&& out[0]->Ack_order_id == server_order_id
            &&& forall|i: int|
                0 <= i < trades@.len() ==> {
                    &&& out[i + 1] is Trade
                    &&& out[i + 1]->resting_order_id == (#[trigger] trades@[i]).resting_order_id
                    &&& out[i + 1]->incoming_order_id == trades@[i].incoming_order_id
                    &&& out[i + 1]->Trade_price == trades@[i].price
                    &&& out[i + 1]->Trade_qty == trades@[i].qty
                }
        }),
{
}

/// The client of a cancellation is told of the order that it named: an acknowledgement if it
/// was found, and otherwise a rejection for reason 1.
pub proof fn law_cancellation_outcome_is_reported(server_order_id: u64, found: bool)
    ensures
        ({
            let out = messages_of(EngineReply::CancelResult { server_order_id, found });
            &&& out.len() == 1
            &&& found ==> out[0] is Ack && out[0]->Ack_order_id == server_order_id
            &&& !found ==> out[0] is Reject && out[0]->Reject_order_id == server_order_id
                && out[0]->reason == 1
        }),
{
}

/// What a connection does with what was read: a new order is submitted with all that its
/// message holds, and an order result awaited; a cancellation is submitted under the id in its
/// message, and a cancel result awaited; any other message is passed over; and when nothing
/// could be read the connection is closed.
pub proof fn law_read_request_is_submitted(got: Option<Message>)
    ensures
        match got {
            Some(Message::NewOrder { order_id, side, price, qty }) => {
                &&& after_read(got).0 is AwaitingOrder
                &&& after_read(got).1 == Action::Submit(
                    Command::NewOrder { client_order_id: order_id, side, price, qty },
                )
            },
            Some(Message::Cancel { order_id }) => {
                &&& after_read(got).0 is AwaitingCancel
                &&& after_read(got).1 == Action::Submit(
                    Command::Cancel { server_order_id: order_id },
                )
            },
            Some(msg) => {
                &&& after_read(got).0 is Reading
                &&& after_read(got).1 == Action::Unexpected(msg)
            },
            None => {
                &&& after_read(got).0 is Closed
                &&& after_read(got).1 is Close
            },
        },
{
}

/// An order result is awaited while an order is with the engine, a cancel result while a
/// cancellation is, and neither at any other time.
pub proof fn law_what_is_awaited(state: SessionView, reply: EngineReply)
    ensures
        awaits(state, reply) <==> (state is AwaitingOrder && reply is OrderResult) || (
        state is AwaitingCancel && reply is CancelResult),
{
}

/// When the engine answered, the outcome is written first: the acknowledgement of an order,
/// with its trades still to come, or the one message on a cancellation.
pub proof fn law_outcome_is_written_first(reply: EngineReply)
    ensures
        after_reply(reply).0 is Sending,
        after_reply(reply).0->first,
        match reply {
            EngineReply::OrderResult { server_order_id, trades, .. } => {
                let rest = after_reply(reply).0->rest;
                &&& after_reply(reply).1 == Action::Send(Message::Ack { order_id: server_order_id })
                &&& rest.len() == trades@.len()
                &&& forall|i: int|
                    0 <= i < trades@.len() ==> #[trigger] rest[i] == (Message::Trade {
                        resting_order_id: trades@[i].resting_order_id,
                        incoming_order_id: trades@[i].incoming_order_id,
                        price: trades@[i].price,
                        qty: trades@[i].qty,
                    })
            },
            EngineReply::CancelResult { server_order_id, found } => {
                &&& after_reply(reply).0->rest.len() == 0
                &&& found ==> after_reply(reply).1 == Action::Send(
                    Message::Ack { order_id: server_order_id },
                )
                &&& !found ==> after_reply(reply).1 == Action::Send(
                    Message::Reject { order_id: server_order_id, reason: 1 },
                )
            },
        },
{
}

/// After a message was written the next one of the reply is, and it is no longer the first;
/// after the last one the next request is read. After one that could not be written the
/// connection is closed if it told the outcome, and otherwise the next request is read.
pub proof fn law_reply_is_written_one_by_one(
    first: bool,
    msg: Message,
    rest: Seq<Message>,
)
    ensures
        after_write(first, seq![msg] + rest, true).0 == (SessionView::Sending {
            first: false,
            rest,
        }),
        after_write(first, seq![msg] + rest, true).1 == Action::Send(msg),
        after_write(first, Seq::empty(), true) == (SessionView::Reading, Action::Read),
        after_write(true, rest, false) == (SessionView::Closed, Action::Close),
        after_write(false, rest, false) == (SessionView::Reading, Action::Read),
{
    assert((seq![msg] + rest).skip(1) =~= rest);
}

/// The message of a typed order is a new order under the client's next id, on the side, at the
/// price and in the quantity that were typed, and that of a typed cancellation names the order
/// that was typed. No other line becomes a message.
pub proof fn law_message_holds_what_was_typed(next_id: u64, line: Line)
    ensures
        line is Order ==> {
            &&& message_of(next_id, line) is Some
            &&& message_of(next_id, line)->0 is NewOrder
            &&& message_of(next_id, line)->0->NewOrder_order_id == next_id
            &&& message_of(next_id, line)->0->side == line->side
            &&& message_of(next_id, line)->0->NewOrder_price == line->price
            &&& message_of(next_id, line)->0->NewOrder_qty == line->qty
        },
        line is Cancel ==> {
            &&& message_of(next_id, line) is Some
            &&& message_of(next_id, line)->0 is Cancel
            &&& message_of(next_id, line)->0->Cancel_order_id == line->server_order_id
        },
        !(line is Order) && !(line is Cancel) ==> message_of(next_id, line) is None,
{
}

/// A typed order uses up one id of the client's, whatever it holds, and no other line uses up
/// any. After the last id comes zero.
pub proof fn law_order_uses_up_one_client_id(next_id: u64, line: Line)
    ensures
        line is Order && next_id < u64::MAX ==> next_order_id_after(next_id, line) == next_id + 1,
        line is Order && next_id == u64::MAX ==> next_order_id_after(next_id, line) == 0,
        !(line is Order) ==> next_order_id_after(next_id, line) == next_id,
{
}

} // verus!
