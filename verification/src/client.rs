//! The interactive client: what a typed line means, and the message it becomes.
//!
//! - `buy <price> <qty>` and `sell <price> <qty>` submit an order.
//! - `cancel <server_order_id>` cancels one, by the id from the server's acknowledgement.
//! - `quit` ends the session.
use vstd::prelude::*;

use crate::message::{Message, Side};
use crate::text::{number_up_to, parse_number, split_words, word_is, word_views, words_of};

verus! {

/// What a typed line means.
#[derive(Debug, Clone, Copy, PartialEq, Eq, Structural)]
pub enum Line {
    /// There is nothing on the line.
    Blank,
    /// Submit an order.
    Order { side: Side, price: u64, qty: u32 },
    /// Cancel an order.
    Cancel { server_order_id: u64 },
    /// The price of an order is no number, or too large.
    BadPrice,
    /// The quantity of an order is no number, or too large.
    BadQty,
    /// The id of an order to cancel is no number, or too large.
    BadOrderId,
    /// End the session.
    Quit,
    /// None of these.
    Unrecognized,
}

/// The client's own state: the id of its next order.
#[derive(Debug)]
pub struct Client {
    next_order_id: u64,
}

/// What the words of a line mean together.
pub open spec fn line_of(words: Seq<Seq<char>>) -> Line {
    if words.len() == 0 {
        Line::Blank
    } else if (words[0] == "buy"@ || words[0] == "sell"@) && words.len() == 3 {
        match (number_up_to(words[1], u64::MAX), number_up_to(words[2], u32::MAX as u64)) {
            (None, _) => Line::BadPrice,
            (_, None) => Line::BadQty,
            (Some(price), Some(qty)) => Line::Order {
                side: if words[0] == "buy"@ {
                    Side::Buy
                } else {
                    Side::Sell
                },
                price,
                qty: qty as u32,
            },
        }
    } else if words[0] == "cancel"@ && words.len() == 2 {
        match number_up_to(words[1], u64::MAX) {
            None => Line::BadOrderId,
            Some(server_order_id) => Line::Cancel { server_order_id },
        }
    } else if words[0] == "quit"@ {
        Line::Quit
    } else {
        Line::Unrecognized
    }
}

/// The message that a line becomes when `next_id` is the id of the client's next order, if the
/// line sends one.
pub open spec fn message_of(next_id: u64, line: Line) -> Option<Message> {
    match line {
        Line::Order { side, price, qty } => Some(
            Message::NewOrder { order_id: next_id, side, price, qty },
        ),
        Line::Cancel { server_order_id } => Some(Message::Cancel { order_id: server_order_id }),
        _ => None,
    }
}

/// The id of the client's next order after a line. Only an order uses one up; after the last
/// id the count starts over at zero.
pub open spec fn next_order_id_after(next_id: u64, line: Line) -> u64 {
    if line is Order {
        if next_id == u64::MAX {
            0
        } else {
            (next_id + 1) as u64
        }
    } else {
        next_id
    }
}

/// What the words of a line mean together.
pub fn parse_words(words: &Vec<Vec<char>>) -> (line: Line)
    ensures
        line == line_of(word_views(words@)),
{
    if words.len() == 0 {
        return Line::Blank;
    }
    assert(word_views(words@)[0] == words@[0]@);
    let buy: bool = word_is(&words[0], "buy");
    if (buy || word_is(&words[0], "sell")) && words.len() == 3 {
        assert(word_views(words@)[1] == words@[1]@);
        assert(word_views(words@)[2] == words@[2]@);
        let price: u64 = match parse_number(&words[1], u64::MAX) {
            Some(price) => price,
            None => return Line::BadPrice,
        };
        let qty: u32 = match parse_number(&words[2], u32::MAX as u64) {
            Some(qty) => qty as u32,
            None => return Line::BadQty,
        };
        let side = if buy {
            Side::Buy
        } else {
            Side::Sell
        };
        Line::Order { side, price, qty }
    } else if word_is(&words[0], "cancel") && words.len() == 2 {
        assert(word_views(words@)[1] == words@[1]@);
        match parse_number(&words[1], u64::MAX) {
            Some(server_order_id) => Line::Cancel { server_order_id },
            None => Line::BadOrderId,
        }
    } else if word_is(&words[0], "quit") {
        Line::Quit
    } else {
        Line::Unrecognized
    }
}

/// What a typed line means.
pub fn parse_line(line: &str) -> (r: Line)
    ensures
        r == line_of(words_of(line@)),
{
    parse_words(&split_words(line))
}

impl Client {
    /// The id of the next order.
    pub closed spec fn next_id(self) -> u64 {
        self.next_order_id
    }

    /// A client that has sent no order yet.
    pub fn new() -> (client: Self)
        ensures
            client.next_id() == 1,
    {
        Client { next_order_id: 1 }
    }

    /// The message that a line becomes, if it sends one. A new order is given the next id.
    pub fn to_message(&mut self, line: Line) -> (msg: Option<Message>)
        ensures
            msg == message_of(old(self).next_id(), line),
            final(self).next_id() == next_order_id_after(old(self).next_id(), line),
            match line {
                Line::Order { side, price, qty } => {
                    &&& msg == Some(
                        Message::NewOrder { order_id: old(self).next_id(), side, price, qty },
                    )
                    &&& final(self).next_id() == (old(self).next_id() + 1) % 0x1_0000_0000_0000_0000
                },
                Line::Cancel { server_order_id } => {
                    &&& msg == Some(Message::Cancel { order_id: server_order_id })
                    &&& final(self).next_id() == old(self).next_id()
                },
                _ => msg is None && final(self).next_id() == old(self).next_id(),
            },
    {
        match line {
            Line::Order { side, price, qty } => {
                let order_id: u64 = self.next_order_id;
                self.next_order_id = order_id.wrapping_add(1);
                Some(Message::NewOrder { order_id, side, price, qty })
            },
            Line::Cancel { server_order_id } => Some(Message::Cancel { order_id: server_order_id }),
            _ => None,
        }
    }
}

} // verus!
