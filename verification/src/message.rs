//! The binary wire protocol: fixed-width little-endian fields behind a one-byte tag.
//!
//! - Every message starts with a tag, so the reader knows how many bytes follow.
//! - Encoding and decoding a single message allocates nothing on the heap.
use vstd::prelude::*;
use vstd::slice::slice_subrange;

use crate::le::{get_le, le_bytes, put_le};
use crate::le::{law_le_bytes_of_le_value, lemma_le_bytes_len, lemma_le_limits};

verus! {

/// Which side of the book an order is on.
#[derive(Debug, Clone, Copy, PartialEq, Eq, Structural)]
pub enum Side {
    Buy,
    Sell,
}

/// A message between client and server. Prices are integer ticks.
#[derive(Debug, Clone, Copy, PartialEq, Eq, Structural)]
pub enum Message {
    /// Client -> Server: submit a new order.
    NewOrder { order_id: u64, side: Side, price: u64, qty: u32 },
    /// Client -> Server: cancel a previously submitted order.
    Cancel { order_id: u64 },
    /// Server -> Client: order accepted into the book.
    Ack { order_id: u64 },
    /// Server -> Client: order rejected (e.g. unknown id on cancel).
    Reject { order_id: u64, reason: u8 },
    /// Server -> Client: a trade occurred.
    Trade { resting_order_id: u64, incoming_order_id: u64, price: u64, qty: u32 },
}

/// Why bytes could not be turned into a message.
#[derive(Debug, Clone, Copy, PartialEq, Eq, Structural)]
pub enum WireError {
    /// There was nothing to decode.
    EmptyBuffer,
    /// The buffer ends before the message that its tag announces.
    ShortBuffer,
    /// The first byte is no known tag.
    UnknownTag,
    /// The side byte of a new order is neither 0 nor 1.
    BadSide,
    /// The stream ended before a whole message was read.
    Truncated,
}

/// The two classes that wire errors fall into.
#[derive(Debug, Clone, Copy, PartialEq, Eq, Structural)]
pub enum WireErrorKind {
    /// More bytes were needed than there are.
    UnexpectedEof,
    /// The bytes that are there mean nothing.
    InvalidData,
}

pub const TAG_NEW_ORDER: u8 = 1;

pub const TAG_CANCEL: u8 = 2;

pub const TAG_ACK: u8 = 3;

pub const TAG_REJECT: u8 = 4;

pub const TAG_TRADE: u8 = 5;

/// The size of a buffer that any message fits in.
pub const FRAME_CAPACITY: usize = 32;

impl WireError {
    pub open spec fn spec_kind(self) -> WireErrorKind {
        match self {
            WireError::EmptyBuffer | WireError::ShortBuffer | WireError::Truncated =>
                WireErrorKind::UnexpectedEof,
            WireError::UnknownTag | WireError::BadSide => WireErrorKind::InvalidData,
        }
    }

    pub open spec fn spec_message(self) -> Seq<char> {
        match self {
            WireError::EmptyBuffer => "empty buffer"@,
            WireError::ShortBuffer => "short buffer"@,
            WireError::UnknownTag => "unknown tag"@,
            WireError::BadSide => "bad side byte"@,
            WireError::Truncated => "failed to fill whole buffer"@,
        }
    }

    /// Whether bytes were missing or meaningless.
    pub fn kind(&self) -> (kind: WireErrorKind)
        ensures
            kind == self.spec_kind(),
    {
        match self {
            WireError::EmptyBuffer => WireErrorKind::UnexpectedEof,
            WireError::ShortBuffer => WireErrorKind::UnexpectedEof,
            WireError::Truncated => WireErrorKind::UnexpectedEof,
            WireError::UnknownTag => WireErrorKind::InvalidData,
            WireError::BadSide => WireErrorKind::InvalidData,
        }
    }

    /// The error in words.
    pub fn message(&self) -> (text: &'static str)
        ensures
            text@ == self.spec_message(),
    {
        match self {
            WireError::EmptyBuffer => "empty buffer",
            WireError::ShortBuffer => "short buffer",
            WireError::UnknownTag => "unknown tag",
            WireError::BadSide => "bad side byte",
            WireError::Truncated => "failed to fill whole buffer",
        }
    }
}

impl Side {
    /// The byte that stands for this side on the wire.
    pub open spec fn byte(self) -> u8 {
        match self {
            Side::Buy => 0,
            Side::Sell => 1,
        }
    }

    /// The byte that stands for this side on the wire.
    pub fn to_u8(self) -> (b: u8)
        ensures
            b == self.byte(),
    {
        match self {
            Side::Buy => 0,
            Side::Sell => 1,
        }
    }

    /// The side that `b` stands for.
    pub fn from_u8(b: u8) -> (r: Result<Self, WireError>)
        ensures
            r matches Ok(side) ==> side.byte() == b,
            r matches Err(e) ==> e == WireError::BadSide,
            r is Ok <==> b <= 1,
    {
        match b {
            0 => Ok(Side::Buy),
            1 => Ok(Side::Sell),
            _ => Err(WireError::BadSide),
        }
    }
}

/// How many bytes a message with this tag takes, the tag included, if the tag is known.
pub open spec fn frame_len(tag: u8) -> Option<nat> {
    if tag == TAG_NEW_ORDER {
        Some(22)
    } else if tag == TAG_CANCEL || tag == TAG_ACK {
        Some(9)
    } else if tag == TAG_REJECT {
        Some(10)
    } else if tag == TAG_TRADE {
        Some(29)
    } else {
        None
    }
}

/// What is wrong with the message at the start of `buf`, if anything is.
pub open spec fn decode_error(buf: Seq<u8>) -> Option<WireError> {
    if buf.len() == 0 {
        Some(WireError::EmptyBuffer)
    } else if frame_len(buf[0]) is None {
        Some(WireError::UnknownTag)
    } else if buf.len() < frame_len(buf[0])->0 {
        Some(WireError::ShortBuffer)
    } else if buf[0] == TAG_NEW_ORDER && buf[9] > 1 {
        Some(WireError::BadSide)
    } else {
        None
    }
}

/// What decoding `buf` may give: the error in it, or the message whose encoding `buf` starts
/// with, and the length of that encoding.
pub open spec fn decodes_to(buf: Seq<u8>, r: Result<(Message, usize), WireError>) -> bool {
    match r {
        Ok((msg, n)) => {
            &&& decode_error(buf) is None
            &&& msg.encoding().is_prefix_of(buf)
            &&& n == msg.encoding().len()
        },
        Err(e) => decode_error(buf) == Some(e),
    }
}

impl Message {
    /// The bytes of this message on the wire.
    pub open spec fn encoding(self) -> Seq<u8> {
        match self {
            Message::NewOrder { order_id, side, price, qty } => {
                seq![TAG_NEW_ORDER] + le_bytes(order_id as nat, 8) + seq![side.byte()] + le_bytes(
                    price as nat,
                    8,
                ) + le_bytes(qty as nat, 4)
            },
            Message::Cancel { order_id } => seq![TAG_CANCEL] + le_bytes(order_id as nat, 8),
            Message::Ack { order_id } => seq![TAG_ACK] + le_bytes(order_id as nat, 8),
            Message::Reject { order_id, reason } => {
                seq![TAG_REJECT] + le_bytes(order_id as nat, 8) + seq![reason]
            },
            Message::Trade { resting_order_id, incoming_order_id, price, qty } => {
                seq![TAG_TRADE] + le_bytes(resting_order_id as nat, 8) + le_bytes(
                    incoming_order_id as nat,
                    8,
                ) + le_bytes(price as nat, 8) + le_bytes(qty as nat, 4)
            },
        }
    }

    /// The tag that this message starts with.
    pub open spec fn tag(self) -> u8 {
        match self {
            Message::NewOrder { .. } => TAG_NEW_ORDER,
            Message::Cancel { .. } => TAG_CANCEL,
            Message::Ack { .. } => TAG_ACK,
            Message::Reject { .. } => TAG_REJECT,
            Message::Trade { .. } => TAG_TRADE,
        }
    }

    /// The number of bytes that this message takes on the wire.
    pub open spec fn spec_encoded_len(self) -> nat {
        frame_len(self.tag())->0
    }

    /// The tag comes first, and it alone fixes how long the encoding is.
    pub proof fn law_tag_fixes_length(self)
        ensures
            self.encoding()[0] == self.tag(),
            frame_len(self.tag()) == Some(self.encoding().len()),
            self.encoding().len() == self.spec_encoded_len(),
            self.encoding().len() <= FRAME_CAPACITY,
    {
        broadcast use lemma_le_bytes_len;

    }

    /// Encodes this message into the front of `buf` and returns the number of bytes written.
    /// What follows them in `buf` stays as it is.
    pub fn encode(&self, buf: &mut [u8]) -> (n: usize)
        requires
            self.spec_encoded_len() <= old(buf)@.len(),
        ensures
            n == self.spec_encoded_len(),
            n == self.encoding().len(),
            final(buf)@ == self.encoding() + old(buf)@.skip(n as int),
    {
        broadcast use lemma_le_bytes_len;

        let ghost start = buf@;
        match self {
            Message::NewOrder { order_id, side, price, qty } => {
                buf[0] = TAG_NEW_ORDER;
                put_le(buf, 1, *order_id, 8);
                buf[9] = side.to_u8();
                put_le(buf, 10, *price, 8);
                put_le(buf, 18, *qty as u64, 4);
                assert(buf@ =~= self.encoding() + start.skip(22));
                22
            },
            Message::Cancel { order_id } => {
                buf[0] = TAG_CANCEL;
                put_le(buf, 1, *order_id, 8);
                assert(buf@ =~= self.encoding() + start.skip(9));
                9
            },
            Message::Ack { order_id } => {
                buf[0] = TAG_ACK;
                put_le(buf, 1, *order_id, 8);
                assert(buf@ =~= self.encoding() + start.skip(9));
                9
            },
            Message::Reject { order_id, reason } => {
                buf[0] = TAG_REJECT;
                put_le(buf, 1, *order_id, 8);
                buf[9] = *reason;
                assert(buf@ =~= self.encoding() + start.skip(10));
                10
            },
            Message::Trade { resting_order_id, incoming_order_id, price, qty } => {
                buf[0] = TAG_TRADE;
                put_le(buf, 1, *resting_order_id, 8);
                put_le(buf, 9, *incoming_order_id, 8);
                put_le(buf, 17, *price, 8);
                put_le(buf, 25, *qty as u64, 4);
                assert(buf@ =~= self.encoding() + start.skip(29));
                29
            },
        }
    }

    /// The number of bytes `encode` will write for this message.
    pub fn encoded_len(&self) -> (n: usize)
        ensures
            n == self.spec_encoded_len(),
            n == self.encoding().len(),
    {
        broadcast use lemma_le_bytes_len;

        match self {
            Message::NewOrder { .. } => 22,
            Message::Cancel { .. } => 9,
            Message::Ack { .. } => 9,
            Message::Reject { .. } => 10,
            Message::Trade { .. } => 29,
        }
    }

    /// Decodes the message at the start of `buf`. Returns it with the number of bytes it took.
    pub fn decode(buf: &[u8]) -> (r: Result<(Message, usize), WireError>)
        ensures
            decodes_to(buf@, r),
    {
        if buf.is_empty() {
            return Err(WireError::EmptyBuffer);
        }
        let tag: u8 = buf[0];
        let len: usize = match body_len(tag) {
            Ok(n) => 1 + n,
            Err(e) => return Err(e),
        };
        if buf.len() < len {
            return Err(WireError::ShortBuffer);
        }
        broadcast use lemma_le_bytes_len;

        proof {
            lemma_le_limits();
        }
        match tag {
            TAG_NEW_ORDER => {
                let order_id: u64 = get_le(buf, 1, 8);
                let side = match Side::from_u8(buf[9]) {
                    Ok(side) => side,
                    Err(e) => return Err(e),
                };
                let price: u64 = get_le(buf, 10, 8);
                let qty: u32 = get_le(buf, 18, 4) as u32;
                let msg = Message::NewOrder { order_id, side, price, qty };
                proof {
                    law_le_bytes_of_le_value(buf@.subrange(1, 9));
                    law_le_bytes_of_le_value(buf@.subrange(10, 18));
                    law_le_bytes_of_le_value(buf@.subrange(18, 22));
                    assert(msg.encoding() =~= buf@.take(22));
                }
                Ok((msg, len))
            },
            TAG_CANCEL => {
                let order_id: u64 = get_le(buf, 1, 8);
                let msg = Message::Cancel { order_id };
                proof {
                    law_le_bytes_of_le_value(buf@.subrange(1, 9));
                    assert(msg.encoding() =~= buf@.take(9));
                }
                Ok((msg, len))
            },
            TAG_ACK => {
                let order_id: u64 = get_le(buf, 1, 8);
                let msg = Message::Ack { order_id };
                proof {
                    law_le_bytes_of_le_value(buf@.subrange(1, 9));
                    assert(msg.encoding() =~= buf@.take(9));
                }
                Ok((msg, len))
            },
            TAG_REJECT => {
                let order_id: u64 = get_le(buf, 1, 8);
                let reason: u8 = buf[9];
                let msg = Message::Reject { order_id, reason };
                proof {
                    law_le_bytes_of_le_value(buf@.subrange(1, 9));
                    assert(msg.encoding() =~= buf@.take(10));
                }
                Ok((msg, len))
            },
            // Of the known tags, only that of a trade is left.
            _ => {
                let resting_order_id: u64 = get_le(buf, 1, 8);
                let incoming_order_id: u64 = get_le(buf, 9, 8);
                let price: u64 = get_le(buf, 17, 8);
                let qty: u32 = get_le(buf, 25, 4) as u32;
                let msg = Message::Trade { resting_order_id, incoming_order_id, price, qty };
                proof {
                    law_le_bytes_of_le_value(buf@.subrange(1, 9));
                    law_le_bytes_of_le_value(buf@.subrange(9, 17));
                    law_le_bytes_of_le_value(buf@.subrange(17, 25));
                    law_le_bytes_of_le_value(buf@.subrange(25, 29));
                    assert(msg.encoding() =~= buf@.take(29));
                }
                Ok((msg, len))
            },
        }
    }

    /// Appends this message to `w`, from where its bytes can be sent on.
    pub fn write_to(&self, w: &mut Vec<u8>)
        ensures
            final(w)@ == old(w)@ + self.encoding(),
    {
        let mut buf = [0u8; FRAME_CAPACITY];
        let n: usize = self.encode(&mut buf);
        w.extend_from_slice(slice_subrange(&buf, 0, n));
    }
}

/// The number of bytes that follow `tag` in a message.
pub fn body_len(tag: u8) -> (r: Result<usize, WireError>)
    ensures
        match r {
            Ok(n) => frame_len(tag) == Some((1 + n) as nat),
            Err(e) => frame_len(tag) is None && e == WireError::UnknownTag,
        },
{
    match tag {
        TAG_NEW_ORDER => Ok(21),
        TAG_CANCEL => Ok(8),
        TAG_ACK => Ok(8),
        TAG_REJECT => Ok(9),
        TAG_TRADE => Ok(28),
        _ => Err(WireError::UnknownTag),
    }
}

/// What goes wrong when the next message is read from a stream that holds `s`: a stream that
/// ends too early is truncated, whether or not it holds a tag.
pub open spec fn read_error(s: Seq<u8>) -> Option<WireError> {
    match decode_error(s) {
        Some(WireError::EmptyBuffer) | Some(WireError::ShortBuffer) => Some(WireError::Truncated),
        e => e,
    }
}

/// How many bytes reading the next message takes off a stream that holds `s`: an unknown tag
/// is all that is read of its message, and a stream that ends too early is used up.
pub open spec fn read_len(s: Seq<u8>) -> nat {
    match read_error(s) {
        Some(WireError::Truncated) => s.len(),
        Some(WireError::UnknownTag) => 1,
        _ => frame_len(s[0])->0,
    }
}

/// What reading the next message off a stream that holds `s` may give: the error in it, or the
/// message whose encoding `s` starts with.
pub open spec fn reads_to(s: Seq<u8>, r: Result<Message, WireError>) -> bool {
    match r {
        Ok(msg) => read_error(s) is None && msg.encoding().is_prefix_of(s),
        Err(e) => read_error(s) == Some(e),
    }
}

/// Reads exactly one message off the front of `r`, by first taking the tag to know how many
/// more bytes to pull.
pub fn read_message(r: &mut &[u8]) -> (msg: Result<Message, WireError>)
    ensures
        reads_to(old(r)@, msg),
        final(r)@ == old(r)@.skip(read_len(old(r)@) as int),
{
    let all: &[u8] = *r;
    let len: usize = all.len();
    if len == 0 {
        return Err(WireError::Truncated);
    }
    let tag: u8 = all[0];
    let frame: usize = match body_len(tag) {
        Ok(n) => 1 + n,
        Err(e) => {
            *r = slice_subrange(all, 1, len);
            return Err(e);
        },
    };
    if len < frame {
        *r = slice_subrange(all, len, len);
        return Err(WireError::Truncated);
    }
    *r = slice_subrange(all, frame, len);
    let full = slice_subrange(all, 0, frame);
    match Message::decode(full) {
        Ok((m, _)) => Ok(m),
        Err(e) => Err(e),
    }
}

} // verus!
