//! What holds of the wire protocol as a whole.
use vstd::prelude::*;

use crate::le::{
    law_le_bytes_of_le_value, law_le_value_of_le_bytes, law_low_byte_comes_first, le_bytes, le_limit,
    le_value, lemma_le_bytes_len, lemma_le_limits, lemma_le_value_bound,
};
use crate::message::{
    decode_error, decodes_to, frame_len, read_error, read_len, reads_to, Message, Side, WireError,
    WireErrorKind,
};

verus! {

/// The bytes of `msgs`, one after the other.
pub open spec fn stream(msgs: Seq<Message>) -> Seq<u8>
    decreases msgs.len(),
{
    if msgs.len() == 0 {
        Seq::empty()
    } else {
        msgs[0].encoding() + stream(msgs.drop_first())
    }
}

/// Two integers of the same width that are written alike are the same.
proof fn lemma_le_bytes_injective(a: nat, b: nat, width: nat)
    requires
        a < le_limit(width),
        b < le_limit(width),
        le_bytes(a, width) == le_bytes(b, width),
    ensures
        a == b,
{
    law_le_value_of_le_bytes(a, width);
    law_le_value_of_le_bytes(b, width);
}

/// Bytes start with the encoding of at most one message.
pub proof fn law_no_two_messages_share_a_prefix(a: Message, b: Message, s: Seq<u8>)
    requires
        a.encoding().is_prefix_of(s),
        b.encoding().is_prefix_of(s),
    ensures
        a == b,
{
    broadcast use lemma_le_bytes_len;

    a.law_tag_fixes_length();
    b.law_tag_fixes_length();
    assert(a.encoding()[0] == s[0] && b.encoding()[0] == s[0]);
    assert(a.encoding() == b.encoding());
    lemma_le_limits();
    let e = a.encoding();
    match (a, b) {
        (
            Message::NewOrder { order_id: i, side: x, price: p, qty: q },
            Message::NewOrder { order_id: j, side: y, price: t, qty: u },
        ) => {
            assert(le_bytes(i as nat, 8) =~= e.subrange(1, 9));
            assert(le_bytes(j as nat, 8) =~= e.subrange(1, 9));
            lemma_le_bytes_injective(i as nat, j as nat, 8);
            assert(x.byte() == e[9] && y.byte() == e[9]);
            assert(le_bytes(p as nat, 8) =~= e.subrange(10, 18));
            assert(le_bytes(t as nat, 8) =~= e.subrange(10, 18));
            lemma_le_bytes_injective(p as nat, t as nat, 8);
            assert(le_bytes(q as nat, 4) =~= e.subrange(18, 22));
            assert(le_bytes(u as nat, 4) =~= e.subrange(18, 22));
            lemma_le_bytes_injective(q as nat, u as nat, 4);
        },
        (Message::Cancel { order_id: i }, Message::Cancel { order_id: j }) => {
            assert(le_bytes(i as nat, 8) =~= e.subrange(1, 9));
            assert(le_bytes(j as nat, 8) =~= e.subrange(1, 9));
            lemma_le_bytes_injective(i as nat, j as nat, 8);
        },
        (Message::Ack { order_id: i }, Message::Ack { order_id: j }) => {
            assert(le_bytes(i as nat, 8) =~= e.subrange(1, 9));
            assert(le_bytes(j as nat, 8) =~= e.subrange(1, 9));
            lemma_le_bytes_injective(i as nat, j as nat, 8);
        },
        (
            Message::Reject { order_id: i, reason: x },
            Message::Reject { order_id: j, reason: y },
        ) => {
            assert(le_bytes(i as nat, 8) =~= e.subrange(1, 9));
            assert(le_bytes(j as nat, 8) =~= e.subrange(1, 9));
            lemma_le_bytes_injective(i as nat, j as nat, 8);
            assert(x == e[9] && y == e[9]);
        },
        (
            Message::Trade { resting_order_id: i, incoming_order_id: k, price: p, qty: q },
            Message::Trade { resting_order_id: j, incoming_order_id: l, price: t, qty: u },
        ) => {
            assert(le_bytes(i as nat, 8) =~= e.subrange(1, 9));
            assert(le_bytes(j as nat, 8) =~= e.subrange(1, 9));
            lemma_le_bytes_injective(i as nat, j as nat, 8);
            assert(le_bytes(k as nat, 8) =~= e.subrange(9, 17));
            assert(le_bytes(l as nat, 8) =~= e.subrange(9, 17));
            lemma_le_bytes_injective(k as nat, l as nat, 8);
            assert(le_bytes(p as nat, 8) =~= e.subrange(17, 25));
            assert(le_bytes(t as nat, 8) =~= e.subrange(17, 25));
            lemma_le_bytes_injective(p as nat, t as nat, 8);
            assert(le_bytes(q as nat, 4) =~= e.subrange(25, 29));
            assert(le_bytes(u as nat, 4) =~= e.subrange(25, 29));
            lemma_le_bytes_injective(q as nat, u as nat, 4);
        },
        _ => {},
    }
}

/// Nothing is wrong with bytes that start with the encoding of a message.
proof fn lemma_encoding_has_no_error(msg: Message, s: Seq<u8>)
    requires
        msg.encoding().is_prefix_of(s),
    ensures
        decode_error(s) is None,
        read_len(s) == msg.encoding().len(),
{
    broadcast use lemma_le_bytes_len;

    msg.law_tag_fixes_length();
    assert(msg.encoding()[0] == s[0]);
    if let Message::NewOrder { side, .. } = msg {
        assert(msg.encoding()[9] == side.byte());
        assert(s[9] == side.byte());
    }
}

/// Decoding undoes encoding, whatever follows the message in the buffer: it gives back the
/// message and the number of bytes that encoding wrote.
pub proof fn law_decode_undoes_encode(
    msg: Message,
    rest: Seq<u8>,
    r: Result<(Message, usize), WireError>,
)
    requires
        decodes_to(msg.encoding() + rest, r),
    ensures
        r == Ok::<(Message, usize), WireError>((msg, msg.spec_encoded_len() as usize)),
{
    let s = msg.encoding() + rest;
    assert(msg.encoding() =~= s.take(msg.encoding().len() as int));
    lemma_encoding_has_no_error(msg, s);
    msg.law_tag_fixes_length();
    law_no_two_messages_share_a_prefix(r->Ok_0.0, msg, s);
}

/// Encoding undoes decoding: every byte that was decoded is written again.
pub proof fn law_encode_undoes_decode(buf: Seq<u8>, msg: Message, n: usize)
    requires
        decodes_to(buf, Ok((msg, n))),
    ensures
        n <= buf.len(),
        n == msg.spec_encoded_len(),
        msg.encoding() == buf.take(n as int),
{
    msg.law_tag_fixes_length();
}

/// A buffer decodes in one way only.
pub proof fn law_decoding_is_deterministic(
    buf: Seq<u8>,
    r1: Result<(Message, usize), WireError>,
    r2: Result<(Message, usize), WireError>,
)
    requires
        decodes_to(buf, r1),
        decodes_to(buf, r2),
    ensures
        r1 == r2,
{
    if r1 is Ok && r2 is Ok {
        law_no_two_messages_share_a_prefix(r1->Ok_0.0, r2->Ok_0.0, buf);
    }
}

/// A message that was cut short is never taken for another one: decoding asks for more bytes.
pub proof fn law_cut_message_is_refused(msg: Message, k: nat)
    requires
        k < msg.spec_encoded_len(),
    ensures
        decode_error(msg.encoding().take(k as int)) == Some(
            if k == 0 {
                WireError::EmptyBuffer
            } else {
                WireError::ShortBuffer
            },
        ),
        read_error(msg.encoding().take(k as int)) == Some(WireError::Truncated),
{
    msg.law_tag_fixes_length();
    if k > 0 {
        assert(msg.encoding().take(k as int)[0] == msg.tag());
    }
}

/// Decoding looks no further than the message: what follows it makes no difference.
pub proof fn law_decoding_ignores_what_follows(
    buf: Seq<u8>,
    rest: Seq<u8>,
    msg: Message,
    n: usize,
)
    requires
        decodes_to(buf, Ok((msg, n))),
    ensures
        decodes_to(buf + rest, Ok((msg, n))),
{
    assert(msg.encoding() =~= (buf + rest).take(msg.encoding().len() as int));
    lemma_encoding_has_no_error(msg, buf + rest);
}

/// Reading a message off a stream gives what decoding the stream's bytes gives, but for the
/// name of the error where bytes are missing.
pub proof fn law_reading_agrees_with_decoding(
    s: Seq<u8>,
    read: Result<Message, WireError>,
    decoded: Result<(Message, usize), WireError>,
)
    requires
        reads_to(s, read),
        decodes_to(s, decoded),
    ensures
        match decoded {
            Ok((msg, n)) => read == Ok::<Message, WireError>(msg) && read_len(s) == n,
            Err(WireError::EmptyBuffer) | Err(WireError::ShortBuffer) => read
                == Err::<Message, WireError>(WireError::Truncated),
            Err(e) => read == Err::<Message, WireError>(e),
        },
{
    if let Ok((msg, n)) = decoded {
        lemma_encoding_has_no_error(msg, s);
        law_no_two_messages_share_a_prefix(read->Ok_0, msg, s);
    }
}

/// Reading undoes writing: off a stream that starts with a message, that message is read, and
/// exactly its bytes are taken.
pub proof fn law_read_undoes_write(msg: Message, rest: Seq<u8>, r: Result<Message, WireError>)
    requires
        reads_to(msg.encoding() + rest, r),
    ensures
        r == Ok::<Message, WireError>(msg),
        (msg.encoding() + rest).skip(read_len(msg.encoding() + rest) as int) == rest,
{
    let s = msg.encoding() + rest;
    assert(msg.encoding() =~= s.take(msg.encoding().len() as int));
    lemma_encoding_has_no_error(msg, s);
    law_no_two_messages_share_a_prefix(r->Ok_0, msg, s);
    assert(s.skip(msg.encoding().len() as int) =~= rest);
}

/// Writing one more message appends its bytes to the stream.
pub proof fn law_writing_extends_the_stream(msgs: Seq<Message>, msg: Message)
    ensures
        stream(msgs.push(msg)) == stream(msgs) + msg.encoding(),
    decreases msgs.len(),
{
    if msgs.len() == 0 {
        assert(msgs.push(msg).drop_first() =~= msgs);
        assert(stream(msgs.push(msg)) =~= stream(msgs) + msg.encoding());
    } else {
        assert(msgs.push(msg).drop_first() =~= msgs.drop_first().push(msg));
        law_writing_extends_the_stream(msgs.drop_first(), msg);
        assert(stream(msgs.push(msg)) =~= stream(msgs) + msg.encoding());
    }
}

/// Messages written one after the other are read back in the same order, and the bytes after
/// them are left. `reads[i]` is what the read number `i` gave and `left[i]` what the stream
/// held before it.
pub proof fn law_stream_is_read_in_order(
    msgs: Seq<Message>,
    rest: Seq<u8>,
    reads: Seq<Result<Message, WireError>>,
    left: Seq<Seq<u8>>,
)
    requires
        reads.len() == msgs.len(),
        left.len() == msgs.len() + 1,
        left[0] == stream(msgs) + rest,
        forall|i: int|
            0 <= i < msgs.len() ==> reads_to(#[trigger] left[i], reads[i]) && left[i + 1]
                == left[i].skip(read_len(left[i]) as int),
    ensures
        forall|i: int| 0 <= i < msgs.len() ==> #[trigger] reads[i] == Ok::<Message, WireError>(msgs[i]),
        left[msgs.len() as int] == rest,
    decreases msgs.len(),
{
    if msgs.len() == 0 {
        assert(stream(msgs) + rest =~= rest);
    } else {
        let more = stream(msgs.drop_first()) + rest;
        assert(left[0] =~= msgs[0].encoding() + more);
        law_read_undoes_write(msgs[0], more, reads[0]);
        assert(left[1] == more);
        let tail_left = left.drop_first();
        let tail_reads = reads.drop_first();
        assert forall|i: int| 0 <= i < msgs.len() - 1 implies reads_to(
            #[trigger] tail_left[i],
            tail_reads[i],
        ) && tail_left[i + 1] == tail_left[i].skip(read_len(tail_left[i]) as int) by {
            assert(tail_left[i] == left[i + 1]);
        }
        law_stream_is_read_in_order(msgs.drop_first(), rest, tail_reads, tail_left);
        assert forall|i: int| 0 <= i < msgs.len() implies #[trigger] reads[i] == Ok::<
            Message,
            WireError,
        >(msgs[i]) by {
            if i > 0 {
                assert(tail_reads[i - 1] == reads[i]);
            }
        }
    }
}

/// The number in the eight bytes of `s` from position `at` on, low byte first.
pub open spec fn u64_at(s: Seq<u8>, at: int) -> int {
    s[at] + 0x100 * s[at + 1] + 0x1_0000 * s[at + 2] + 0x100_0000 * s[at + 3] + 0x1_0000_0000 * s[at
        + 4] + 0x100_0000_0000 * s[at + 5] + 0x1_0000_0000_0000 * s[at + 6]
        + 0x100_0000_0000_0000 * s[at + 7]
}

/// The number in the four bytes of `s` from position `at` on, low byte first.
pub open spec fn u32_at(s: Seq<u8>, at: int) -> int {
    s[at] + 0x100 * s[at + 1] + 0x1_0000 * s[at + 2] + 0x100_0000 * s[at + 3]
}

proof fn lemma_u64_field(s: Seq<u8>, at: int, value: u64)
    requires
        0 <= at,
        at + 8 <= s.len(),
        s.subrange(at, at + 8) == le_bytes(value as nat, 8),
    ensures
        u64_at(s, at) == value,
{
    lemma_le_limits();
    law_le_value_of_le_bytes(value as nat, 8);
    law_low_byte_comes_first(s.subrange(at, at + 8));
}

proof fn lemma_u32_field(s: Seq<u8>, at: int, value: u32)
    requires
        0 <= at,
        at + 4 <= s.len(),
        s.subrange(at, at + 4) == le_bytes(value as nat, 4),
    ensures
        u32_at(s, at) == value,
{
    lemma_le_limits();
    law_le_value_of_le_bytes(value as nat, 4);
    law_low_byte_comes_first(s.subrange(at, at + 4));
}

/// Each field of a message stands at its place on the wire: the kind in the first byte, then
/// the fields, low byte first, and nothing else.
pub proof fn law_fields_stand_at_their_places(msg: Message)
    ensures
        match msg {
            Message::NewOrder { order_id, side, price, qty } => {
                &&& msg.encoding().len() == 22
                &&& msg.encoding()[0] == 1
                &&& u64_at(msg.encoding(), 1) == order_id
                &&& side is Buy ==> msg.encoding()[9] == 0
                &&& side is Sell ==> msg.encoding()[9] == 1
                &&& u64_at(msg.encoding(), 10) == price
                &&& u32_at(msg.encoding(), 18) == qty
            },
            Message::Cancel { order_id } => {
                &&& msg.encoding().len() == 9
                &&& msg.encoding()[0] == 2
                &&& u64_at(msg.encoding(), 1) == order_id
            },
            Message::Ack { order_id } => {
                &&& msg.encoding().len() == 9
                &&& msg.encoding()[0] == 3
                &&& u64_at(msg.encoding(), 1) == order_id
            },
            Message::Reject { order_id, reason } => {
                &&& msg.encoding().len() == 10
                &&& msg.encoding()[0] == 4
                &&& u64_at(msg.encoding(), 1) == order_id
                &&& msg.encoding()[9] == reason
            },
            Message::Trade { resting_order_id, incoming_order_id, price, qty } => {
                &&& msg.encoding().len() == 29
                &&& msg.encoding()[0] == 5
                &&& u64_at(msg.encoding(), 1) == resting_order_id
                &&& u64_at(msg.encoding(), 9) == incoming_order_id
                &&& u64_at(msg.encoding(), 17) == price
                &&& u32_at(msg.encoding(), 25) == qty
            },
        },
        msg.spec_encoded_len() == msg.encoding().len(),
{
    broadcast use lemma_le_bytes_len;

    let e = msg.encoding();
    match msg {
        Message::NewOrder { order_id, side, price, qty } => {
            assert(e.subrange(1, 9) =~= le_bytes(order_id as nat, 8));
            assert(e.subrange(10, 18) =~= le_bytes(price as nat, 8));
            assert(e.subrange(18, 22) =~= le_bytes(qty as nat, 4));
            lemma_u64_field(e, 1, order_id);
            lemma_u64_field(e, 10, price);
            lemma_u32_field(e, 18, qty);
        },
        Message::Cancel { order_id } => {
            assert(e.subrange(1, 9) =~= le_bytes(order_id as nat, 8));
            lemma_u64_field(e, 1, order_id);
        },
        Message::Ack { order_id } => {
            assert(e.subrange(1, 9) =~= le_bytes(order_id as nat, 8));
            lemma_u64_field(e, 1, order_id);
        },
        Message::Reject { order_id, reason } => {
            assert(e.subrange(1, 9) =~= le_bytes(order_id as nat, 8));
            lemma_u64_field(e, 1, order_id);
        },
        Message::Trade { resting_order_id, incoming_order_id, price, qty } => {
            assert(e.subrange(1, 9) =~= le_bytes(resting_order_id as nat, 8));
            assert(e.subrange(9, 17) =~= le_bytes(incoming_order_id as nat, 8));
            assert(e.subrange(17, 25) =~= le_bytes(price as nat, 8));
            assert(e.subrange(25, 29) =~= le_bytes(qty as nat, 4));
            lemma_u64_field(e, 1, resting_order_id);
            lemma_u64_field(e, 9, incoming_order_id);
            lemma_u64_field(e, 17, price);
            lemma_u32_field(e, 25, qty);
        },
    }
}

/// The numbers in a buffer depend on the bytes that hold them alone.
proof fn lemma_prefix_fields(e: Seq<u8>, s: Seq<u8>)
    requires
        e.is_prefix_of(s),
    ensures
        forall|at: int| 0 <= at && at + 8 <= e.len() ==> u64_at(s, at) == #[trigger] u64_at(e, at),
        forall|at: int| 0 <= at && at + 4 <= e.len() ==> u32_at(s, at) == #[trigger] u32_at(e, at),
        forall|at: int| 0 <= at < e.len() ==> s[at] == #[trigger] e[at],
        e.len() <= s.len(),
{
    assert forall|at: int| 0 <= at < e.len() implies s[at] == #[trigger] e[at] by {
        assert(s.take(e.len() as int)[at] == s[at]);
    }
}

/// What is decoded from a buffer, or read off a stream, is what its bytes hold: the first byte
/// gives the kind, and each field comes from its own place.
pub proof fn law_decoded_fields_come_from_their_places(buf: Seq<u8>, msg: Message)
    requires
        reads_to(buf, Ok(msg)) || exists|n: usize| decodes_to(buf, Ok((msg, n))),
    ensures
        match msg {
            Message::NewOrder { order_id, side, price, qty } => {
                &&& buf.len() >= 22 && buf[0] == 1
                &&& order_id == u64_at(buf, 1)
                &&& side is Buy <==> buf[9] == 0
                &&& side is Sell <==> buf[9] == 1
                &&& price == u64_at(buf, 10)
                &&& qty == u32_at(buf, 18)
                &&& read_len(buf) == 22
            },
            Message::Cancel { order_id } => {
                &&& buf.len() >= 9 && buf[0] == 2
                &&& order_id == u64_at(buf, 1)
                &&& read_len(buf) == 9
            },
            Message::Ack { order_id } => {
                &&& buf.len() >= 9 && buf[0] == 3
                &&& order_id == u64_at(buf, 1)
                &&& read_len(buf) == 9
            },
            Message::Reject { order_id, reason } => {
                &&& buf.len() >= 10 && buf[0] == 4
                &&& order_id == u64_at(buf, 1)
                &&& reason == buf[9]
                &&& read_len(buf) == 10
            },
            Message::Trade { resting_order_id, incoming_order_id, price, qty } => {
                &&& buf.len() >= 29 && buf[0] == 5
                &&& resting_order_id == u64_at(buf, 1)
                &&& incoming_order_id == u64_at(buf, 9)
                &&& price == u64_at(buf, 17)
                &&& qty == u32_at(buf, 25)
                &&& read_len(buf) == 29
            },
        },
{
    law_fields_stand_at_their_places(msg);
    lemma_encoding_has_no_error(msg, buf);
    lemma_prefix_fields(msg.encoding(), buf);
}

/// How many bytes a message with this first byte takes.
pub open spec fn kind_len(first: u8) -> int {
    if first == 1 {
        22
    } else if first == 2 || first == 3 {
        9
    } else if first == 4 {
        10
    } else {
        29
    }
}

/// Which error a buffer, or a stream, gives, for every one there is; and how much of a stream a
/// failed read takes: all of one that ends too early, the first byte where that is no known
/// kind, and the whole order where its side is neither 0 nor 1.
pub proof fn law_when_each_error_comes(buf: Seq<u8>)
    ensures
        decode_error(buf) == Some(WireError::EmptyBuffer) <==> buf.len() == 0,
        decode_error(buf) == Some(WireError::UnknownTag) <==> buf.len() > 0 && !(1 <= buf[0] <= 5),
        decode_error(buf) == Some(WireError::ShortBuffer) <==> buf.len() > 0 && 1 <= buf[0] <= 5
            && buf.len() < kind_len(buf[0]),
        decode_error(buf) == Some(WireError::BadSide) <==> buf.len() >= 22 && buf[0] == 1
            && buf[9] > 1,
        decode_error(buf) != Some(WireError::Truncated),
        read_error(buf) == Some(WireError::Truncated) <==> buf.len() == 0 || (1 <= buf[0] <= 5
            && buf.len() < kind_len(buf[0])),
        read_error(buf) == Some(WireError::UnknownTag) <==> buf.len() > 0 && !(1 <= buf[0] <= 5),
        read_error(buf) == Some(WireError::BadSide) <==> buf.len() >= 22 && buf[0] == 1
            && buf[9] > 1,
        read_error(buf) != Some(WireError::EmptyBuffer),
        read_error(buf) != Some(WireError::ShortBuffer),
        read_error(buf) == Some(WireError::Truncated) ==> read_len(buf) == buf.len(),
        read_error(buf) == Some(WireError::UnknownTag) ==> read_len(buf) == 1,
        read_error(buf) == Some(WireError::BadSide) ==> read_len(buf) == 22,
        buf.len() > 0 ==> (frame_len(buf[0]) is Some <==> 1 <= buf[0] <= 5),
        buf.len() > 0 && 1 <= buf[0] <= 5 ==> frame_len(buf[0])->0 == kind_len(buf[0]),
{
}

/// What decoding and reading come to, for every outcome there is: a message takes as many bytes
/// as its first byte says, all of which are there, and an error comes exactly where its cause is
/// in the bytes.
pub proof fn law_outcome_follows_from_the_bytes(
    buf: Seq<u8>,
    decoded: Result<(Message, usize), WireError>,
    read: Result<Message, WireError>,
)
    requires
        decodes_to(buf, decoded),
        reads_to(buf, read),
    ensures
        decoded is Ok <==> buf.len() > 0 && 1 <= buf[0] <= 5 && buf.len() >= kind_len(buf[0]) && (
        buf[0] == 1 ==> buf[9] <= 1),
        decoded matches Ok((_, n)) ==> n == kind_len(buf[0]) && read_len(buf) == n,
        decoded matches Ok((msg, _)) ==> read == Ok::<Message, WireError>(msg),
        decoded matches Err(e) ==> match e {
            WireError::EmptyBuffer => buf.len() == 0,
            WireError::UnknownTag => buf.len() > 0 && !(1 <= buf[0] <= 5),
            WireError::ShortBuffer => 0 < buf.len() < kind_len(buf[0]) && 1 <= buf[0] <= 5,
            WireError::BadSide => buf.len() >= 22 && buf[0] == 1 && buf[9] > 1,
            WireError::Truncated => false,
        },
        decoded matches Err(e) ==> read == Err::<Message, WireError>(
            if e is EmptyBuffer || e is ShortBuffer {
                WireError::Truncated
            } else {
                e
            },
        ),
{
    law_when_each_error_comes(buf);
    if let Ok((msg, n)) = decoded {
        law_decoded_fields_come_from_their_places(buf, msg);
        law_fields_stand_at_their_places(msg);
        if let Ok(other) = read {
            law_decoded_fields_come_from_their_places(buf, other);
            law_no_two_messages_share_a_prefix(msg, other, buf);
        }
    }
}

proof fn lemma_u64_bytes(s: Seq<u8>, at: int) -> (value: u64)
    requires
        0 <= at,
        at + 8 <= s.len(),
    ensures
        le_bytes(value as nat, 8) == s.subrange(at, at + 8),
{
    let bytes = s.subrange(at, at + 8);
    lemma_le_limits();
    lemma_le_value_bound(bytes);
    law_le_bytes_of_le_value(bytes);
    le_value(bytes) as u64
}

proof fn lemma_u32_bytes(s: Seq<u8>, at: int) -> (value: u32)
    requires
        0 <= at,
        at + 4 <= s.len(),
    ensures
        le_bytes(value as nat, 4) == s.subrange(at, at + 4),
{
    let bytes = s.subrange(at, at + 4);
    lemma_le_limits();
    lemma_le_value_bound(bytes);
    law_le_bytes_of_le_value(bytes);
    le_value(bytes) as u32
}

/// Decoding, and reading, succeed on exactly the bytes that start with the encoding of some
/// message.
pub proof fn law_every_encoding_and_nothing_else_is_decoded(buf: Seq<u8>)
    ensures
        decode_error(buf) is None <==> exists|msg: Message|
            (#[trigger] msg.encoding()).is_prefix_of(buf),
        read_error(buf) is None <==> exists|msg: Message|
            (#[trigger] msg.encoding()).is_prefix_of(buf),
{
    broadcast use lemma_le_bytes_len;

    if exists|msg: Message| (#[trigger] msg.encoding()).is_prefix_of(buf) {
        let msg = choose|msg: Message| (#[trigger] msg.encoding()).is_prefix_of(buf);
        lemma_encoding_has_no_error(msg, buf);
    }
    if decode_error(buf) is None {
        law_when_each_error_comes(buf);
        let first = lemma_u64_bytes(buf, 1);
        let msg = if buf[0] == 1 {
            let price = lemma_u64_bytes(buf, 10);
            let qty = lemma_u32_bytes(buf, 18);
            let side = if buf[9] == 0 {
                Side::Buy
            } else {
                Side::Sell
            };
            Message::NewOrder { order_id: first, side, price, qty }
        } else if buf[0] == 2 {
            Message::Cancel { order_id: first }
        } else if buf[0] == 3 {
            Message::Ack { order_id: first }
        } else if buf[0] == 4 {
            Message::Reject { order_id: first, reason: buf[9] }
        } else {
            let incoming_order_id = lemma_u64_bytes(buf, 9);
            let price = lemma_u64_bytes(buf, 17);
            let qty = lemma_u32_bytes(buf, 25);
            Message::Trade { resting_order_id: first, incoming_order_id, price, qty }
        };
        assert(msg.encoding() =~= buf.take(msg.encoding().len() as int));
    }
}

/// Missing bytes are an unexpected end, and bytes that mean nothing are invalid data. Each
/// error has words of its own.
pub proof fn law_errors_by_kind_and_words(e: WireError)
    ensures
        e.spec_kind() == WireErrorKind::InvalidData <==> e == WireError::UnknownTag || e
            == WireError::BadSide,
        e is EmptyBuffer ==> e.spec_message() == "empty buffer"@,
        e is ShortBuffer ==> e.spec_message() == "short buffer"@,
        e is UnknownTag ==> e.spec_message() == "unknown tag"@,
        e is BadSide ==> e.spec_message() == "bad side byte"@,
        e is Truncated ==> e.spec_message() == "failed to fill whole buffer"@,
{
}

/// A buy is 0 on the wire and a sell is 1.
pub proof fn law_side_bytes(side: Side)
    ensures
        side.byte() == 0 <==> side is Buy,
        side.byte() == 1 <==> side is Sell,
{
}

} // verus!
