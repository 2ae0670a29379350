use vellum::message::{body_len, WireError, WireErrorKind, FRAME_CAPACITY};
use vellum::{read_message, Message, Side};

fn every_kind() -> Vec<Message> {
    vec![
        Message::NewOrder { order_id: 1, side: Side::Sell, price: 999, qty: 5 },
        Message::Cancel { order_id: 1 },
        Message::Ack { order_id: 1 },
        Message::Reject { order_id: 1, reason: 7 },
        Message::Trade { resting_order_id: 1, incoming_order_id: 2, price: 999, qty: 5 },
    ]
}

fn extremes() -> Vec<Message> {
    vec![
        Message::NewOrder { order_id: u64::MAX, side: Side::Buy, price: 0, qty: u32::MAX },
        Message::NewOrder { order_id: 0, side: Side::Sell, price: u64::MAX, qty: 0 },
        Message::Cancel { order_id: u64::MAX },
        Message::Ack { order_id: 0x0102_0304_0506_0708 },
        Message::Reject { order_id: 0, reason: 255 },
        Message::Trade {
            resting_order_id: 0xff00_ff00_ff00_ff00,
            incoming_order_id: 0x00ff_00ff_00ff_00ff,
            price: 1 << 63,
            qty: 1 << 31,
        },
    ]
}

fn bytes_of(msg: &Message) -> Vec<u8> {
    let mut out = Vec::new();
    msg.write_to(&mut out);
    out
}

#[test]
fn round_trip_new_order() {
    let msg = Message::NewOrder {
        order_id: 42,
        side: Side::Buy,
        price: 10_050,
        qty: 100,
    };
    let mut buf = [0u8; 32];
    let n = msg.encode(&mut buf);
    assert_eq!(n, msg.encoded_len());
    let (decoded, consumed) = Message::decode(&buf[..n]).unwrap();
    assert_eq!(consumed, n);
    assert_eq!(decoded, msg);
}

#[test]
fn round_trip_all_variants() {
    let msgs = vec![
        Message::NewOrder { order_id: 1, side: Side::Sell, price: 999, qty: 5 },
        Message::Cancel { order_id: 1 },
        Message::Ack { order_id: 1 },
        Message::Reject { order_id: 1, reason: 7 },
        Message::Trade { resting_order_id: 1, incoming_order_id: 2, price: 999, qty: 5 },
    ];
    for m in msgs {
        let mut buf = [0u8; 32];
        let n = m.encode(&mut buf);
        let (decoded, _) = Message::decode(&buf[..n]).unwrap();
        assert_eq!(decoded, m);
    }
}

#[test]
fn new_order_has_these_bytes() {
    let msg = Message::NewOrder {
        order_id: 0x0807_0605_0403_0201,
        side: Side::Sell,
        price: 0x1817_1615_1413_1211,
        qty: 0x2423_2221,
    };
    assert_eq!(
        bytes_of(&msg),
        vec![
            1, 1, 2, 3, 4, 5, 6, 7, 8, 1, 0x11, 0x12, 0x13, 0x14, 0x15, 0x16, 0x17, 0x18, 0x21,
            0x22, 0x23, 0x24,
        ]
    );
}

#[test]
fn short_messages_have_these_bytes() {
    assert_eq!(bytes_of(&Message::Cancel { order_id: 258 }), vec![2, 2, 1, 0, 0, 0, 0, 0, 0]);
    assert_eq!(bytes_of(&Message::Ack { order_id: 255 }), vec![3, 255, 0, 0, 0, 0, 0, 0, 0]);
    assert_eq!(
        bytes_of(&Message::Reject { order_id: 256, reason: 7 }),
        vec![4, 0, 1, 0, 0, 0, 0, 0, 0, 7]
    );
}

#[test]
fn trade_has_these_bytes() {
    let msg =
        Message::Trade { resting_order_id: 1, incoming_order_id: 2, price: 65_536, qty: 1 << 24 };
    assert_eq!(
        bytes_of(&msg),
        vec![
            5, 1, 0, 0, 0, 0, 0, 0, 0, 2, 0, 0, 0, 0, 0, 0, 0, 0, 0, 1, 0, 0, 0, 0, 0, 0, 0, 0, 1,
        ]
    );
}

#[test]
fn encoding_leaves_the_rest_of_the_buffer_alone() {
    for m in every_kind() {
        let mut buf = [0xaau8; 40];
        let n = m.encode(&mut buf);
        assert_eq!(n, m.encoded_len());
        assert_eq!(&buf[..n], &bytes_of(&m)[..]);
        assert!(buf[n..].iter().all(|b| *b == 0xaa));
    }
}

#[test]
fn a_buffer_of_the_exact_length_is_enough() {
    for m in extremes() {
        let mut buf = vec![0u8; m.encoded_len()];
        assert_eq!(m.encode(&mut buf), buf.len());
        assert_eq!(Message::decode(&buf), Ok((m, buf.len())));
    }
}

#[test]
fn lengths_are_fixed_by_the_kind() {
    let lens: Vec<usize> = every_kind().iter().map(|m| m.encoded_len()).collect();
    assert_eq!(lens, vec![22, 9, 9, 10, 29]);
    assert!(lens.iter().all(|n| *n <= FRAME_CAPACITY));
}

#[test]
fn tag_announces_the_body() {
    for m in every_kind().iter().chain(extremes().iter()) {
        let bytes = bytes_of(m);
        assert_eq!(body_len(bytes[0]), Ok(bytes.len() - 1));
    }
    assert_eq!(body_len(0), Err(WireError::UnknownTag));
    assert_eq!(body_len(6), Err(WireError::UnknownTag));
    assert_eq!(body_len(255), Err(WireError::UnknownTag));
}

#[test]
fn decoding_ignores_what_follows() {
    for m in extremes() {
        let mut bytes = bytes_of(&m);
        bytes.extend_from_slice(&[9, 9, 9]);
        assert_eq!(Message::decode(&bytes), Ok((m, m.encoded_len())));
    }
}

#[test]
fn every_cut_message_is_refused() {
    for m in every_kind() {
        let bytes = bytes_of(&m);
        for k in 0..bytes.len() {
            let expected = if k == 0 { WireError::EmptyBuffer } else { WireError::ShortBuffer };
            assert_eq!(Message::decode(&bytes[..k]), Err(expected));
            assert_eq!(read_message(&mut &bytes[..k]), Err(WireError::Truncated));
        }
    }
}

#[test]
fn unknown_tags_are_refused() {
    assert_eq!(Message::decode(&[0; 32]), Err(WireError::UnknownTag));
    assert_eq!(Message::decode(&[6]), Err(WireError::UnknownTag));
    assert_eq!(Message::decode(&[255, 1, 2]), Err(WireError::UnknownTag));
}

#[test]
fn bad_side_is_refused_once_the_order_is_complete() {
    let mut bytes =
        bytes_of(&Message::NewOrder { order_id: 1, side: Side::Buy, price: 2, qty: 3 });
    bytes[9] = 2;
    assert_eq!(Message::decode(&bytes), Err(WireError::BadSide));
    assert_eq!(Message::decode(&bytes[..21]), Err(WireError::ShortBuffer));
    assert_eq!(read_message(&mut &bytes[..]), Err(WireError::BadSide));
}

#[test]
fn sides_have_a_byte_each() {
    assert_eq!(Side::from_u8(0), Ok(Side::Buy));
    assert_eq!(Side::from_u8(1), Ok(Side::Sell));
    assert_eq!(Side::from_u8(2), Err(WireError::BadSide));
    assert_eq!(Side::Buy.to_u8(), 0);
    assert_eq!(Side::Sell.to_u8(), 1);
}

#[test]
fn decoded_bytes_are_written_again() {
    let bytes = vec![4u8, 9, 8, 7, 6, 5, 4, 3, 2, 1, 77];
    let (msg, n) = Message::decode(&bytes).unwrap();
    assert_eq!(msg, Message::Reject { order_id: 0x0203_0405_0607_0809, reason: 1 });
    assert_eq!(n, 10);
    assert_eq!(bytes_of(&msg), bytes[..n].to_vec());
}

#[test]
fn a_stream_is_read_in_order() {
    let msgs: Vec<Message> = every_kind().into_iter().chain(extremes()).collect();
    let mut out = Vec::new();
    for m in &msgs {
        m.write_to(&mut out);
    }
    out.extend_from_slice(&[3, 1]);
    let mut r = &out[..];
    for m in &msgs {
        assert_eq!(read_message(&mut r), Ok(*m));
    }
    assert_eq!(r, &[3u8, 1][..]);
    assert_eq!(read_message(&mut r), Err(WireError::Truncated));
    assert!(r.is_empty());
}

#[test]
fn reading_takes_only_an_unknown_tag() {
    let bytes = [9u8, 2, 1, 0, 0, 0, 0, 0, 0, 0];
    let mut r = &bytes[..];
    assert_eq!(read_message(&mut r), Err(WireError::UnknownTag));
    assert_eq!(r.len(), 9);
    assert_eq!(read_message(&mut r), Ok(Message::Cancel { order_id: 1 }));
}

#[test]
fn writing_appends() {
    let mut out = vec![8u8];
    Message::Ack { order_id: 1 }.write_to(&mut out);
    assert_eq!(out, vec![8, 3, 1, 0, 0, 0, 0, 0, 0, 0]);
}

#[test]
fn errors_have_a_kind_and_words() {
    let all = [
        (WireError::EmptyBuffer, WireErrorKind::UnexpectedEof, "empty buffer"),
        (WireError::ShortBuffer, WireErrorKind::UnexpectedEof, "short buffer"),
        (WireError::UnknownTag, WireErrorKind::InvalidData, "unknown tag"),
        (WireError::BadSide, WireErrorKind::InvalidData, "bad side byte"),
        (WireError::Truncated, WireErrorKind::UnexpectedEof, "failed to fill whole buffer"),
    ];
    for (e, kind, words) in all {
        assert_eq!(e.kind(), kind);
        assert_eq!(e.message(), words);
    }
}
