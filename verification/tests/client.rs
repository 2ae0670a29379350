use vellum::client::{parse_line, parse_words, Client, Line};
use vellum::session::to_command;
use vellum::engine::Command;
use vellum::text::{parse_number, split_words, word_is};
use vellum::{Message, Side};

fn chars(s: &str) -> Vec<char> {
    s.chars().collect()
}

#[test]
fn orders_are_understood() {
    assert_eq!(parse_line("buy 100 10"), Line::Order { side: Side::Buy, price: 100, qty: 10 });
    assert_eq!(parse_line("sell 105 5"), Line::Order { side: Side::Sell, price: 105, qty: 5 });
    assert_eq!(
        parse_line("buy 18446744073709551615 4294967295"),
        Line::Order { side: Side::Buy, price: u64::MAX, qty: u32::MAX }
    );
}

#[test]
fn space_around_words_does_not_matter() {
    assert_eq!(
        parse_line("  \tsell\u{a0}105 \u{2003} 5 \r\n"),
        Line::Order { side: Side::Sell, price: 105, qty: 5 }
    );
}

#[test]
fn cancel_and_quit_are_understood() {
    assert_eq!(parse_line("cancel 7"), Line::Cancel { server_order_id: 7 });
    assert_eq!(parse_line("quit"), Line::Quit);
    assert_eq!(parse_line("quit now please"), Line::Quit);
}

#[test]
fn a_line_without_words_is_blank() {
    assert_eq!(parse_line(""), Line::Blank);
    assert_eq!(parse_line(" \t "), Line::Blank);
}

#[test]
fn bad_numbers_are_named() {
    assert_eq!(parse_line("buy x 10"), Line::BadPrice);
    assert_eq!(parse_line("buy x y"), Line::BadPrice);
    assert_eq!(parse_line("buy -1 10"), Line::BadPrice);
    assert_eq!(parse_line("buy 18446744073709551616 1"), Line::BadPrice);
    assert_eq!(parse_line("sell 1 y"), Line::BadQty);
    assert_eq!(parse_line("sell 1 4294967296"), Line::BadQty);
    assert_eq!(parse_line("cancel x"), Line::BadOrderId);
    assert_eq!(parse_line("cancel 18446744073709551616"), Line::BadOrderId);
}

#[test]
fn other_lines_are_unrecognized() {
    assert_eq!(parse_line("buy 1"), Line::Unrecognized);
    assert_eq!(parse_line("buy 1 2 3"), Line::Unrecognized);
    assert_eq!(parse_line("cancel"), Line::Unrecognized);
    assert_eq!(parse_line("cancel 1 2"), Line::Unrecognized);
    assert_eq!(parse_line("BUY 1 2"), Line::Unrecognized);
    assert_eq!(parse_line("buyer 1 2"), Line::Unrecognized);
    assert_eq!(parse_line("hold"), Line::Unrecognized);
}

#[test]
fn words_alone_decide() {
    assert_eq!(parse_words(&vec![]), Line::Blank);
    assert_eq!(
        parse_words(&vec![chars("cancel"), chars("+12")]),
        Line::Cancel { server_order_id: 12 }
    );
}

#[test]
fn lines_split_as_std_splits_them() {
    for line in [
        "",
        " ",
        "one",
        " one  two\tthree\n",
        "a\u{85}b\u{2028}c\u{3000}d",
        "\u{200b}zero width is no space",
        "vt\u{b}ff\u{c}end",
    ] {
        let expected: Vec<Vec<char>> =
            line.trim().split_whitespace().map(|w| w.chars().collect()).collect();
        assert_eq!(split_words(line), expected);
    }
}

#[test]
fn white_space_is_what_unicode_lists() {
    let listed = |c: char| {
        matches!(
            c,
            '\u{9}'..='\u{d}'
                | '\u{20}'
                | '\u{85}'
                | '\u{a0}'
                | '\u{1680}'
                | '\u{2000}'..='\u{200a}'
                | '\u{2028}'
                | '\u{2029}'
                | '\u{202f}'
                | '\u{205f}'
                | '\u{3000}'
        )
    };
    for c in '\0'..=char::MAX {
        assert_eq!(split_words(&c.to_string()).is_empty(), listed(c));
    }
}

#[test]
fn numbers_read_as_std_reads_them() {
    for word in [
        "", "+", "-", "0", "+0", "-0", "00017", "1_0", "12a", "a12", "++1", "+-1", "9", "10",
        "4294967295", "4294967296", "18446744073709551615", "18446744073709551616",
        "99999999999999999999999999", "1 ", "\u{661}",
    ] {
        assert_eq!(parse_number(&chars(word), u64::MAX), word.parse::<u64>().ok());
        assert_eq!(
            parse_number(&chars(word), u32::MAX as u64),
            word.parse::<u32>().ok().map(|n| n as u64)
        );
    }
    assert_eq!(parse_number(&chars("5"), 4), None);
    assert_eq!(parse_number(&chars("4"), 4), Some(4));
}

#[test]
fn words_are_compared_whole() {
    assert!(word_is(&chars("buy"), "buy"));
    assert!(!word_is(&chars("bu"), "buy"));
    assert!(!word_is(&chars("buyx"), "buy"));
    assert!(!word_is(&chars("bay"), "buy"));
}

#[test]
fn a_client_numbers_its_orders() {
    let mut client = Client::new();
    let order = Line::Order { side: Side::Buy, price: 100, qty: 10 };
    let numbered =
        |order_id: u64| Some(Message::NewOrder { order_id, side: Side::Buy, price: 100, qty: 10 });
    assert_eq!(client.to_message(order), numbered(1));
    assert_eq!(
        client.to_message(Line::Cancel { server_order_id: 9 }),
        Some(Message::Cancel { order_id: 9 })
    );
    for line in [
        Line::Blank,
        Line::BadPrice,
        Line::BadQty,
        Line::BadOrderId,
        Line::Quit,
        Line::Unrecognized,
    ] {
        assert_eq!(client.to_message(line), None);
    }
    assert_eq!(client.to_message(order), numbered(2));
}

#[test]
fn typed_requests_reach_the_server_as_typed() {
    let mut client = Client::new();
    let sent = client.to_message(parse_line("sell 105 5")).unwrap();
    let mut bytes = Vec::new();
    sent.write_to(&mut bytes);
    let received = vellum::read_message(&mut &bytes[..]).unwrap();
    assert_eq!(
        to_command(received),
        Some(Command::NewOrder { client_order_id: 1, side: Side::Sell, price: 105, qty: 5 })
    );
}
