//! What holds of the lines that a client's user types.
use vstd::prelude::*;

use crate::client::{line_of, Line};
use crate::message::Side;
use crate::text::{
    all_digits, decimal, is_white, number_of, number_up_to, word_len, word_views, words_of,
};

verus! {

/// Whether `w` is a word: characters, at least one, and none of them white space.
pub open spec fn solid(w: Seq<char>) -> bool {
    &&& w.len() > 0
    &&& forall|i: int| 0 <= i < w.len() ==> !is_white(#[trigger] w[i])
}

/// The decimal digits of `n`, without leading zeros.
pub open spec fn digits_of(n: nat) -> Seq<char>
    decreases n,
{
    if n < 10 {
        seq![(48 + n) as char]
    } else {
        digits_of(n / 10).push((48 + n % 10) as char)
    }
}

/// The word that submits an order on this side.
pub open spec fn side_word(side: Side) -> Seq<char> {
    match side {
        Side::Buy => "buy"@,
        Side::Sell => "sell"@,
    }
}

proof fn lemma_word_len_solid(w: Seq<char>, rest: Seq<char>)
    requires
        forall|i: int| 0 <= i < w.len() ==> !is_white(#[trigger] w[i]),
        rest.len() == 0 || is_white(rest[0]),
    ensures
        word_len(w + rest) == w.len(),
    decreases w.len(),
{
    if w.len() == 0 {
        assert(w + rest =~= rest);
    } else {
        assert((w + rest).drop_first() =~= w.drop_first() + rest);
        assert forall|i: int| 0 <= i < w.drop_first().len() implies !is_white(
            #[trigger] w.drop_first()[i],
        ) by {
            assert(w.drop_first()[i] == w[i + 1]);
        }
        lemma_word_len_solid(w.drop_first(), rest);
    }
}

proof fn lemma_word_comes_first(w: Seq<char>, rest: Seq<char>)
    requires
        solid(w),
        rest.len() == 0 || is_white(rest[0]),
    ensures
        words_of(w + rest) == seq![w] + words_of(rest),
{
    let s = w + rest;
    assert(!is_white(w[0]));
    assert(s[0] == w[0]);
    lemma_word_len_solid(w, rest);
    let n = 1 + word_len(s.drop_first());
    assert(n == w.len());
    assert(s.take(n as int) =~= w);
    assert(s.skip(n as int) =~= rest);
}

/// White space ends a word, and a word that nothing follows is the only one.
pub proof fn law_space_ends_a_word(w: Seq<char>, c: char, s: Seq<char>)
    requires
        solid(w),
        is_white(c),
    ensures
        words_of(w) == seq![w],
        words_of(w + seq![c] + s) == seq![w] + words_of(s),
{
    let rest = seq![c] + s;
    lemma_word_comes_first(w, rest);
    assert(w + seq![c] + s =~= w + rest);
    assert(rest.drop_first() =~= s);
    lemma_word_comes_first(w, Seq::empty());
    assert(w + Seq::<char>::empty() =~= w);
    assert(seq![w] + words_of(Seq::empty()) =~= seq![w]);
}

/// A number is read back from its decimal digits, which are a word.
pub proof fn law_number_is_read_back(n: nat)
    ensures
        number_of(digits_of(n)) == Some(n),
        solid(digits_of(n)),
{
    lemma_digits(n);
    let d = digits_of(n);
    assert('0' <= d[0] <= '9');
    assert forall|i: int| 0 <= i < d.len() implies !is_white(#[trigger] d[i]) by {
        assert('0' <= d[i] <= '9');
    }
}

proof fn lemma_digits(n: nat)
    ensures
        digits_of(n).len() > 0,
        all_digits(digits_of(n)),
        decimal(digits_of(n)) == n,
    decreases n,
{
    reveal_with_fuel(decimal, 2);
    let d = digits_of(n);
    if n < 10 {
        assert(d.drop_last() =~= Seq::empty());
    } else {
        lemma_digits(n / 10);
        assert(d.drop_last() =~= digits_of(n / 10));
    }
}

/// `buy <price> <qty>` and `sell <price> <qty>` submit that order.
pub proof fn law_typed_order_is_that_order(side: Side, price: u64, qty: u32)
    ensures
        line_of(
            words_of(
                side_word(side) + seq![' '] + (digits_of(price as nat) + seq![' '] + digits_of(
                    qty as nat,
                )),
            ),
        ) == (Line::Order { side, price, qty }),
{
    reveal_strlit("buy");
    reveal_strlit("sell");
    let w = side_word(side);
    let p = digits_of(price as nat);
    let q = digits_of(qty as nat);
    assert(solid(w));
    law_number_is_read_back(price as nat);
    law_number_is_read_back(qty as nat);
    law_space_ends_a_word(w, ' ', p + seq![' '] + q);
    law_space_ends_a_word(p, ' ', q);
    law_space_ends_a_word(q, ' ', Seq::empty());
    let words = words_of(w + seq![' '] + (p + seq![' '] + q));
    assert(words =~= seq![w, p, q]);
    assert("buy"@.len() != "sell"@.len());
}

/// `cancel <server_order_id>` cancels that order.
pub proof fn law_typed_cancellation_is_that_cancellation(server_order_id: u64)
    ensures
        line_of(words_of("cancel"@ + seq![' '] + digits_of(server_order_id as nat))) == (
        Line::Cancel { server_order_id }),
{
    reveal_strlit("buy");
    reveal_strlit("sell");
    reveal_strlit("cancel");
    let w = "cancel"@;
    let d = digits_of(server_order_id as nat);
    assert(solid(w));
    law_number_is_read_back(server_order_id as nat);
    law_space_ends_a_word(w, ' ', d);
    law_space_ends_a_word(d, ' ', Seq::empty());
    assert(words_of(w + seq![' '] + d) =~= seq![w, d]);
}

/// A line of nothing but white space is blank.
pub proof fn law_space_alone_is_blank(s: Seq<char>)
    requires
        forall|i: int| 0 <= i < s.len() ==> is_white(#[trigger] s[i]),
    ensures
        line_of(words_of(s)) == Line::Blank,
    decreases s.len(),
{
    if s.len() > 0 {
        let rest = s.drop_first();
        assert(is_white(s[0]));
        assert forall|i: int| 0 <= i < rest.len() implies is_white(#[trigger] rest[i]) by {
            assert(rest[i] == s[i + 1]);
        }
        law_space_alone_is_blank(rest);
    }
}

/// A line whose first word is `quit` ends the session, whatever follows.
pub proof fn law_quit_ends_the_session(c: char, rest: Seq<char>)
    requires
        is_white(c),
    ensures
        line_of(words_of("quit"@)) == Line::Quit,
        line_of(words_of("quit"@ + seq![c] + rest)) == Line::Quit,
{
    reveal_strlit("buy");
    reveal_strlit("sell");
    reveal_strlit("cancel");
    reveal_strlit("quit");
    assert(solid("quit"@));
    law_space_ends_a_word("quit"@, c, rest);
    assert("quit"@[0] != "sell"@[0]);
}

/// What is read as a number: decimal digits, at least one, after a plus sign or without one.
pub proof fn law_which_words_are_numbers(word: Seq<char>)
    ensures
        number_of(word) is Some <==> {
            ||| word.len() > 0 && forall|i: int|
                0 <= i < word.len() ==> '0' <= #[trigger] word[i] <= '9'
            ||| word.len() > 1 && word[0] == '+' && forall|i: int|
                1 <= i < word.len() ==> '0' <= #[trigger] word[i] <= '9'
        },
{
    if word.len() > 0 && word[0] == '+' {
        let digits = word.drop_first();
        if all_digits(digits) {
            assert forall|i: int| 1 <= i < word.len() implies '0' <= #[trigger] word[i] <= '9' by {
                assert(digits[i - 1] == word[i]);
            }
        }
        assert(!('0' <= word[0] <= '9'));
    }
}

/// A digit alone stands for itself, one more digit makes a number ten times as large and adds
/// its own value, and a plus sign before the digits changes nothing.
pub proof fn law_numbers_are_read_digit_by_digit(word: Seq<char>, digit: char)
    requires
        '0' <= digit <= '9',
    ensures
        number_of(seq![digit]) == Some((digit as int - 48) as nat),
        number_of(word) matches Some(n) ==> number_of(word.push(digit)) == Some(
            (10 * n + (digit as int - 48)) as nat,
        ),
        number_of(word) is Some && word[0] != '+' ==> number_of(seq!['+'] + word) == number_of(
            word,
        ),
{
    reveal_with_fuel(decimal, 2);
    assert(seq![digit].drop_last() =~= Seq::empty());
    if number_of(word) is Some {
        let longer = word.push(digit);
        assert(longer[0] == word[0]);
        assert(longer.drop_last() =~= word);
        if word[0] == '+' {
            assert(longer.drop_first() =~= word.drop_first().push(digit));
            assert(longer.drop_first().drop_last() =~= word.drop_first());
        } else {
            assert((seq!['+'] + word).drop_first() =~= word);
        }
    }
}

/// A number within the limit is read as it is, and one beyond it as none.
pub proof fn law_numbers_are_read_up_to_the_limit(word: Seq<char>, max: u64, n: u64)
    ensures
        number_up_to(word, max) == Some(n) <==> number_of(word) == Some(n as nat) && n <= max,
        number_up_to(word, max) is None <==> number_of(word) is None || number_of(word)->0 > max,
{
}

/// The views of a list of words are those of the words, one for one.
pub proof fn law_words_are_seen_one_for_one(words: Seq<Vec<char>>)
    ensures
        word_views(words).len() == words.len(),
        forall|i: int| 0 <= i < words.len() ==> #[trigger] word_views(words)[i] == words[i]@,
{
}

/// Whether the words of a line are those of an order, on either side.
pub open spec fn asks_for_order(words: Seq<Seq<char>>) -> bool {
    words.len() == 3 && (words[0] == side_word(Side::Buy) || words[0] == side_word(Side::Sell))
}

/// Whether the words of a line are those of a cancellation.
pub open spec fn asks_for_cancellation(words: Seq<Seq<char>>) -> bool {
    words.len() == 2 && words[0] == "cancel"@
}

/// Whether `word` is a number that is at most `max`.
pub open spec fn fits(word: Seq<char>, max: int) -> bool {
    number_of(word) matches Some(n) && n <= max
}

/// What each line means, for every line there is. An order is the word for its side and two
/// numbers that fit, a cancellation is `cancel` and one number that fits; what does not fit is
/// pointed out, the price before the quantity; nothing is blank; `quit` ends the session
/// whatever follows; and nothing else is recognized.
pub proof fn law_what_a_line_means(
    words: Seq<Seq<char>>,
    side: Side,
    price: u64,
    qty: u32,
    server_order_id: u64,
)
    ensures
        line_of(words) == (Line::Order { side, price, qty }) <==> {
            &&& words.len() == 3
            &&& words[0] == side_word(side)
            &&& number_of(words[1]) == Some(price as nat)
            &&& number_of(words[2]) == Some(qty as nat)
        },
        line_of(words) == (Line::Cancel { server_order_id }) <==> {
            &&& asks_for_cancellation(words)
            &&& number_of(words[1]) == Some(server_order_id as nat)
        },
        line_of(words) is Blank <==> words.len() == 0,
        line_of(words) is BadPrice <==> asks_for_order(words) && !fits(
            words[1],
            0xffff_ffff_ffff_ffff,
        ),
        line_of(words) is BadQty <==> asks_for_order(words) && fits(
            words[1],
            0xffff_ffff_ffff_ffff,
        ) && !fits(words[2], 0xffff_ffff),
        line_of(words) is BadOrderId <==> asks_for_cancellation(words) && !fits(
            words[1],
            0xffff_ffff_ffff_ffff,
        ),
        line_of(words) is Quit <==> words.len() > 0 && words[0] == "quit"@,
        line_of(words) is Unrecognized <==> {
            &&& words.len() > 0
            &&& !asks_for_order(words)
            &&& !asks_for_cancellation(words)
            &&& words[0] != "quit"@
        },
{
    reveal_strlit("buy");
    reveal_strlit("sell");
    reveal_strlit("cancel");
    reveal_strlit("quit");
    assert("buy"@.len() == 3 && "sell"@.len() == 4 && "quit"@.len() == 4);
    assert("sell"@[0] != "quit"@[0]);
    assert("cancel"@.len() == 6);
}

} // verus!
