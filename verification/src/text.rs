//! Splitting a line into words and reading numbers.
use vstd::prelude::*;

verus! {

/// Whether a character is white space: the characters with the Unicode property `White_Space`.
pub open spec fn is_white(c: char) -> bool {
    ||| '\u{9}' <= c <= '\u{d}'
    ||| c == ' '
    ||| c == '\u{85}'
    ||| c == '\u{a0}'
    ||| c == '\u{1680}'
    ||| '\u{2000}' <= c <= '\u{200a}'
    ||| c == '\u{2028}'
    ||| c == '\u{2029}'
    ||| c == '\u{202f}'
    ||| c == '\u{205f}'
    ||| c == '\u{3000}'
}

/// `char::is_whitespace` of std: whether `c` has the Unicode property `White_Space`.
pub assume_specification[ char::is_whitespace ](c: char) -> (r: bool)
    ensures
        r == is_white(c),
;

/// How many characters `s` starts with before white space or its end.
pub open spec fn word_len(s: Seq<char>) -> nat
    decreases s.len(),
{
    if s.len() == 0 || is_white(s[0]) {
        0
    } else {
        1 + word_len(s.drop_first())
    }
}

/// The words of `s`: its longest runs without white space, in order.
pub open spec fn words_of(s: Seq<char>) -> Seq<Seq<char>>
    decreases s.len(),
{
    if s.len() == 0 {
        Seq::empty()
    } else if is_white(s[0]) {
        words_of(s.drop_first())
    } else {
        let n = 1 + word_len(s.drop_first());
        proof {
            lemma_word_len_bound(s.drop_first());
        }
        seq![s.take(n as int)] + words_of(s.skip(n as int))
    }
}

/// Whether every character of `s` is a decimal digit.
pub open spec fn all_digits(s: Seq<char>) -> bool {
    forall|i: int| 0 <= i < s.len() ==> '0' <= #[trigger] s[i] <= '9'
}

/// The number that decimal digits stand for.
pub open spec fn decimal(s: Seq<char>) -> nat
    decreases s.len(),
{
    if s.len() == 0 {
        0
    } else {
        10 * decimal(s.drop_last()) + (s.last() as nat - '0' as nat) as nat
    }
}

/// The number that `word` stands for, if it is one: digits, at least one, and an optional plus
/// sign before them.
pub open spec fn number_of(word: Seq<char>) -> Option<nat> {
    let digits = if word.len() > 0 && word[0] == '+' {
        word.drop_first()
    } else {
        word
    };
    if digits.len() > 0 && all_digits(digits) {
        Some(decimal(digits))
    } else {
        None
    }
}

/// [`number_of`], as far as the number is at most `max`.
pub open spec fn number_up_to(word: Seq<char>, max: u64) -> Option<u64> {
    match number_of(word) {
        Some(n) => if n <= max {
            Some(n as u64)
        } else {
            None
        },
        None => None,
    }
}

/// A word stays within the text that it starts.
pub proof fn lemma_word_len_bound(s: Seq<char>)
    ensures
        word_len(s) <= s.len(),
    decreases s.len(),
{
    if s.len() > 0 && !is_white(s[0]) {
        lemma_word_len_bound(s.drop_first());
    }
}

/// Of the ASCII characters, the tab, the line breaks and page breaks after it, and the space are
/// white. Beyond ASCII it is the next line, the no-break space and the other spaces and
/// separators of Unicode.
pub proof fn law_which_characters_are_white(c: char)
    ensures
        c as int <= 0x7f ==> (is_white(c) <==> 9 <= c as int <= 13 || c as int == 32),
        c as int > 0x7f ==> (is_white(c) <==> {
            ||| c as int == 0x85
            ||| c as int == 0xa0
            ||| c as int == 0x1680
            ||| 0x2000 <= c as int <= 0x200a
            ||| 0x2028 <= c as int <= 0x2029
            ||| c as int == 0x202f
            ||| c as int == 0x205f
            ||| c as int == 0x3000
        }),
{
}

/// Every word has a character, and none of its characters is white space.
pub proof fn law_words_are_solid(s: Seq<char>, i: int)
    requires
        0 <= i < words_of(s).len(),
    ensures
        words_of(s)[i].len() > 0,
        forall|k: int| 0 <= k < words_of(s)[i].len() ==> !is_white(#[trigger] words_of(s)[i][k]),
    decreases s.len(),
{
    if is_white(s[0]) {
        law_words_are_solid(s.drop_first(), i);
    } else {
        lemma_word_is_solid(s);
        lemma_word_len_bound(s);
        if i > 0 {
            let n = word_len(s) as int;
            law_words_are_solid(s.skip(n), i - 1);
            assert(words_of(s)[i] == words_of(s.skip(n))[i - 1]);
        }
    }
}

proof fn lemma_word_is_solid(s: Seq<char>)
    ensures
        word_len(s) <= s.len(),
        forall|k: int| 0 <= k < word_len(s) ==> !is_white(#[trigger] s[k]),
    decreases s.len(),
{
    if s.len() > 0 && !is_white(s[0]) {
        let rest = s.drop_first();
        lemma_word_is_solid(rest);
        assert forall|k: int| 0 <= k < word_len(s) implies !is_white(#[trigger] s[k]) by {
            if k > 0 {
                assert(rest[k - 1] == s[k]);
            }
        }
    }
}

/// White space before or after a line makes no difference to its words.
pub proof fn law_space_around_is_ignored(s: Seq<char>, c: char)
    requires
        is_white(c),
    ensures
        words_of(seq![c] + s) == words_of(s),
        words_of(s.push(c)) == words_of(s),
    decreases s.len(),
{
    assert((seq![c] + s).drop_first() =~= s);
    let t = s.push(c);
    if s.len() == 0 {
        assert(t.drop_first() =~= s);
    } else {
        let rest = s.drop_first();
        assert(t.drop_first() =~= rest.push(c));
        if is_white(s[0]) {
            law_space_around_is_ignored(rest, c);
        } else {
            lemma_word_len_bound(rest);
            lemma_word_len_push(rest, c);
            let n = 1 + word_len(rest) as int;
            law_space_around_is_ignored(s.skip(n), c);
            assert(t.take(n) =~= s.take(n));
            assert(t.skip(n) =~= s.skip(n).push(c));
        }
    }
}

proof fn lemma_word_len_push(s: Seq<char>, c: char)
    requires
        is_white(c),
    ensures
        word_len(s.push(c)) == word_len(s),
    decreases s.len(),
{
    if s.len() > 0 {
        assert(s.push(c).drop_first() =~= s.drop_first().push(c));
        lemma_word_len_push(s.drop_first(), c);
    }
}

/// The characters of `s`.
fn chars_of(s: &str) -> (chars: Vec<char>)
    ensures
        chars@ == s@,
{
    let mut chars: Vec<char> = Vec::new();
    for c in iter: s.chars()
        invariant
            iter.seq() == s@,
            chars@ == s@.take(iter.index() as int),
    {
        chars.push(c);
    }
    chars
}

/// What a list of words holds.
pub open spec fn word_views(words: Seq<Vec<char>>) -> Seq<Seq<char>> {
    words.map_values(|w: Vec<char>| w@)
}

/// Splits a line into its words.
pub fn split_words(line: &str) -> (words: Vec<Vec<char>>)
    ensures
        word_views(words@) == words_of(line@),
{
    let chars = chars_of(line);
    let n: usize = chars.len();
    let mut words: Vec<Vec<char>> = Vec::new();
    let mut i: usize = 0;
    assert(chars@.skip(0) =~= chars@);
    assert(word_views(words@) =~= Seq::empty());
    while i < n
        invariant
            i <= n,
            n == chars@.len(),
            word_views(words@) + words_of(chars@.skip(i as int)) == words_of(chars@),
        decreases n - i,
    {
        let ghost here = chars@.skip(i as int);
        assert(here.drop_first() =~= chars@.skip(i + 1));
        if chars[i].is_whitespace() {
            i = i + 1;
        } else {
            let start: usize = i;
            let mut word: Vec<char> = Vec::new();
            word.push(chars[i]);
            i = i + 1;
            assert(word@ =~= chars@.subrange(start as int, i as int));
            while i < n && !chars[i].is_whitespace()
                invariant
                    start < i <= n,
                    n == chars@.len(),
                    word@ == chars@.subrange(start as int, i as int),
                    word_len(chars@.skip(start + 1)) == i - start - 1 + word_len(
                        chars@.skip(i as int),
                    ),
                ensures
                    i == n || is_white(chars@[i as int]),
                decreases n - i,
            {
                word.push(chars[i]);
                assert(chars@.skip(i as int).drop_first() =~= chars@.skip(i + 1));
                i = i + 1;
                assert(word@ =~= chars@.subrange(start as int, i as int));
            }
            proof {
                let len = 1 + word_len(here.drop_first());
                assert(len == i - start);
                assert(here.take(len as int) =~= word@);
                assert(here.skip(len as int) =~= chars@.skip(i as int));
                let rest = words_of(chars@.skip(i as int));
                assert(words_of(here) == seq![word@] + rest);
                let done = word_views(words@);
                assert(word_views(words@.push(word)) =~= done.push(word@));
                assert(done.push(word@) + rest =~= done + (seq![word@] + rest));
            }
            words.push(word);
        }
    }
    assert(words_of(chars@.skip(i as int)) =~= Seq::empty());
    assert(word_views(words@) + words_of(chars@.skip(i as int)) =~= word_views(words@));
    words
}

/// Whether `word` is `text`.
pub fn word_is(word: &Vec<char>, text: &str) -> (b: bool)
    ensures
        b == (word@ == text@),
{
    let chars = chars_of(text);
    if word.len() != chars.len() {
        return false;
    }
    let mut i: usize = 0;
    while i < chars.len()
        invariant
            i <= chars@.len(),
            word@.len() == chars@.len(),
            chars@ == text@,
            word@.take(i as int) == chars@.take(i as int),
        decreases chars@.len() - i,
    {
        if word[i] != chars[i] {
            return false;
        }
        i = i + 1;
        assert(word@.take(i as int) =~= word@.take(i - 1).push(word@[i - 1]));
        assert(chars@.take(i as int) =~= chars@.take(i - 1).push(chars@[i - 1]));
    }
    assert(word@ =~= word@.take(i as int));
    assert(chars@ =~= chars@.take(i as int));
    true
}

/// More digits never make a number smaller.
proof fn lemma_decimal_grows(s: Seq<char>, k: int)
    requires
        0 <= k <= s.len(),
    ensures
        decimal(s.take(k)) <= decimal(s),
    decreases s.len(),
{
    if k < s.len() {
        lemma_decimal_grows(s.drop_last(), k);
        assert(s.drop_last().take(k) =~= s.take(k));
    } else {
        assert(s.take(k) =~= s);
    }
}

/// The number that `word` stands for, if it is one and at most `max`.
pub fn parse_number(word: &Vec<char>, max: u64) -> (r: Option<u64>)
    ensures
        r == number_up_to(word@, max),
{
    let n: usize = word.len();
    let start: usize = if n > 0 && word[0] == '+' {
        1
    } else {
        0
    };
    if start == n {
        return None;
    }
    let ghost digits = word@.skip(start as int);
    assert(digits =~= if word@[0] == '+' {
        word@.drop_first()
    } else {
        word@
    });
    let mut value: u64 = 0;
    let mut i: usize = start;
    while i < n
        invariant
            start <= i <= n,
            n == word@.len(),
            digits == word@.skip(start as int),
            digits.len() > 0,
            number_of(word@) == if all_digits(digits) {
                Some(decimal(digits))
            } else {
                None
            },
            all_digits(digits.take(i - start)),
            value == decimal(digits.take(i - start)),
            value <= max,
        decreases n - i,
    {
        let c = word[i];
        assert(digits[i - start] == c);
        if c < '0' || c > '9' {
            return None;
        }
        let digit: u64 = c as u64 - '0' as u64;
        proof {
            let seen = digits.take(i - start);
            let longer = digits.take(i - start + 1);
            assert(longer.drop_last() =~= seen);
            assert(longer.last() == c);
            assert(decimal(longer) == 10 * value + digit);
            lemma_decimal_grows(digits, i - start + 1);
            assert(all_digits(longer));
        }
        if digit > max || value > (max - digit) / 10 {
            return None;
        }
        value = value * 10 + digit;
        i = i + 1;
    }
    assert(digits.take(i - start) =~= digits);
    Some(value)
}

} // verus!
