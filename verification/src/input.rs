//! Reading a move from a line of text.
//!
//! A move is written as two numbers with white space between them: first the
//! column, then the row, both counted from one.

use vstd::prelude::*;

verus! {

/// Why a line of text names no move.
#[derive(Clone, Copy, Debug, PartialEq, Eq, Structural)]
pub enum InputError {
    /// The line does not consist of exactly two numbers.
    Malformed,
    /// One of the two numbers is not 1, 2 or 3.
    OutOfRange,
}

/// Whether `c` is white space: one of the characters that Unicode gives the
/// property `White_Space`.
pub open spec fn is_space(c: char) -> bool {
    let code = c as u32;
    ||| 0x09 <= code <= 0x0D
    ||| code == 0x20
    ||| code == 0x85
    ||| code == 0xA0
    ||| code == 0x1680
    ||| 0x2000 <= code <= 0x200A
    ||| code == 0x2028
    ||| code == 0x2029
    ||| code == 0x202F
    ||| code == 0x205F
    ||| code == 0x3000
}

/// Whether `c` is one of the digits `0` to `9`.
pub open spec fn is_digit(c: char) -> bool {
    '0' as u32 <= c as u32 <= '9' as u32
}

/// The value of the digit `c`, and zero for any other character.
pub open spec fn digit_value(c: char) -> nat {
    if is_digit(c) {
        (c as u32 - '0' as u32) as nat
    } else {
        0
    }
}

/// The number that a sequence of digits denotes in base ten.
pub open spec fn digits_value(digits: Seq<char>) -> nat
    decreases digits.len(),
{
    if digits.len() == 0 {
        0
    } else {
        10 * digits_value(digits.drop_last()) + digit_value(digits.last())
    }
}

/// Whether `text` holds digits only.
pub open spec fn all_digits(text: Seq<char>) -> bool {
    forall|i: int| 0 <= i < text.len() ==> is_digit(#[trigger] text[i])
}

/// The word without the plus sign that may stand at its start.
pub open spec fn unsigned(word: Seq<char>) -> Seq<char> {
    if word.len() > 0 && word[0] == '+' {
        word.drop_first()
    } else {
        word
    }
}

/// The number that `word` denotes: one or more digits, with or without a
/// plus sign before them, whose value fits a `usize`. Any other word denotes
/// no number.
pub open spec fn number(word: Seq<char>) -> Option<nat> {
    let digits = unsigned(word);
    if digits.len() > 0 && all_digits(digits) && digits_value(digits) <= usize::MAX {
        Some(digits_value(digits))
    } else {
        None
    }
}

/// How many characters stand before the first white space of `text`.
pub open spec fn word_len(text: Seq<char>) -> nat
    decreases text.len(),
{
    if text.len() == 0 || is_space(text[0]) {
        0
    } else {
        1 + word_len(text.drop_first())
    }
}

/// The words of `text`: its longest stretches without white space, in order.
pub open spec fn words(text: Seq<char>) -> Seq<Seq<char>>
    decreases text.len(),
    via words_decreases
{
    if text.len() == 0 {
        Seq::empty()
    } else if is_space(text[0]) {
        words(text.drop_first())
    } else {
        seq![text.take(word_len(text) as int)] + words(text.skip(word_len(text) as int))
    }
}

/// The first word is not empty, so less text is left after it.
#[via_fn]
proof fn words_decreases(text: Seq<char>) {
    if text.len() > 0 && !is_space(text[0]) {
        lemma_word_len_bounds(text);
    }
}

/// The move that a line of text names, as row and column counted from zero,
/// or the reason why it names none.
pub open spec fn move_of(text: Seq<char>) -> Result<(int, int), InputError> {
    let found = words(text);
    if found.len() != 2 {
        Err(InputError::Malformed)
    } else {
        match (number(found[0]), number(found[1])) {
            (Some(col), Some(row)) => if 1 <= col <= 3 && 1 <= row <= 3 {
                Ok((row - 1, col - 1))
            } else {
                Err(InputError::OutOfRange)
            },
            _ => Err(InputError::Malformed),
        }
    }
}

/// A word is no longer than the text it starts, and not empty where the
/// text starts with something other than white space.
pub proof fn lemma_word_len_bounds(text: Seq<char>)
    ensures
        word_len(text) <= text.len(),
        text.len() > 0 && !is_space(text[0]) ==> word_len(text) >= 1,
    decreases text.len(),
{
    if text.len() > 0 && !is_space(text[0]) {
        lemma_word_len_bounds(text.drop_first());
    }
}

/// Over a stretch without white space the word goes on: its length from
/// `start` is the length of the stretch plus its length from `end`.
proof fn lemma_word_len_stretch(text: Seq<char>, start: int, end: int)
    requires
        0 <= start <= end <= text.len(),
        forall|i: int| start <= i < end ==> !is_space(#[trigger] text[i]),
    ensures
        word_len(text.skip(start)) == (end - start) + word_len(text.skip(end)),
    decreases end - start,
{
    if start < end {
        assert(text.skip(start)[0] == text[start]);
        assert(text.skip(start).drop_first() =~= text.skip(start + 1));
        lemma_word_len_stretch(text, start + 1, end);
    }
}

/// White space before a word belongs to no word.
proof fn lemma_words_after_space(text: Seq<char>, at: int)
    requires
        0 <= at < text.len(),
        is_space(text[at]),
    ensures
        words(text.skip(at)) == words(text.skip(at + 1)),
{
    assert(text.skip(at)[0] == text[at]);
    assert(text.skip(at).drop_first() =~= text.skip(at + 1));
}

/// A stretch without white space that ends at white space, or at the end of
/// the text, is the first word from where it starts.
proof fn lemma_words_at_word(text: Seq<char>, start: int, end: int)
    requires
        0 <= start < end <= text.len(),
        forall|i: int| start <= i < end ==> !is_space(#[trigger] text[i]),
        end < text.len() ==> is_space(text[end]),
    ensures
        words(text.skip(start)) == seq![text.subrange(start, end)] + words(text.skip(end)),
{
    lemma_word_len_stretch(text, start, end);
    let rest = text.skip(start);
    assert(rest[0] == text[start]);
    if end < text.len() {
        assert(text.skip(end)[0] == text[end]);
    }
    assert(word_len(rest) == end - start);
    assert(rest.take(end - start) =~= text.subrange(start, end));
    assert(rest.skip(end - start) =~= text.skip(end));
}

/// A longer sequence of digits denotes no smaller number.
proof fn lemma_digits_value_grows(digits: Seq<char>, len: int)
    requires
        0 <= len <= digits.len(),
    ensures
        digits_value(digits.take(len)) <= digits_value(digits),
    decreases digits.len(),
{
    if len < digits.len() {
        lemma_digits_value_grows(digits.drop_last(), len);
        assert(digits.drop_last().take(len) =~= digits.take(len));
    } else {
        assert(digits.take(len) =~= digits);
    }
}

/// Whether `c` is white space.
fn is_whitespace(c: char) -> (space: bool)
    ensures
        space == is_space(c),
{
    let code = c as u32;
    (0x09 <= code && code <= 0x0D) || code == 0x20 || code == 0x85 || code == 0xA0
        || code == 0x1680 || (0x2000 <= code && code <= 0x200A) || code == 0x2028
        || code == 0x2029 || code == 0x202F || code == 0x205F || code == 0x3000
}

/// The characters of a line.
fn chars_of(line: &str) -> (chars: Vec<char>)
    ensures
        chars@ == line@,
{
    let mut chars: Vec<char> = Vec::new();
    for c in iter: line.chars()
        invariant
            chars@ == iter.seq().take(iter.index() as int),
            iter.seq() == line@,
    {
        chars.push(c);
    }
    chars
}

/// Finds the first word at or after `from`: where it starts and where it
/// ends. Where no word is left, both are the length of the text.
fn next_word(chars: &Vec<char>, from: usize) -> (span: (usize, usize))
    requires
        from <= chars.len(),
    ensures
        from <= span.0 <= span.1 <= chars.len(),
        span.0 == chars.len() ==> words(chars@.skip(from as int)).len() == 0,
        span.0 < chars.len() ==> span.0 < span.1 && words(chars@.skip(from as int)) == seq![
            chars@.subrange(span.0 as int, span.1 as int),
        ] + words(chars@.skip(span.1 as int)),
{
    let len = chars.len();
    let mut start = from;
    while start < len && is_whitespace(chars[start])
        invariant
            len == chars.len(),
            from <= start <= len,
            words(chars@.skip(from as int)) == words(chars@.skip(start as int)),
        decreases len - start,
    {
        proof {
            lemma_words_after_space(chars@, start as int);
        }
        start += 1;
    }
    if start == len {
        assert(chars@.skip(start as int).len() == 0);
        return (len, len);
    }
    let mut end = start + 1;
    while end < len && !is_whitespace(chars[end])
        invariant
            len == chars.len(),
            start < end <= len,
            forall|i: int| start <= i < end ==> !is_space(#[trigger] chars@[i]),
        decreases len - end,
    {
        end += 1;
    }
    proof {
        lemma_words_at_word(chars@, start as int, end as int);
    }
    (start, end)
}

/// Reads the word between `start` and `end` as a number.
fn parse_number(chars: &Vec<char>, start: usize, end: usize) -> (parsed: Option<usize>)
    requires
        start <= end <= chars.len(),
    ensures
        match parsed {
            Some(value) => number(chars@.subrange(start as int, end as int)) == Some(value as nat),
            None => number(chars@.subrange(start as int, end as int)) is None,
        },
{
    let ghost word = chars@.subrange(start as int, end as int);
    let first = if start < end && chars[start] == '+' {
        start + 1
    } else {
        start
    };
    let ghost digits = chars@.subrange(first as int, end as int);
    assert(digits =~= unsigned(word));
    if first == end {
        return None;
    }
    let mut value: usize = 0;
    let mut at = first;
    while at < end
        invariant
            first <= at <= end <= chars.len(),
            digits == chars@.subrange(first as int, end as int),
            digits == unsigned(chars@.subrange(start as int, end as int)),
            forall|i: int| 0 <= i < at - first ==> is_digit(#[trigger] digits[i]),
            value == digits_value(digits.take(at - first)),
        decreases end - at,
    {
        let code = chars[at] as u32;
        if code < '0' as u32 || code > '9' as u32 {
            assert(!is_digit(digits[at - first]));
            return None;
        }
        let digit = (code - '0' as u32) as usize;
        proof {
            let longer = digits.take(at - first + 1);
            assert(longer.drop_last() =~= digits.take(at - first));
            assert(longer.last() == chars@[at as int]);
            assert(digits_value(longer) == 10 * value + digit);
            lemma_digits_value_grows(digits, at - first + 1);
        }
        let tens = match value.checked_mul(10) {
            Some(tens) => tens,
            None => {
                return None;
            },
        };
        value = match tens.checked_add(digit) {
            Some(sum) => sum,
            None => {
                return None;
            },
        };
        at += 1;
    }
    assert(digits.take(at - first) =~= digits);
    Some(value)
}

/// Reads a move from a line of text: two numbers from 1 to 3 with white
/// space between them, first the column, then the row. White space before
/// and after them is passed over. The move is given as row and column
/// counted from zero.
pub fn parse_move(line: &str) -> (parsed: Result<(usize, usize), InputError>)
    ensures
        match parsed {
            Ok((row, col)) => row < 3 && col < 3 && move_of(line@) == Ok::<(int, int), InputError>(
                (row as int, col as int),
            ),
            Err(error) => move_of(line@) == Err::<(int, int), InputError>(error),
        },
{
    let chars = chars_of(line);
    let len = chars.len();
    assert(chars@.skip(0) =~= line@);
    let (first_start, first_end) = next_word(&chars, 0);
    if first_start == len {
        return Err(InputError::Malformed);
    }
    let (second_start, second_end) = next_word(&chars, first_end);
    if second_start == len {
        return Err(InputError::Malformed);
    }
    let (third_start, _) = next_word(&chars, second_end);
    if third_start < len {
        return Err(InputError::Malformed);
    }
    let col = match parse_number(&chars, first_start, first_end) {
        Some(col) => col,
        None => {
            return Err(InputError::Malformed);
        },
    };
    let row = match parse_number(&chars, second_start, second_end) {
        Some(row) => row,
        None => {
            return Err(InputError::Malformed);
        },
    };
    if col < 1 || col > 3 || row < 1 || row > 3 {
        return Err(InputError::OutOfRange);
    }
    Ok((row - 1, col - 1))
}

} // verus!
