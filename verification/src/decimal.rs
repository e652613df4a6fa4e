//! Unsigned decimal numbers as text: reading a number from its digits and
//! writing a number as digits.

use crate::text::chars_of;
use vstd::prelude::*;

verus! {

/// Why a text is not a number within the given limit.
#[derive(Debug, Clone, Copy, PartialEq, Eq, Structural)]
pub enum NumberError {
    /// The text holds no character at all.
    Empty,
    /// The text holds a character that is not a decimal digit, or nothing
    /// after its sign.
    InvalidDigit,
    /// The digits stand for a number above the limit.
    TooLarge,
}

/// Whether `c` is one of the digits `0` to `9`.
pub open spec fn is_digit(c: char) -> bool {
    0x30 <= c as u32 <= 0x39
}

/// The number that the digit `c` stands for.
pub open spec fn digit_value(c: char) -> nat
    recommends
        is_digit(c),
{
    (c as u32 - 0x30) as nat
}

/// The digit that stands for `d`.
pub open spec fn digit_char(d: nat) -> char
    recommends
        d < 10,
{
    if d == 0 {
        '0'
    } else if d == 1 {
        '1'
    } else if d == 2 {
        '2'
    } else if d == 3 {
        '3'
    } else if d == 4 {
        '4'
    } else if d == 5 {
        '5'
    } else if d == 6 {
        '6'
    } else if d == 7 {
        '7'
    } else if d == 8 {
        '8'
    } else {
        '9'
    }
}

/// Whether every character of `s` is a digit.
pub open spec fn all_digits(s: Seq<char>) -> bool {
    forall|i: int| 0 <= i < s.len() ==> is_digit(#[trigger] s[i])
}

/// The number that the digits `s` stand for, most significant digit first.
/// The empty sequence stands for zero.
pub open spec fn decimal_value(s: Seq<char>) -> nat
    decreases s.len(),
{
    if s.len() == 0 {
        0
    } else {
        decimal_value(s.drop_last()) * 10 + digit_value(s.last())
    }
}

/// `s` without one leading plus sign, if it has one.
pub open spec fn strip_plus(s: Seq<char>) -> Seq<char> {
    if s.len() > 0 && s[0] == '+' {
        s.drop_first()
    } else {
        s
    }
}

/// What `s` reads as, for numbers up to `limit`: an optional plus sign, then
/// one or more digits, leading zeros allowed.
pub open spec fn parse_decimal_spec(s: Seq<char>, limit: nat) -> Result<nat, NumberError> {
    let digits = strip_plus(s);
    if s.len() == 0 {
        Err(NumberError::Empty)
    } else if digits.len() == 0 || !all_digits(digits) {
        Err(NumberError::InvalidDigit)
    } else if decimal_value(digits) > limit {
        Err(NumberError::TooLarge)
    } else {
        Ok(decimal_value(digits))
    }
}

/// The digits of `n`, most significant first, without leading zeros.
pub open spec fn decimal_digits(n: nat) -> Seq<char>
    decreases n,
{
    if n < 10 {
        seq![digit_char(n)]
    } else {
        decimal_digits(n / 10).push(digit_char(n % 10))
    }
}

/// A prefix of a run of digits stands for no more than the whole run.
pub proof fn lemma_prefix_value(s: Seq<char>, k: int)
    requires
        0 <= k <= s.len(),
    ensures
        decimal_value(s.take(k)) <= decimal_value(s),
    decreases s.len(),
{
    if k == s.len() {
        assert(s.take(k) =~= s);
    } else {
        lemma_prefix_value(s.drop_last(), k);
        assert(s.drop_last().take(k) =~= s.take(k));
    }
}

/// The digits of a number are digits, at least one of them, and stand for it.
pub proof fn lemma_digits_value(n: nat)
    ensures
        decimal_digits(n).len() > 0,
        all_digits(decimal_digits(n)),
        decimal_value(decimal_digits(n)) == n,
    decreases n,
{
    if n < 10 {
        let s = decimal_digits(n);
        assert(s.drop_last() =~= Seq::<char>::empty());
        assert(decimal_value(s.drop_last()) == 0);
    } else {
        lemma_digits_value(n / 10);
        let s = decimal_digits(n);
        assert(s.drop_last() =~= decimal_digits(n / 10));
    }
}

/// Reading the digits of a number gives the number back, under every limit
/// that admits it.
pub proof fn lemma_parse_digits(n: nat, limit: nat)
    requires
        n <= limit,
    ensures
        parse_decimal_spec(decimal_digits(n), limit) == Ok::<nat, NumberError>(n),
{
    lemma_digits_value(n);
    let s = decimal_digits(n);
    assert(is_digit(s[0]));
    assert(strip_plus(s) == s);
}

/// The number that the digit `c` stands for, or `None` where `c` is no digit.
pub fn digit_of(c: char) -> (d: Option<u32>)
    ensures
        d is Some <==> is_digit(c),
        d matches Some(v) ==> v == digit_value(c) && v < 10,
{
    let u: u32 = c as u32;
    if 0x30 <= u && u <= 0x39 {
        Some(u - 0x30)
    } else {
        None
    }
}

/// Reads `text` as an unsigned decimal number of at most `limit`.
pub fn parse_decimal(text: &str, limit: u32) -> (r: Result<u32, NumberError>)
    ensures
        match parse_decimal_spec(text@, limit as nat) {
            Ok(n) => r == Ok::<u32, NumberError>(n as u32),
            Err(e) => r == Err::<u32, NumberError>(e),
        },
{
    let chars = chars_of(text);
    if chars.len() == 0 {
        return Err(NumberError::Empty);
    }
    let first: usize = if chars[0] == '+' {
        1
    } else {
        0
    };
    let ghost digits = strip_plus(text@);
    assert(digits =~= chars@.skip(first as int));
    if first == chars.len() {
        return Err(NumberError::InvalidDigit);
    }
    let mut i: usize = first;
    while i < chars.len()
        invariant
            first <= i <= chars@.len(),
            first < chars@.len() == text@.len(),
            digits == strip_plus(text@),
            digits == chars@.skip(first as int),
            forall|j: int| 0 <= j < i - first ==> is_digit(#[trigger] digits[j]),
        decreases chars@.len() - i,
    {
        if digit_of(chars[i]).is_none() {
            assert(!is_digit(digits[i - first]));
            return Err(NumberError::InvalidDigit);
        }
        i += 1;
    }
    let mut value: u64 = 0;
    let mut i: usize = first;
    while i < chars.len()
        invariant
            first <= i <= chars@.len(),
            first < chars@.len() == text@.len(),
            digits == strip_plus(text@),
            digits == chars@.skip(first as int),
            all_digits(digits),
            value == decimal_value(digits.take(i - first)),
            value <= limit,
        decreases chars@.len() - i,
    {
        let d = digit_of(chars[i]);
        proof {
            assert(is_digit(digits[i - first]));
            let next = digits.take(i - first + 1);
            assert(next.drop_last() =~= digits.take(i - first));
            assert(next.last() == chars@[i as int]);
            lemma_prefix_value(digits, i - first + 1);
        }
        let next: u64 = value * 10 + d.unwrap() as u64;
        if next > limit as u64 {
            return Err(NumberError::TooLarge);
        }
        value = next;
        i += 1;
    }
    assert(digits.take(i - first) =~= digits);
    Ok(value as u32)
}

/// The text of one digit.
fn digit_text(d: u32) -> (text: &'static str)
    requires
        d < 10,
    ensures
        text@ == seq![digit_char(d as nat)],
{
    proof {
        reveal_strlit("0");
        reveal_strlit("1");
        reveal_strlit("2");
        reveal_strlit("3");
        reveal_strlit("4");
        reveal_strlit("5");
        reveal_strlit("6");
        reveal_strlit("7");
        reveal_strlit("8");
        reveal_strlit("9");
    }
    let text = if d == 0 {
        "0"
    } else if d == 1 {
        "1"
    } else if d == 2 {
        "2"
    } else if d == 3 {
        "3"
    } else if d == 4 {
        "4"
    } else if d == 5 {
        "5"
    } else if d == 6 {
        "6"
    } else if d == 7 {
        "7"
    } else if d == 8 {
        "8"
    } else {
        "9"
    };
    assert(text@ =~= seq![digit_char(d as nat)]);
    text
}

/// Writes `n` in decimal, without sign or leading zeros.
pub fn render_decimal(n: u32) -> (text: String)
    ensures
        text@ == decimal_digits(n as nat),
    decreases n,
{
    if n < 10 {
        String::from_str(digit_text(n))
    } else {
        let mut text = render_decimal(n / 10);
        text.append(digit_text(n % 10));
        assert(text@ =~= decimal_digits(n as nat));
        text
    }
}

} // verus!
