//! Decimal numerals: what a run of digits denotes, and the numeral of a number.

use vstd::prelude::*;
use crate::text::chars_of;

verus! {

/// `c` is one of the ten ASCII digits.
pub open spec fn is_digit(c: char) -> bool {
    '0' <= c && c <= '9'
}

/// The number that an ASCII digit stands for.
pub open spec fn digit_value(c: char) -> nat
    recommends
        is_digit(c),
{
    (c as u32 - '0' as u32) as nat
}

/// The ASCII digit that stands for `d`.
pub open spec fn digit_char(d: nat) -> char
    recommends
        d < 10,
{
    ((d + 48) as u8) as char
}

/// Every character of `s` is an ASCII digit.
pub open spec fn all_digits(s: Seq<char>) -> bool {
    forall|i: int| 0 <= i < s.len() ==> is_digit(#[trigger] s[i])
}

/// The number that a run of digits denotes, most significant digit first.
/// The empty run denotes zero.
pub open spec fn decimal_value(s: Seq<char>) -> nat
    decreases s.len(),
{
    if s.len() == 0 {
        0
    } else {
        10 * decimal_value(s.drop_last()) + digit_value(s.last())
    }
}

/// The shortest run of digits that denotes `n`.
pub open spec fn decimal_text(n: nat) -> Seq<char>
    decreases n,
{
    if n < 10 {
        seq![digit_char(n)]
    } else {
        decimal_text(n / 10).push(digit_char(n % 10))
    }
}

/// Why a text is not the numeral of a 128-bit unsigned number.
#[derive(Clone, Copy, Debug, PartialEq, Eq, Structural)]
pub enum NumeralError {
    /// The text has no characters.
    Empty,
    /// The text has a character that is no digit, or no digit at all.
    InvalidDigit,
    /// The digits denote a number above `u128::MAX`.
    Overflow,
}

/// A numeral without its plus sign, if it has one.
pub open spec fn unsigned_part(s: Seq<char>) -> Seq<char> {
    if s.len() > 0 && s[0] == '+' {
        s.drop_first()
    } else {
        s
    }
}

/// What a text denotes when read as an unsigned numeral: an optional `+`,
/// then one or more ASCII digits whose value fits in 128 bits. Leading zeros
/// are accepted. A character that is no digit is reported before an overflow.
pub open spec fn numeral_value(s: Seq<char>) -> Result<u128, NumeralError> {
    let digits = unsigned_part(s);
    if s.len() == 0 {
        Err(NumeralError::Empty)
    } else if digits.len() == 0 || !all_digits(digits) {
        Err(NumeralError::InvalidDigit)
    } else if decimal_value(digits) > u128::MAX {
        Err(NumeralError::Overflow)
    } else {
        Ok(decimal_value(digits) as u128)
    }
}

/// Reads one ASCII digit.
pub fn read_digit(c: char) -> (d: Option<u8>)
    ensures
        d == (if is_digit(c) {
            Some(digit_value(c) as u8)
        } else {
            None
        }),
{
    if '0' <= c && c <= '9' {
        let code: u32 = c as u32;
        Some((code - 48) as u8)
    } else {
        None
    }
}

/// Writes one ASCII digit.
fn write_digit(d: u8) -> (c: char)
    requires
        d < 10,
    ensures
        c == digit_char(d as nat),
{
    (d + 48) as char
}

/// Reads a text as an unsigned numeral.
pub fn parse_numeral(text: &str) -> (r: Result<u128, NumeralError>)
    ensures
        r == numeral_value(text@),
{
    let chars = chars_of(text);
    assert(chars@.subrange(0, chars.len() as int) == text@);
    parse_range(&chars, 0, chars.len())
}

/// Reads the characters `text[from..to]` as an unsigned numeral.
pub(crate) fn parse_range(text: &Vec<char>, from: usize, to: usize) -> (r: Result<
    u128,
    NumeralError,
>)
    requires
        from <= to <= text.len(),
    ensures
        r == numeral_value(text@.subrange(from as int, to as int)),
{
    let ghost s = text@.subrange(from as int, to as int);
    if from == to {
        return Err(NumeralError::Empty);
    }
    let start: usize = if text[from] == '+' {
        from + 1
    } else {
        from
    };
    let ghost digits = unsigned_part(s);
    if start == to {
        return Err(NumeralError::InvalidDigit);
    }
    let mut acc: u128 = 0;
    let mut overflowed = false;
    let mut i: usize = start;
    while i < to
        invariant
            from <= start <= i <= to <= text.len(),
            from < to,
            s == text@.subrange(from as int, to as int),
            digits == unsigned_part(s),
            digits == text@.subrange(start as int, to as int),
            all_digits(digits.take(i - start)),
            !overflowed ==> acc == decimal_value(digits.take(i - start)),
            overflowed ==> decimal_value(digits.take(i - start)) > u128::MAX,
        decreases to - i,
    {
        let ghost before = digits.take(i - start);
        let ghost after = digits.take(i - start + 1);
        assert(after.drop_last() == before);
        match read_digit(text[i]) {
            None => {
                assert(!is_digit(digits[i - start]));
                return Err(NumeralError::InvalidDigit);
            },
            Some(d) => {
                if !overflowed {
                    match acc.checked_mul(10) {
                        None => {
                            overflowed = true;
                        },
                        Some(tens) => match tens.checked_add(d as u128) {
                            None => {
                                overflowed = true;
                            },
                            Some(sum) => {
                                acc = sum;
                            },
                        },
                    }
                }
                assert forall|j: int| 0 <= j < after.len() implies is_digit(#[trigger] after[j]) by {
                    if j < before.len() {
                        assert(after[j] == before[j]);
                    }
                }
            },
        }
        i += 1;
    }
    assert(digits.take(to - start) == digits);
    if overflowed {
        Err(NumeralError::Overflow)
    } else {
        Ok(acc)
    }
}

/// The numeral of `n` is made of digits, and denotes `n`.
pub proof fn lemma_decimal_text_value(n: nat)
    ensures
        decimal_text(n).len() >= 1,
        all_digits(decimal_text(n)),
        decimal_value(decimal_text(n)) == n,
    decreases n,
{
    if n < 10 {
        let s = decimal_text(n);
        assert(decimal_value(s.drop_last()) == 0);
    } else {
        lemma_decimal_text_value(n / 10);
        let head = decimal_text(n / 10);
        let s = decimal_text(n);
        assert(s.drop_last() == head);
        assert forall|i: int| 0 <= i < s.len() implies is_digit(#[trigger] s[i]) by {
            if i < head.len() {
                assert(s[i] == head[i]);
            }
        }
    }
}

/// Reading the numeral of a number gives the number back.
pub proof fn lemma_numeral_round_trip(n: u128)
    ensures
        numeral_value(decimal_text(n as nat)) == Ok::<u128, NumeralError>(n),
{
    lemma_decimal_text_value(n as nat);
    assert(is_digit(decimal_text(n as nat)[0]));
}

/// Adds the numeral of `n` at the end of `out`.
pub fn append_decimal(out: &mut String, n: u128)
    ensures
        final(out)@ == old(out)@ + decimal_text(n as nat),
    decreases n,
{
    if n >= 10 {
        append_decimal(out, n / 10);
    }
    let d: u8 = (n % 10) as u8;
    out.push(write_digit(d));
}

/// The numeral of `n`.
pub fn decimal_string(n: u128) -> (s: String)
    ensures
        s@ == decimal_text(n as nat),
{
    let mut s = String::new();
    append_decimal(&mut s, n);
    s
}

} // verus!
