//! Numbers as decimal text, in both directions.

use crate::error;
use crate::error::{LampError, NumberError};
use crate::text::chars_of;
use vstd::prelude::*;

verus! {

/// The character of a decimal digit.
pub open spec fn digit_char(d: int) -> char {
    (48 + d) as char
}

/// `0` to `9`.
pub open spec fn is_digit(c: char) -> bool {
    '0' <= c <= '9'
}

/// A number in decimal digits, without leading zeros.
pub open spec fn decimal(n: nat) -> Seq<char>
    decreases n,
{
    if n < 10 {
        seq![digit_char(n as int)]
    } else {
        decimal(n / 10).push(digit_char((n % 10) as int))
    }
}

/// An integer in decimal digits, with a minus sign if it is negative.
pub open spec fn signed_decimal(n: int) -> Seq<char> {
    if n < 0 {
        seq!['-'] + decimal((-n) as nat)
    } else {
        decimal(n as nat)
    }
}

/// The number that decimal digits stand for.
pub open spec fn digits_value(s: Seq<char>) -> nat
    decreases s.len(),
{
    if s.len() == 0 {
        0
    } else {
        digits_value(s.drop_last()) * 10 + (s.last() as u32 - 48) as nat
    }
}

/// Digits read from left to right, up to the first character that is no digit
/// or that takes the number above `max`.
pub open spec fn read_digits(s: Seq<char>, max: nat) -> Result<nat, NumberError>
    decreases s.len(),
{
    if s.len() == 0 {
        Ok(0)
    } else {
        match read_digits(s.drop_last(), max) {
            Err(e) => Err(e),
            Ok(n) => {
                let c = s.last();
                if !is_digit(c) {
                    Err(NumberError::InvalidDigit)
                } else if n * 10 + (c as u32 - 48) > max {
                    Err(NumberError::TooLarge)
                } else {
                    Ok((n * 10 + (c as u32 - 48)) as nat)
                }
            },
        }
    }
}

/// A text read as an unsigned number that is at most `max`: digits, which a
/// plus sign may precede.
pub open spec fn read_number(s: Seq<char>, max: nat) -> Result<nat, NumberError> {
    if s.len() == 0 {
        Err(NumberError::Empty)
    } else if s == seq!['+'] {
        Err(NumberError::InvalidDigit)
    } else if s[0] == '+' {
        read_digits(s.skip(1), max)
    } else {
        read_digits(s, max)
    }
}

/// Only decimal digits, and at least one.
pub open spec fn all_digits(s: Seq<char>) -> bool {
    s.len() > 0 && forall|i: int| 0 <= i < s.len() ==> is_digit(#[trigger] s[i])
}

proof fn lemma_read_digits(s: Seq<char>, max: nat)
    ensures
        (read_digits(s, max) is Ok) == ((forall|i: int|
            0 <= i < s.len() ==> is_digit(#[trigger] s[i])) && digits_value(s) <= max),
        read_digits(s, max) matches Ok(n) ==> n == digits_value(s),
    decreases s.len(),
{
    if s.len() > 0 {
        let t = s.drop_last();
        lemma_read_digits(t, max);
        if forall|i: int| 0 <= i < s.len() ==> is_digit(#[trigger] s[i]) {
            assert(is_digit(s.last()));
            assert forall|i: int| 0 <= i < t.len() implies is_digit(#[trigger] t[i]) by {
                assert(is_digit(s[i]));
            }
        }
        if forall|i: int| 0 <= i < t.len() ==> is_digit(#[trigger] t[i]) {
            if is_digit(s.last()) {
                assert forall|i: int| 0 <= i < s.len() implies is_digit(#[trigger] s[i]) by {
                    if i < t.len() {
                        assert(s[i] == t[i]);
                    }
                }
            }
        }
    }
}

/// A text is accepted as a number exactly if it is a non-empty run of digits,
/// with or without one plus sign before it, whose value is at most `max`; the
/// result is that value.
pub proof fn law_number_accepted(s: Seq<char>, max: nat)
    ensures
        (read_number(s, max) is Ok) == {
            let digits = if s.len() > 0 && s[0] == '+' {
                s.skip(1)
            } else {
                s
            };
            all_digits(digits) && digits_value(digits) <= max
        },
        read_number(s, max) matches Ok(n) ==> n == digits_value(
            if s[0] == '+' {
                s.skip(1)
            } else {
                s
            },
        ),
{
    lemma_read_digits(s, max);
    if s.len() > 0 && s[0] == '+' {
        lemma_read_digits(s.skip(1), max);
        if s.skip(1).len() == 0 {
            assert(s =~= seq!['+']);
        }
    }
}

pub proof fn lemma_decimal(n: nat)
    ensures
        all_digits(decimal(n)),
        digits_value(decimal(n)) == n,
    decreases n,
{
    if n < 10 {
        let s = decimal(n);
        assert(s.drop_last() =~= Seq::empty());
        assert(digits_value(s.drop_last()) == 0);
    } else {
        lemma_decimal(n / 10);
        let s = decimal(n);
        assert(s.drop_last() =~= decimal(n / 10));
        assert forall|i: int| 0 <= i < s.len() implies is_digit(#[trigger] s[i]) by {
            if i < s.len() - 1 {
                assert(s[i] == decimal(n / 10)[i]);
            }
        }
    }
}

/// A number written in decimal reads back as itself.
pub proof fn law_decimal_round_trip(n: nat, max: nat)
    requires
        n <= max,
    ensures
        read_number(decimal(n), max) == Ok::<nat, NumberError>(n),
{
    let s = decimal(n);
    lemma_decimal(n);
    assert(is_digit(s[0]));
    law_number_accepted(s, max);
}

/// Reads an unsigned number that is at most `max`.
pub fn parse_number(value: &str, max: u64) -> (r: Result<u64, NumberError>)
    ensures
        match (r, read_number(value@, max as nat)) {
            (Ok(n), Ok(m)) => n == m,
            (Err(e), Err(f)) => e == f,
            _ => false,
        },
{
    let chars = chars_of(value);
    if chars.len() == 0 {
        return Err(NumberError::Empty);
    }
    let mut i: usize = 0;
    if chars[0] == '+' {
        if chars.len() == 1 {
            assert(value@ =~= seq!['+']);
            return Err(NumberError::InvalidDigit);
        }
        i = 1;
    }
    assert(value@ != seq!['+']) by {
        if value@ == seq!['+'] {
            assert(value@.len() == 1);
        }
    }
    let ghost start = i as int;
    let ghost digits = value@.skip(start);
    assert(value@.skip(0) =~= value@);
    let mut n: u64 = 0;
    assert(digits.take(0) =~= Seq::empty());
    while i < chars.len()
        invariant
            chars@ == value@,
            start <= i <= chars.len(),
            0 <= start <= 1,
            digits == value@.skip(start),
            read_number(value@, max as nat) == read_digits(digits, max as nat),
            read_digits(digits.take(i - start), max as nat) == Ok::<nat, NumberError>(n as nat),
            n <= max,
        decreases chars.len() - i,
    {
        let c = chars[i];
        let ghost now = digits.take(i - start + 1);
        assert(now.drop_last() =~= digits.take(i - start));
        assert(now.last() == c);
        if !('0' <= c && c <= '9') {
            proof {
                lemma_read_digits_stops(digits, i - start + 1, max as nat);
            }
            return Err(NumberError::InvalidDigit);
        }
        let d: u64 = (c as u32 - 48) as u64;
        if d > max || n > (max - d) / 10 {
            proof {
                lemma_read_digits_stops(digits, i - start + 1, max as nat);
            }
            return Err(NumberError::TooLarge);
        }
        n = n * 10 + d;
        i += 1;
    }
    assert(digits.take(i - start) =~= digits);
    Ok(n)
}

/// Once reading has failed, the characters that follow change nothing.
proof fn lemma_read_digits_stops(s: Seq<char>, n: int, max: nat)
    requires
        0 <= n <= s.len(),
        read_digits(s.take(n), max) is Err,
    ensures
        read_digits(s, max) == read_digits(s.take(n), max),
    decreases s.len(),
{
    if n == s.len() {
        assert(s.take(n) =~= s);
    } else {
        assert(s.drop_last().take(n) =~= s.take(n));
        lemma_read_digits_stops(s.drop_last(), n, max);
    }
}

/// Appends a number in decimal.
pub fn push_decimal(out: &mut String, n: u64)
    ensures
        final(out)@ == old(out)@ + decimal(n as nat),
    decreases n,
{
    if n >= 10 {
        push_decimal(out, n / 10);
    }
    let d = (n % 10) as u8;
    out.push((48 + d) as char);
    assert(out@ =~= old(out)@ + decimal(n as nat));
}

/// A number in decimal.
pub fn decimal_text(n: u64) -> (r: String)
    ensures
        r@ == decimal(n as nat),
{
    let mut out = String::new();
    push_decimal(&mut out, n);
    assert(out@ =~= decimal(n as nat));
    out
}

/// An integer in decimal.
pub fn signed_text(n: i64) -> (r: String)
    ensures
        r@ == signed_decimal(n as int),
{
    let mut out = String::new();
    if n < 0 {
        out.push('-');
        let magnitude = (-(n as i128)) as u64;
        push_decimal(&mut out, magnitude);
        assert(out@ =~= signed_decimal(n as int));
    } else {
        push_decimal(&mut out, n as u64);
        assert(out@ =~= signed_decimal(n as int));
    }
    out
}

// -------------------------------------------------------- configured numbers

/// The number that a configuration value stands for, or the failure that names
/// its key.
pub open spec fn config_number(value: Seq<char>, key: Seq<char>, max: nat) -> Result<nat, error::Failure> {
    match read_number(value, max) {
        Ok(n) => Ok(n),
        Err(cause) => Err(error::Failure::BadNumber { key, cause }),
    }
}

fn bad_number(key: &str, cause: NumberError) -> (r: LampError)
    ensures
        r@ == (error::Failure::BadNumber { key: key@, cause }),
{
    LampError::BadNumber { key: key.to_owned(), cause }
}

/// Reads a `u64`; a failure names the key.
pub fn parse_u64(value: &str, key: &str) -> (r: Result<u64, LampError>)
    ensures
        match (r, config_number(value@, key@, u64::MAX as nat)) {
            (Ok(n), Ok(m)) => n == m,
            (Err(e), Err(f)) => e@ == f,
            _ => false,
        },
{
    match parse_number(value, u64::MAX) {
        Ok(n) => Ok(n),
        Err(cause) => Err(bad_number(key, cause)),
    }
}

/// Reads a `u32`; a failure names the key.
pub fn parse_u32(value: &str, key: &str) -> (r: Result<u32, LampError>)
    ensures
        match (r, config_number(value@, key@, u32::MAX as nat)) {
            (Ok(n), Ok(m)) => n == m,
            (Err(e), Err(f)) => e@ == f,
            _ => false,
        },
{
    match parse_number(value, u32::MAX as u64) {
        Ok(n) => {
            proof {
                law_number_accepted(value@, u32::MAX as nat);
            }
            Ok(n as u32)
        },
        Err(cause) => Err(bad_number(key, cause)),
    }
}

/// The smaller of a number and one hundred.
pub open spec fn percent(n: int) -> int {
    if n > 100 {
        100
    } else {
        n
    }
}

/// A byte limited to a percentage.
pub fn clamp_percent(value: u8) -> (r: u8)
    ensures
        r == percent(value as int),
{
    if value > 100 {
        100
    } else {
        value
    }
}

/// Reads a byte and limits it to a percentage; a failure names the key.
pub fn parse_percent(value: &str, key: &str) -> (r: Result<u8, LampError>)
    ensures
        match (r, config_number(value@, key@, u8::MAX as nat)) {
            (Ok(n), Ok(m)) => n == percent(m as int),
            (Err(e), Err(f)) => e@ == f,
            _ => false,
        },
{
    match parse_number(value, u8::MAX as u64) {
        Ok(n) => {
            proof {
                law_number_accepted(value@, u8::MAX as nat);
            }
            Ok(clamp_percent(n as u8))
        },
        Err(cause) => Err(bad_number(key, cause)),
    }
}

} // verus!
