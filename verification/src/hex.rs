//! Bytes as hexadecimal text.

use crate::error;
use crate::error::LampError;
use crate::number;
use crate::text::chars_of;
use vstd::prelude::*;

verus! {

/// The character of a hexadecimal digit, in lower case.
pub open spec fn hex_digit(n: int) -> char {
    if n < 10 {
        number::digit_char(n)
    } else {
        (87 + n) as char
    }
}

/// A byte as two hexadecimal digits.
pub open spec fn byte_hex(b: u8) -> Seq<char> {
    seq![hex_digit((b / 16) as int), hex_digit((b % 16) as int)]
}

/// Bytes as hexadecimal digits, two each.
pub open spec fn hex_text(bytes: Seq<u8>) -> Seq<char>
    decreases bytes.len(),
{
    if bytes.len() == 0 {
        Seq::empty()
    } else {
        byte_hex(bytes[0]) + hex_text(bytes.drop_first())
    }
}

/// The value of a hexadecimal digit in either case.
pub open spec fn hex_value(c: char) -> Option<u8> {
    if '0' <= c <= '9' {
        Some((c as u32 - 48) as u8)
    } else if 'a' <= c <= 'f' {
        Some((c as u32 - 87) as u8)
    } else if 'A' <= c <= 'F' {
        Some((c as u32 - 55) as u8)
    } else {
        None
    }
}

/// The value of two characters: two digits, or a plus sign and one digit.
pub open spec fn pair_value(a: char, b: char) -> Option<u8> {
    if a == '+' {
        hex_value(b)
    } else {
        match (hex_value(a), hex_value(b)) {
            (Some(high), Some(low)) => Some((high * 16 + low) as u8),
            _ => None,
        }
    }
}

/// How many bytes a character takes in UTF-8.
pub open spec fn utf8_width(c: char) -> nat {
    if (c as u32) < 0x80 {
        1
    } else if (c as u32) < 0x800 {
        2
    } else if (c as u32) < 0x10000 {
        3
    } else {
        4
    }
}

/// How many bytes a text takes in UTF-8.
pub open spec fn byte_len(s: Seq<char>) -> nat
    decreases s.len(),
{
    if s.len() == 0 {
        0
    } else {
        byte_len(s.drop_last()) + utf8_width(s.last())
    }
}

/// A space, tab, line feed, form feed or carriage return, or a colon.
pub open spec fn is_separator(c: char) -> bool {
    c == ' ' || c == '\t' || c == '\n' || c == '\u{c}' || c == '\r' || c == ':'
}

/// The text without its separators.
pub open spec fn without_separators(s: Seq<char>) -> Seq<char> {
    s.filter(|c: char| !is_separator(c))
}

/// The bytes that pairs of digits stand for; the first pair that is none is
/// named in the failure. A character of two bytes takes the place of a pair.
pub open spec fn hex_pairs(s: Seq<char>) -> Result<Seq<u8>, error::Failure>
    decreases s.len(),
{
    if s.len() == 0 {
        Ok(Seq::empty())
    } else if s.len() == 1 || utf8_width(s[0]) == 2 {
        Err(error::Failure::BadHexByte { piece: seq![s[0]] })
    } else {
        match pair_value(s[0], s[1]) {
            None => Err(error::Failure::BadHexByte { piece: seq![s[0], s[1]] }),
            Some(b) => match hex_pairs(s.skip(2)) {
                Ok(rest) => Ok(seq![b] + rest),
                Err(failure) => Err(failure),
            },
        }
    }
}

/// Every piece of two bytes, up to the first that is no number, ends where a
/// character ends.
pub open spec fn pairs_split(s: Seq<char>) -> bool
    decreases s.len(),
{
    if s.len() == 0 || utf8_width(s[0]) == 2 {
        true
    } else {
        &&& utf8_width(s[0]) == 1
        &&& s.len() >= 2
        &&& utf8_width(s[1]) == 1
        &&& pair_value(s[0], s[1]) is Some ==> pairs_split(s.skip(2))
    }
}

/// The text can be cut into pieces of two bytes as far as it is read.
pub open spec fn hex_splits(s: Seq<char>) -> bool {
    byte_len(without_separators(s)) % 2 != 0 || pairs_split(without_separators(s))
}

/// The bytes that a hexadecimal text stands for, or why it stands for none.
pub open spec fn hex_bytes(s: Seq<char>) -> Result<Seq<u8>, error::Failure> {
    let digits = without_separators(s);
    if byte_len(digits) % 2 != 0 {
        Err(error::Failure::OddHexLength)
    } else {
        hex_pairs(digits)
    }
}

fn hex_char(n: u8) -> (r: char)
    requires
        n < 16,
    ensures
        r == hex_digit(n as int),
{
    if n < 10 {
        (48 + n) as char
    } else {
        (87 + n) as char
    }
}

/// The value of a hexadecimal digit in either case.
pub fn hex_digit_value(c: char) -> (r: Option<u8>)
    ensures
        r == hex_value(c),
        r matches Some(v) ==> v < 16,
{
    if '0' <= c && c <= '9' {
        Some((c as u32 - 48) as u8)
    } else if 'a' <= c && c <= 'f' {
        Some((c as u32 - 87) as u8)
    } else if 'A' <= c && c <= 'F' {
        Some((c as u32 - 55) as u8)
    } else {
        None
    }
}

fn hex_pair(a: char, b: char) -> (r: Option<u8>)
    ensures
        r == pair_value(a, b),
{
    if a == '+' {
        return hex_digit_value(b);
    }
    match hex_digit_value(a) {
        Some(high) => match hex_digit_value(b) {
            Some(low) => Some(high * 16 + low),
            None => None,
        },
        None => None,
    }
}

fn char_width(c: char) -> (r: u8)
    ensures
        r == utf8_width(c),
{
    let code = c as u32;
    if code < 0x80 {
        1
    } else if code < 0x800 {
        2
    } else if code < 0x10000 {
        3
    } else {
        4
    }
}

/// Appends a byte as two hexadecimal digits.
pub fn push_byte_hex(out: &mut String, b: u8)
    ensures
        final(out)@ == old(out)@ + byte_hex(b),
{
    out.push(hex_char(b / 16));
    out.push(hex_char(b % 16));
    assert(out@ =~= old(out)@ + byte_hex(b));
}

/// Bytes as hexadecimal text in lower case.
pub fn hex(bytes: &[u8]) -> (r: String)
    ensures
        r@ == hex_text(bytes@),
{
    let mut out = String::new();
    let mut i: usize = 0;
    assert(bytes@.skip(0) =~= bytes@);
    assert(out@ + hex_text(bytes@) =~= hex_text(bytes@));
    while i < bytes.len()
        invariant
            i <= bytes.len(),
            out@ + hex_text(bytes@.skip(i as int)) == hex_text(bytes@),
        decreases bytes.len() - i,
    {
        let ghost before = out@;
        let ghost rest = bytes@.skip(i as int);
        push_byte_hex(&mut out, bytes[i]);
        i += 1;
        assert(rest.drop_first() =~= bytes@.skip(i as int));
        assert(before + (byte_hex(rest[0]) + hex_text(rest.drop_first())) =~= out@ + hex_text(
            rest.drop_first(),
        ));
    }
    assert(out@ + hex_text(bytes@.skip(i as int)) =~= out@);
    out
}

fn digits_of(value: &str) -> (r: (Vec<char>, bool))
    ensures
        r.0@ == without_separators(value@),
        r.1 == (byte_len(r.0@) % 2 != 0),
{
    let chars = chars_of(value);
    let mut digits: Vec<char> = Vec::new();
    let mut odd = false;
    let mut i: usize = 0;
    let ghost keep = |c: char| !is_separator(c);
    reveal(Seq::filter);
    assert(chars@.take(0).filter(keep) =~= Seq::empty());
    while i < chars.len()
        invariant
            keep == (|c: char| !is_separator(c)),
            i <= chars.len(),
            digits@ == chars@.take(i as int).filter(keep),
            odd == (byte_len(digits@) % 2 != 0),
        decreases chars.len() - i,
    {
        reveal(Seq::filter);
        let c = chars[i];
        let ghost now = chars@.take(i as int + 1);
        assert(now.drop_last() =~= chars@.take(i as int));
        assert(now.last() == c);
        let ghost before = digits@;
        if !(c == ' ' || c == '\t' || c == '\n' || c == '\u{c}' || c == '\r' || c == ':') {
            digits.push(c);
            assert(digits@.drop_last() =~= before);
            let width = char_width(c);
            if width % 2 != 0 {
                odd = !odd;
            }
        }
        i += 1;
    }
    assert(chars@.take(i as int) =~= value@);
    (digits, odd)
}

/// Whether a text can be cut into pieces of two bytes as far as it is read.
pub fn splits_into_hex_pairs(value: &str) -> (r: bool)
    ensures
        r == hex_splits(value@),
{
    let (digits, odd) = digits_of(value);
    if odd {
        return true;
    }
    let mut i: usize = 0;
    assert(digits@.skip(0) =~= digits@);
    while i < digits.len()
        invariant
            i <= digits.len(),
            digits@ == without_separators(value@),
            byte_len(digits@) % 2 == 0,
            pairs_split(digits@) == pairs_split(digits@.skip(i as int)),
        decreases digits.len() - i,
    {
        let ghost rest = digits@.skip(i as int);
        let first = char_width(digits[i]);
        if first == 2 {
            return true;
        }
        if first != 1 || digits.len() - i < 2 || char_width(digits[i + 1]) != 1 {
            return false;
        }
        if hex_pair(digits[i], digits[i + 1]).is_none() {
            return true;
        }
        assert(rest.skip(2) =~= digits@.skip(i as int + 2));
        i += 2;
    }
    true
}

/// The bytes that a hexadecimal text stands for; white space and colons are
/// left out of it first.
pub fn parse_hex(value: &str) -> (r: Result<Vec<u8>, LampError>)
    requires
        hex_splits(value@),
    ensures
        match (r, hex_bytes(value@)) {
            (Ok(bytes), Ok(expected)) => bytes@ == expected,
            (Err(e), Err(failure)) => e@ == failure,
            _ => false,
        },
{
    let (digits, odd) = digits_of(value);
    if odd {
        return Err(LampError::OddHexLength);
    }
    let mut bytes: Vec<u8> = Vec::new();
    let mut i: usize = 0;
    let ghost whole = hex_pairs(digits@);
    assert(digits@.skip(0) =~= digits@);
    proof {
        if whole is Ok {
            assert(bytes@ + whole->Ok_0 =~= whole->Ok_0);
        }
    }
    while i < digits.len()
        invariant
            i <= digits.len(),
            whole == hex_bytes(value@),
            pairs_split(digits@.skip(i as int)),
            match (whole, hex_pairs(digits@.skip(i as int))) {
                (Ok(all), Ok(rest)) => all == bytes@ + rest,
                (Err(a), Err(b)) => a == b,
                _ => false,
            },
        decreases digits.len() - i,
    {
        let ghost rest = digits@.skip(i as int);
        let first = digits[i];
        if char_width(first) == 2 {
            let mut piece = String::new();
            piece.push(first);
            assert(piece@ =~= seq![first]);
            return Err(LampError::BadHexByte { piece });
        }
        assert(rest.len() >= 2);
        let second = digits[i + 1];
        assert(rest[0] == first && rest[1] == second);
        match hex_pair(first, second) {
            None => {
                let mut piece = String::new();
                piece.push(first);
                piece.push(second);
                assert(piece@ =~= seq![first, second]);
                return Err(LampError::BadHexByte { piece });
            },
            Some(b) => {
                let ghost before = bytes@;
                bytes.push(b);
                assert(rest.skip(2) =~= digits@.skip(i as int + 2));
                proof {
                    if whole is Ok {
                        let after = hex_pairs(rest.skip(2))->Ok_0;
                        assert(before + (seq![b] + after) =~= bytes@ + after);
                    }
                }
                i += 2;
            },
        }
    }
    proof {
        if whole is Ok {
            assert(bytes@ + Seq::<u8>::empty() =~= bytes@);
        }
    }
    Ok(bytes)
}

// ---------------------------------------------------------------------- laws

proof fn lemma_hex_digit(n: u8)
    requires
        n < 16,
    ensures
        hex_value(hex_digit(n as int)) == Some(n),
        !is_separator(hex_digit(n as int)),
        hex_digit(n as int) != '+',
        hex_digit(n as int) != '#',
        utf8_width(hex_digit(n as int)) == 1,
{
}

pub proof fn lemma_hex_text(bytes: Seq<u8>)
    ensures
        hex_text(bytes).len() == 2 * bytes.len(),
        forall|i: int|
            0 <= i < hex_text(bytes).len() ==> !is_separator(#[trigger] hex_text(bytes)[i])
                && utf8_width(hex_text(bytes)[i]) == 1 && hex_text(bytes)[i] != '#',
        pairs_split(hex_text(bytes)),
        hex_pairs(hex_text(bytes)) == Ok::<Seq<u8>, error::Failure>(bytes),
    decreases bytes.len(),
{
    if bytes.len() > 0 {
        let b = bytes[0];
        let rest = bytes.drop_first();
        let s = hex_text(bytes);
        lemma_hex_text(rest);
        lemma_hex_digit(b / 16);
        lemma_hex_digit(b % 16);
        assert(s.skip(2) =~= hex_text(rest));
        assert(pair_value(s[0], s[1]) == Some(b));
        assert(seq![b] + rest =~= bytes);
        assert forall|i: int| 0 <= i < s.len() implies !is_separator(#[trigger] s[i])
            && utf8_width(s[i]) == 1 && s[i] != '#' by {
            if i >= 2 {
                assert(s[i] == hex_text(rest)[i - 2]);
            }
        }
    } else {
        assert(bytes =~= Seq::empty());
    }
}

pub proof fn lemma_hex_digits(bytes: Seq<u8>)
    ensures
        forall|i: int|
            0 <= i < hex_text(bytes).len() ==> hex_value(#[trigger] hex_text(bytes)[i]) is Some,
    decreases bytes.len(),
{
    if bytes.len() > 0 {
        let rest = bytes.drop_first();
        let s = hex_text(bytes);
        lemma_hex_digits(rest);
        lemma_hex_digit(bytes[0] / 16);
        lemma_hex_digit(bytes[0] % 16);
        assert forall|i: int| 0 <= i < s.len() implies hex_value(#[trigger] s[i]) is Some by {
            if i >= 2 {
                assert(s[i] == hex_text(rest)[i - 2]);
            }
        }
    }
}

pub proof fn lemma_no_separators(s: Seq<char>)
    requires
        forall|i: int| 0 <= i < s.len() ==> !is_separator(#[trigger] s[i]) && utf8_width(s[i]) == 1,
    ensures
        without_separators(s) == s,
        byte_len(s) == s.len(),
    decreases s.len(),
{
    reveal(Seq::filter);
    if s.len() > 0 {
        let t = s.drop_last();
        assert forall|i: int| 0 <= i < t.len() implies !is_separator(#[trigger] t[i])
            && utf8_width(t[i]) == 1 by {
            assert(t[i] == s[i]);
        }
        lemma_no_separators(t);
        assert(!is_separator(s[s.len() - 1]));
        assert(t.push(s.last()) =~= s);
    } else {
        assert(without_separators(s) =~= s);
    }
}

proof fn lemma_byte_len_add(a: Seq<char>, b: Seq<char>)
    ensures
        byte_len(a + b) == byte_len(a) + byte_len(b),
    decreases b.len(),
{
    if b.len() == 0 {
        assert(a + b =~= a);
    } else {
        assert((a + b).drop_last() =~= a + b.drop_last());
        lemma_byte_len_add(a, b.drop_last());
    }
}

/// The byte length is the length of the UTF-8 encoding.
pub proof fn law_byte_len_is_utf8_length(s: Seq<char>)
    ensures
        byte_len(s) == vstd::utf8::encode_utf8(s).len(),
    decreases s.len(),
{
    if s.len() > 0 {
        let first = seq![s[0]];
        let rest = s.drop_first();
        law_byte_len_is_utf8_length(rest);
        lemma_byte_len_add(first, rest);
        assert(first + rest =~= s);
        assert(byte_len(first) == utf8_width(s[0])) by {
            assert(first.drop_last() =~= Seq::empty());
            assert(byte_len(first.drop_last()) == 0);
        }
        vstd::utf8::char_is_scalar(s[0]);
        assert(vstd::utf8::encode_scalar(s[0] as u32).len() == utf8_width(s[0]));
        assert(vstd::utf8::encode_utf8(s) == vstd::utf8::encode_scalar(s[0] as u32)
            + vstd::utf8::encode_utf8(rest));
    }
}

/// Bytes written in hexadecimal read back as themselves.
pub proof fn law_hex_round_trip(bytes: Seq<u8>)
    ensures
        hex_splits(hex_text(bytes)),
        hex_bytes(hex_text(bytes)) == Ok::<Seq<u8>, error::Failure>(bytes),
{
    lemma_hex_text(bytes);
    lemma_no_separators(hex_text(bytes));
}

} // verus!
