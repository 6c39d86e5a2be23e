//! What holds of texts and numbers character by character: which digits stand
//! for which values, which characters are white space, how letters change their
//! case, and how a line is cut into a key and a value.

use crate::error;
use crate::error::NumberError;
use crate::hex;
use crate::number;
use crate::text;
use vstd::prelude::*;

verus! {

// -------------------------------------------------------------------- decimal

/// A digit at the end of a number counts once, and what stands before it ten
/// times. Only `0` to `9` are digits.
pub proof fn law_decimal_digits(s: Seq<char>, c: char)
    ensures
        number::is_digit(c) <==> '0' <= c <= '9',
        number::digits_value(Seq::empty()) == 0,
        '0' <= c <= '9' ==> number::digits_value(s.push(c)) == 10 * number::digits_value(s) + (
        c as int - '0' as int),
        number::all_digits(s.push(c)) <==> '0' <= c <= '9' && (s.len() == 0
            || number::all_digits(s)),
        !number::all_digits(Seq::empty()),
{
    let t = s.push(c);
    assert(t.drop_last() =~= s);
    if number::all_digits(t) {
        assert(number::is_digit(t[s.len() as int]));
        assert forall|i: int| 0 <= i < s.len() implies number::is_digit(#[trigger] s[i]) by {
            assert(t[i] == s[i]);
        }
    }
}

/// A number is written in decimal digits that have its value, without a zero
/// before other digits.
pub proof fn law_decimal_is_exact(n: nat)
    ensures
        number::all_digits(number::decimal(n)),
        number::digits_value(number::decimal(n)) == n,
        number::decimal(n).len() > 1 ==> number::decimal(n)[0] != '0',
    decreases n,
{
    number::lemma_decimal(n);
    if n >= 10 {
        law_decimal_is_exact(n / 10);
        if n / 10 < 10 {
            assert(number::decimal(n)[0] == number::decimal(n / 10)[0]);
        } else {
            number::lemma_decimal(n / 10 / 10);
            assert(number::decimal(n / 10).len() > 1);
            assert(number::decimal(n)[0] == number::decimal(n / 10)[0]);
        }
    }
}

/// A negative number is written as a minus sign and the digits of its opposite.
pub proof fn law_signed_decimal_is_exact(n: int)
    ensures
        n >= 0 ==> number::signed_decimal(n) == number::decimal(n as nat),
        n < 0 ==> number::signed_decimal(n).len() > 1 && number::signed_decimal(n)[0] == '-'
            && number::signed_decimal(n).skip(1) == number::decimal((-n) as nat),
{
    if n < 0 {
        law_decimal_is_exact((-n) as nat);
        assert(number::signed_decimal(n).skip(1) =~= number::decimal((-n) as nat));
    }
}

/// A percentage is the number itself up to one hundred, and one hundred above.
pub proof fn law_percent(n: int)
    ensures
        n <= 100 ==> number::percent(n) == n,
        n > 100 ==> number::percent(n) == 100,
{
}

/// Why a text is refused as a number: it is empty, or its digits stand for too
/// much, or a character comes that is no digit before they do.
pub proof fn law_refused_numbers(digits: Seq<char>, c: char, rest: Seq<char>, max: nat)
    requires
        number::all_digits(digits),
    ensures
        number::read_number(Seq::empty(), max) == Err::<nat, NumberError>(NumberError::Empty),
        number::digits_value(digits) > max ==> number::read_number(digits, max) == Err::<
            nat,
            NumberError,
        >(NumberError::TooLarge),
        number::digits_value(digits) <= max && !('0' <= c <= '9') ==> number::read_number(
            digits.push(c) + rest,
            max,
        ) == Err::<nat, NumberError>(NumberError::InvalidDigit),
        number::digits_value(digits) <= max ==> number::read_number(digits, max) == Ok::<
            nat,
            NumberError,
        >(number::digits_value(digits)),
{
    assert(number::is_digit(digits[0]));
    number::law_number_accepted(digits, max);
    if number::digits_value(digits) > max {
        lemma_too_large(digits, max);
    }
    if number::digits_value(digits) <= max && !('0' <= c <= '9') {
        let s = digits.push(c);
        let all = s + rest;
        assert(s.drop_last() =~= digits);
        assert(number::read_digits(digits, max) == number::read_number(digits, max));
        assert(all[0] == digits[0]);
        assert(all.len() >= 2);
        lemma_reading_stops(s, rest, max);
    }
}

proof fn lemma_too_large(digits: Seq<char>, max: nat)
    requires
        forall|i: int| 0 <= i < digits.len() ==> number::is_digit(#[trigger] digits[i]),
        number::read_digits(digits, max) is Err,
    ensures
        number::read_digits(digits, max) == Err::<nat, NumberError>(NumberError::TooLarge),
    decreases digits.len(),
{
    if digits.len() > 0 {
        let before = digits.drop_last();
        assert(number::is_digit(digits[digits.len() - 1]));
        assert forall|i: int| 0 <= i < before.len() implies number::is_digit(
            #[trigger] before[i],
        ) by {
            assert(before[i] == digits[i]);
        }
        if number::read_digits(before, max) is Err {
            lemma_too_large(before, max);
        }
    }
}

proof fn lemma_reading_stops(s: Seq<char>, rest: Seq<char>, max: nat)
    requires
        number::read_digits(s, max) is Err,
    ensures
        number::read_digits(s + rest, max) == number::read_digits(s, max),
    decreases rest.len(),
{
    if rest.len() == 0 {
        assert(s + rest =~= s);
    } else {
        assert((s + rest).drop_last() =~= s + rest.drop_last());
        lemma_reading_stops(s, rest.drop_last(), max);
    }
}

/// A configured number is the number that its text stands for. A text that
/// stands for none is reported under the key, with the reason.
pub proof fn law_configured_numbers(value: Seq<char>, key: Seq<char>, max: nat)
    ensures
        match number::config_number(value, key, max) {
            Ok(n) => number::read_number(value, max) == Ok::<nat, NumberError>(n),
            Err(failure) => failure matches error::Failure::BadNumber { key: k, cause } && k == key
                && number::read_number(value, max) == Err::<nat, NumberError>(cause),
        },
{
}

// ---------------------------------------------------------------- hexadecimal

/// The sixteen digits and their values, in either case.
pub proof fn law_hexadecimal_digits(c: char)
    ensures
        '0' <= c <= '9' ==> hex::hex_value(c) == Some((c as int - '0' as int) as u8),
        'a' <= c <= 'f' ==> hex::hex_value(c) == Some((c as int - 'a' as int + 10) as u8),
        'A' <= c <= 'F' ==> hex::hex_value(c) == Some((c as int - 'A' as int + 10) as u8),
        !('0' <= c <= '9') && !('a' <= c <= 'f') && !('A' <= c <= 'F') ==> hex::hex_value(c)
            is None,
{
}

/// Each byte is written as two digits in lower case, the first of which counts
/// sixteen times.
pub proof fn law_bytes_in_hexadecimal(bytes: Seq<u8>, i: int)
    requires
        0 <= i < bytes.len(),
    ensures
        hex::hex_text(bytes).len() == 2 * bytes.len(),
        hex::hex_value(hex::hex_text(bytes)[2 * i]) == Some((bytes[i] / 16) as u8),
        hex::hex_value(hex::hex_text(bytes)[2 * i + 1]) == Some((bytes[i] % 16) as u8),
        !('A' <= hex::hex_text(bytes)[2 * i] <= 'F'),
        !('A' <= hex::hex_text(bytes)[2 * i + 1] <= 'F'),
    decreases bytes.len(),
{
    hex::lemma_hex_text(bytes);
    let rest = bytes.drop_first();
    let s = hex::hex_text(bytes);
    if i > 0 {
        law_bytes_in_hexadecimal(rest, i - 1);
        assert(rest[i - 1] == bytes[i]);
        assert(s[2 * i] == hex::hex_text(rest)[2 * (i - 1)]);
        assert(s[2 * i + 1] == hex::hex_text(rest)[2 * (i - 1) + 1]);
    }
}

/// An even number of digits stands for half as many bytes, each of two digits,
/// the first of which counts sixteen times.
pub proof fn law_hexadecimal_bytes(s: Seq<char>)
    requires
        s.len() % 2 == 0,
        forall|i: int| 0 <= i < s.len() ==> hex::hex_value(#[trigger] s[i]) is Some,
    ensures
        hex::hex_splits(s),
        hex::hex_bytes(s) matches Ok(bytes) && bytes.len() * 2 == s.len() && forall|i: int|
            #![trigger bytes[i]]
            0 <= i < bytes.len() ==> bytes[i] == 16 * hex::hex_value(s[2 * i])->0 + hex::hex_value(
                s[2 * i + 1],
            )->0,
{
    assert forall|i: int| 0 <= i < s.len() implies !hex::is_separator(#[trigger] s[i])
        && hex::utf8_width(s[i]) == 1 by {
        assert(hex::hex_value(s[i]) is Some);
    }
    hex::lemma_no_separators(s);
    lemma_pairs(s);
}

proof fn lemma_pairs(s: Seq<char>)
    requires
        s.len() % 2 == 0,
        forall|i: int| 0 <= i < s.len() ==> hex::hex_value(#[trigger] s[i]) is Some,
    ensures
        hex::pairs_split(s),
        hex::hex_pairs(s) matches Ok(bytes) && bytes.len() * 2 == s.len() && forall|i: int|
            #![trigger bytes[i]]
            0 <= i < bytes.len() ==> bytes[i] == 16 * hex::hex_value(s[2 * i])->0 + hex::hex_value(
                s[2 * i + 1],
            )->0,
    decreases s.len(),
{
    if s.len() > 0 {
        let rest = s.skip(2);
        assert forall|i: int| 0 <= i < rest.len() implies hex::hex_value(
            #[trigger] rest[i],
        ) is Some by {
            assert(rest[i] == s[i + 2]);
        }
        lemma_pairs(rest);
        assert(hex::hex_value(s[0]) is Some && hex::hex_value(s[1]) is Some);
        assert(s[0] != '+');
        assert(hex::hex_value(s[0])->0 < 16 && hex::hex_value(s[1])->0 < 16);
        let bytes = hex::hex_pairs(s)->Ok_0;
        let tail = hex::hex_pairs(rest)->Ok_0;
        assert forall|i: int| 0 <= i < bytes.len() implies #[trigger] bytes[i] == 16
            * hex::hex_value(s[2 * i])->0 + hex::hex_value(s[2 * i + 1])->0 by {
            if i > 0 {
                assert(bytes[i] == tail[i - 1]);
                assert(rest[2 * (i - 1)] == s[2 * i]);
                assert(rest[2 * (i - 1) + 1] == s[2 * i + 1]);
            }
        }
    }
}

/// White space and colons may stand anywhere among the digits.
pub proof fn law_separators_are_ignored(a: Seq<char>, c: char, b: Seq<char>)
    requires
        c == ' ' || c == '\t' || c == '\n' || c == '\u{c}' || c == '\r' || c == ':',
    ensures
        hex::hex_bytes(a.push(c) + b) == hex::hex_bytes(a + b),
        hex::hex_splits(a.push(c) + b) == hex::hex_splits(a + b),
{
    lemma_filter_add(a.push(c), b);
    lemma_filter_add(a, b);
    reveal(Seq::filter);
    assert(a.push(c).drop_last() =~= a);
    assert(hex::without_separators(a.push(c)) =~= hex::without_separators(a));
}

proof fn lemma_filter_add(a: Seq<char>, b: Seq<char>)
    ensures
        hex::without_separators(a + b) == hex::without_separators(a) + hex::without_separators(b),
    decreases b.len(),
{
    reveal(Seq::filter);
    if b.len() == 0 {
        assert(a + b =~= a);
        assert(hex::without_separators(b) =~= Seq::empty());
        assert(hex::without_separators(a) + hex::without_separators(b)
            =~= hex::without_separators(a));
    } else {
        assert((a + b).drop_last() =~= a + b.drop_last());
        assert((a + b).last() == b.last());
        lemma_filter_add(a, b.drop_last());
        assert(hex::without_separators(a + b) =~= hex::without_separators(a)
            + hex::without_separators(b));
    }
}

/// No other character of ASCII is left out of the digits.
pub proof fn law_other_characters_count(s: Seq<char>)
    requires
        forall|i: int| 0 <= i < s.len() ==> '!' <= #[trigger] s[i] <= '~' && s[i] != ':',
    ensures
        s.len() % 2 == 1 ==> hex::hex_bytes(s) == Err::<Seq<u8>, error::Failure>(
            error::Failure::OddHexLength,
        ),
        hex::hex_splits(s),
        s.len() % 2 == 0 ==> hex::hex_bytes(s) != Err::<Seq<u8>, error::Failure>(
            error::Failure::OddHexLength,
        ),
        s.len() > 0 && s.len() % 2 == 0 && s[0] != '+' && (hex::hex_value(s[0]) is None
            || hex::hex_value(s[1]) is None) ==> hex::hex_bytes(s) == Err::<
            Seq<u8>,
            error::Failure,
        >(error::Failure::BadHexByte { piece: seq![s[0], s[1]] }),
{
    assert forall|i: int| 0 <= i < s.len() implies !hex::is_separator(#[trigger] s[i])
        && hex::utf8_width(s[i]) == 1 by {
        assert('!' <= s[i] <= '~');
    }
    hex::lemma_no_separators(s);
    if s.len() % 2 == 0 {
        lemma_ascii_splits(s);
        lemma_pairs_name_a_piece(s);
    }
}

proof fn lemma_ascii_splits(s: Seq<char>)
    requires
        s.len() % 2 == 0,
        forall|i: int| 0 <= i < s.len() ==> hex::utf8_width(#[trigger] s[i]) == 1,
    ensures
        hex::pairs_split(s),
    decreases s.len(),
{
    if s.len() > 0 {
        assert(hex::utf8_width(s[0]) == 1 && hex::utf8_width(s[1]) == 1);
        let rest = s.skip(2);
        assert forall|i: int| 0 <= i < rest.len() implies hex::utf8_width(
            #[trigger] rest[i],
        ) == 1 by {
            assert(rest[i] == s[i + 2]);
        }
        lemma_ascii_splits(rest);
    }
}

proof fn lemma_pairs_name_a_piece(s: Seq<char>)
    ensures
        hex::hex_pairs(s) != Err::<Seq<u8>, error::Failure>(error::Failure::OddHexLength),
    decreases s.len(),
{
    if s.len() > 1 {
        lemma_pairs_name_a_piece(s.skip(2));
    }
}

/// A pair that is no number is reported, whatever pairs of digits stand before
/// it and whatever follows.
pub proof fn law_the_first_bad_pair_is_named(bytes: Seq<u8>, a: char, b: char, rest: Seq<char>)
    requires
        '!' <= a <= '~' && a != ':' && a != '+',
        '!' <= b <= '~' && b != ':',
        hex::hex_value(a) is None || hex::hex_value(b) is None,
        rest.len() % 2 == 0,
        forall|i: int| 0 <= i < rest.len() ==> '!' <= #[trigger] rest[i] <= '~' && rest[i] != ':',
    ensures
        hex::hex_bytes(hex::hex_text(bytes) + seq![a, b] + rest) == Err::<
            Seq<u8>,
            error::Failure,
        >(error::Failure::BadHexByte { piece: seq![a, b] }),
{
    let head = hex::hex_text(bytes);
    let s = head + seq![a, b] + rest;
    assert(head.len() == 2 * bytes.len()) by {
        hex::lemma_hex_text(bytes);
    }
    assert(s.len() % 2 == 0);
    assert forall|i: int| 0 <= i < s.len() implies '!' <= #[trigger] s[i] <= '~' && s[i] != ':' by {
        if i < head.len() {
            lemma_visible_hex(bytes, i);
        } else if i >= head.len() + 2 {
            assert(s[i] == rest[i - head.len() - 2]);
        }
    }
    lemma_visible_widths(s);
    lemma_bad_pair(bytes, a, b, rest);
}

proof fn lemma_visible_widths(s: Seq<char>)
    requires
        forall|i: int| 0 <= i < s.len() ==> '!' <= #[trigger] s[i] <= '~' && s[i] != ':',
    ensures
        hex::without_separators(s) == s,
        hex::byte_len(s) == s.len(),
{
    assert forall|i: int| 0 <= i < s.len() implies !hex::is_separator(#[trigger] s[i])
        && hex::utf8_width(s[i]) == 1 by {
        assert('!' <= s[i] <= '~');
    }
    hex::lemma_no_separators(s);
}

proof fn lemma_visible_hex(bytes: Seq<u8>, i: int)
    requires
        0 <= i < hex::hex_text(bytes).len(),
    ensures
        '!' <= hex::hex_text(bytes)[i] <= '~' && hex::hex_text(bytes)[i] != ':',
{
    hex::lemma_hex_digits(bytes);
    assert(hex::hex_value(hex::hex_text(bytes)[i]) is Some);
}

proof fn lemma_bad_pair(bytes: Seq<u8>, a: char, b: char, rest: Seq<char>)
    requires
        a != '+',
        hex::utf8_width(a) == 1,
        hex::hex_value(a) is None || hex::hex_value(b) is None,
    ensures
        hex::hex_pairs(hex::hex_text(bytes) + seq![a, b] + rest) == Err::<
            Seq<u8>,
            error::Failure,
        >(error::Failure::BadHexByte { piece: seq![a, b] }),
    decreases bytes.len(),
{
    let s = hex::hex_text(bytes) + seq![a, b] + rest;
    if bytes.len() == 0 {
        assert(s[0] == a && s[1] == b);
    } else {
        let tail = bytes.drop_first();
        lemma_bad_pair(tail, a, b, rest);
        law_bytes_in_hexadecimal(bytes, 0);
        assert(s.skip(2) =~= hex::hex_text(tail) + seq![a, b] + rest);
        assert(s[0] == hex::hex_text(bytes)[0] && s[1] == hex::hex_text(bytes)[1]);
        hex::lemma_hex_text(bytes);
        assert(hex::utf8_width(s[0]) == 1);
    }
}

// ----------------------------------------------------------------------- case

/// In a text of ASCII each letter `a` to `z` takes the place that `A` to `Z` has
/// thirty-two characters before it, or the other way round, and every other
/// character stays.
pub proof fn law_ascii_case(s: Seq<char>, i: int)
    requires
        forall|j: int| 0 <= j < s.len() ==> (#[trigger] s[j] as u32) < 128,
        0 <= i < s.len(),
    ensures
        text::uppercase(s).len() == s.len(),
        text::lowercase(s).len() == s.len(),
        'a' <= s[i] <= 'z' ==> text::uppercase(s)[i] as int == s[i] as int - 32,
        !('a' <= s[i] <= 'z') ==> text::uppercase(s)[i] == s[i],
        'A' <= s[i] <= 'Z' ==> text::lowercase(s)[i] as int == s[i] as int + 32,
        !('A' <= s[i] <= 'Z') ==> text::lowercase(s)[i] == s[i],
{
    assert(text::all_ascii(s));
}

/// Two texts are the same in any case exactly if at each place they have the same
/// character, or the same letter in another case.
pub proof fn law_same_in_any_case(a: Seq<char>, b: Seq<char>)
    ensures
        text::same_ignoring_ascii_case(a, b) <==> a.len() == b.len() && forall|i: int|
            #![trigger a[i]]
            0 <= i < a.len() ==> a[i] == b[i] || ('a' <= a[i] <= 'z' && b[i] as int == a[i] as int
                - 32) || ('A' <= a[i] <= 'Z' && b[i] as int == a[i] as int + 32),
{
    assert forall|x: char, y: char|
        #![trigger text::ascii_lower(x), text::ascii_lower(y)]
        text::ascii_lower(x) == text::ascii_lower(y) <==> x == y || ('a' <= x <= 'z' && y as int
            == x as int - 32) || ('A' <= x <= 'Z' && y as int == x as int + 32) by {}
    if text::same_ignoring_ascii_case(a, b) {
        assert forall|i: int| 0 <= i < a.len() implies #[trigger] a[i] == b[i] || ('a' <= a[i]
            <= 'z' && b[i] as int == a[i] as int - 32) || ('A' <= a[i] <= 'Z' && b[i] as int
            == a[i] as int + 32) by {
            assert(text::ascii_lower(a[i]) == text::ascii_lower(b[i]));
        }
    }
    if a.len() == b.len() && forall|i: int|
        #![trigger a[i]]
        0 <= i < a.len() ==> a[i] == b[i] || ('a' <= a[i] <= 'z' && b[i] as int == a[i] as int - 32)
            || ('A' <= a[i] <= 'Z' && b[i] as int == a[i] as int + 32) {
        assert forall|i: int| 0 <= i < a.len() implies text::ascii_lower(#[trigger] a[i])
            == text::ascii_lower(b[i]) by {}
    }
}

// ---------------------------------------------------------------------- lines

/// Which code points are white space: a blank, what moves to another column or
/// line, and their wider relatives. None of them can be seen.
pub proof fn law_white_space(c: char)
    ensures
        c == ' ' || c == '\t' || c == '\n' || c == '\r' ==> text::is_space(c),
        '!' <= c <= '~' ==> !text::is_space(c),
        text::is_space(c) <==> ({
            let n = c as u32;
            ||| 9 <= n <= 13
            ||| n == 32
            ||| n == 133
            ||| n == 160
            ||| n == 5760
            ||| 8192 <= n <= 8202
            ||| 8232 <= n <= 8233
            ||| n == 8239
            ||| n == 8287
            ||| n == 12288
        }),
{
}

proof fn lemma_trim_around(a: Seq<char>, s: Seq<char>, b: Seq<char>)
    requires
        forall|i: int| 0 <= i < a.len() ==> text::is_space(#[trigger] a[i]),
        forall|i: int| 0 <= i < b.len() ==> text::is_space(#[trigger] b[i]),
        text::is_trimmed(s),
    ensures
        text::trim(a + s + b) == s,
    decreases a.len() + b.len(),
{
    let all = a + s + b;
    if a.len() > 0 {
        assert(text::is_space(a[0]));
        assert(all[0] == a[0]);
        let rest = a.drop_first();
        assert forall|i: int| 0 <= i < rest.len() implies text::is_space(#[trigger] rest[i]) by {
            assert(rest[i] == a[i + 1]);
        }
        assert(all.drop_first() =~= rest + s + b);
        lemma_trim_around(rest, s, b);
    } else if b.len() > 0 {
        if s.len() > 0 {
            assert(all[0] == s[0]);
            assert(text::trim_start(all) == all);
            assert(text::is_space(b[b.len() - 1]));
            assert(all.last() == b.last());
            let rest = b.drop_last();
            assert forall|i: int| 0 <= i < rest.len() implies text::is_space(
                #[trigger] rest[i],
            ) by {
                assert(rest[i] == b[i]);
            }
            lemma_trim_around(a, s, rest);
            assert(all.drop_last() =~= a + s + rest);
            assert((a + s + rest)[0] == s[0]);
            assert(text::trim_start(a + s + rest) == a + s + rest);
        } else {
            let rest = b.drop_first();
            assert(text::is_space(b[0]));
            assert(all[0] == b[0]);
            assert forall|i: int| 0 <= i < rest.len() implies text::is_space(
                #[trigger] rest[i],
            ) by {
                assert(rest[i] == b[i + 1]);
            }
            assert(all.drop_first() =~= a + s + rest);
            lemma_trim_around(a, s, rest);
        }
    } else {
        assert(all =~= s);
        text::lemma_trim_fixed(s);
    }
}

/// Trimming takes off exactly the white space around a text.
pub proof fn law_trim(a: Seq<char>, s: Seq<char>, b: Seq<char>)
    requires
        forall|i: int| 0 <= i < a.len() ==> text::is_space(#[trigger] a[i]),
        forall|i: int| 0 <= i < b.len() ==> text::is_space(#[trigger] b[i]),
        s.len() > 0 ==> !text::is_space(s[0]) && !text::is_space(s.last()),
    ensures
        text::trim(a + s + b) == s,
{
    lemma_trim_around(a, s, b);
}

/// A line sets the key before the first `=` to the value after it, with white
/// space around either left out.
pub proof fn law_a_line_sets_a_key(
    a: Seq<char>,
    key: Seq<char>,
    b: Seq<char>,
    c: Seq<char>,
    value: Seq<char>,
    d: Seq<char>,
)
    requires
        forall|i: int| 0 <= i < a.len() ==> text::is_space(#[trigger] a[i]),
        forall|i: int| 0 <= i < b.len() ==> text::is_space(#[trigger] b[i]),
        forall|i: int| 0 <= i < c.len() ==> text::is_space(#[trigger] c[i]),
        forall|i: int| 0 <= i < d.len() ==> text::is_space(#[trigger] d[i]),
        key.len() > 0,
        !text::is_space(key[0]) && !text::is_space(key.last()),
        key[0] != '#',
        !key.contains('='),
        value.len() > 0 ==> !text::is_space(value[0]) && !text::is_space(value.last()),
    ensures
        text::line_entry(a + key + b + seq!['='] + c + value + d) == Some((key, value)),
{
    let none = Seq::<char>::empty();
    let line = a + key + b + seq!['='] + c + value + d;
    let (tail, left) = if value.len() > 0 {
        (c + value, d)
    } else {
        (none, c + d)
    };
    let inner = key + b + seq!['='] + tail;
    assert forall|i: int| 0 <= i < left.len() implies text::is_space(#[trigger] left[i]) by {
        if value.len() == 0 {
            if i < c.len() {
                assert(left[i] == c[i]);
            } else {
                assert(left[i] == d[i - c.len()]);
            }
        }
    }
    assert(line =~= a + inner + left);
    assert(inner[0] == key[0]);
    assert(inner.last() == (if value.len() > 0 {
        value.last()
    } else {
        '='
    }));
    lemma_trim_around(a, inner, left);
    let n = (key.len() + b.len()) as int;
    assert forall|i: int| 0 <= i < n implies inner[i] != '=' by {
        if i < key.len() {
            assert(inner[i] == key[i]);
            assert(key.contains(key[i]));
        } else {
            assert(inner[i] == b[i - key.len()]);
            assert(text::is_space(b[i - key.len()]));
        }
    }
    assert(inner[n] == '=');
    text::lemma_first_index_is(inner, '=', n);
    assert(inner.take(n) =~= none + key + b);
    lemma_trim_around(none, key, b);
    if value.len() > 0 {
        assert(inner.skip(n + 1) =~= c + value + none);
        lemma_trim_around(c, value, none);
    } else {
        assert(inner.skip(n + 1) =~= none + none + none);
        lemma_trim_around(none, none, none);
        assert(value =~= none);
    }
}

/// A line that is a comment, or holds no `=`, or nothing but white space, says
/// nothing.
pub proof fn law_other_lines_say_nothing(a: Seq<char>, s: Seq<char>)
    requires
        forall|i: int| 0 <= i < a.len() ==> text::is_space(#[trigger] a[i]),
    ensures
        text::line_entry(a) is None,
        text::line_entry(a + seq!['#'] + s) is None,
        !s.contains('=') ==> text::line_entry(s) is None,
{
    let none = Seq::<char>::empty();
    assert(a + none + none =~= a);
    lemma_trim_around(a, none, none);
    let t = text::trim(s);
    text::lemma_trim(s);
    text::lemma_first_index(t, '=');
    if !s.contains('=') {
        assert(!t.contains('='));
        let n = text::first_index(t, '=');
        if n < t.len() {
            assert(t.contains(t[n]));
        }
    }
    lemma_comment(a, s);
}

proof fn lemma_comment(a: Seq<char>, s: Seq<char>)
    requires
        forall|i: int| 0 <= i < a.len() ==> text::is_space(#[trigger] a[i]),
    ensures
        ({
            let t = text::trim(a + seq!['#'] + s);
            t.len() > 0 && t[0] == '#'
        }),
    decreases a.len(),
{
    let all = a + seq!['#'] + s;
    if a.len() > 0 {
        assert(text::is_space(a[0]));
        assert(all[0] == a[0]);
        let rest = a.drop_first();
        assert forall|i: int| 0 <= i < rest.len() implies text::is_space(#[trigger] rest[i]) by {
            assert(rest[i] == a[i + 1]);
        }
        assert(all.drop_first() =~= rest + seq!['#'] + s);
        lemma_comment(rest, s);
    } else {
        assert(all[0] == '#');
        assert(text::trim_start(all) == all);
        text::lemma_trim_end(all);
        let t = text::trim_end(all);
        if t.len() == 0 {
            assert(text::is_space(all[0]));
        }
        assert(t[0] == all.take(t.len() as int)[0]);
    }
}

// ---------------------------------------------------------------------- order

/// The first character in which two texts differ decides which comes first, and
/// a text comes before every text that it begins.
pub proof fn law_text_order(common: Seq<char>, a: char, b: char, x: Seq<char>, y: Seq<char>)
    requires
        a < b,
    ensures
        text::text_le(common + seq![a] + x, common + seq![b] + y),
        !text::text_le(common + seq![b] + y, common + seq![a] + x),
        text::text_le(common, common + x),
        x.len() > 0 ==> !text::text_le(common + x, common),
    decreases common.len(),
{
    let left = common + seq![a] + x;
    let right = common + seq![b] + y;
    if common.len() > 0 {
        let rest = common.drop_first();
        law_text_order(rest, a, b, x, y);
        assert(left.drop_first() =~= rest + seq![a] + x);
        assert(right.drop_first() =~= rest + seq![b] + y);
        assert((common + x).drop_first() =~= rest + x);
        assert(left[0] == common[0] && right[0] == common[0] && (common + x)[0] == common[0]);
    } else {
        assert(left[0] == a && right[0] == b);
    }
}

/// One more text is joined to the others by one more separator; a single text is
/// joined by none.
pub proof fn law_joined(parts: Seq<Seq<char>>, part: Seq<char>, separator: Seq<char>)
    ensures
        text::joined(Seq::empty(), separator).len() == 0,
        text::joined(seq![part], separator) == part,
        parts.len() > 0 ==> text::joined(parts.push(part), separator) == text::joined(
            parts,
            separator,
        ) + separator + part,
{
    assert(parts.push(part).drop_last() =~= parts);
}

// -------------------------------------------------------------------- strings

/// A string is spoken of by its characters, one for one: in a list each at its
/// place, and where there may be none, only if there is one.
pub proof fn law_strings_are_their_texts(
    parts: Seq<String>,
    entries: Seq<(String, String)>,
    i: int,
    s: String,
    slice: &str,
)
    ensures
        text::texts(parts).len() == parts.len(),
        0 <= i < parts.len() ==> text::texts(parts)[i] == parts[i]@,
        text::pairs(entries).len() == entries.len(),
        0 <= i < entries.len() ==> text::pairs(entries)[i] == (entries[i].0@, entries[i].1@),
        text::opt_text(Some(s)) == Some(s@),
        text::opt_text(None) is None,
        text::opt_str(Some(slice)) == Some(slice@),
        text::opt_str(None) is None,
{
}

} // verus!
