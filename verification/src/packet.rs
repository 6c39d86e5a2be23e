//! The packets of the KS05 floor lamp: what is written to it, and what its
//! state notification says.

use crate::error;
use crate::error::{concat2, LampError};
use crate::hex;
use crate::hex::parse_hex;
use crate::number;
use crate::number::{clamp_percent, decimal_text, signed_text};
use crate::text;
use crate::text::{chars_of, string_of};
use vstd::prelude::*;

verus! {

/// Whether a zone of the lamp is switched on.
#[derive(Clone, Copy, Debug, PartialEq, Eq, Structural)]
pub enum SwitchState {
    On,
    Off,
}

/// The lamp's state as its notification gives it.
#[derive(Debug, PartialEq, Eq)]
pub struct LiveFloorState {
    pub dynamic: bool,
    pub rgb: bool,
    pub red: u8,
    pub green: u8,
    pub blue: u8,
    pub cw: u8,
    pub brightness: u8,
    pub speed: u8,
    pub model: i16,
    pub top: SwitchState,
    pub bottom: SwitchState,
}

/// `on` or `off`.
pub open spec fn switch_text(state: SwitchState) -> Seq<char> {
    match state {
        SwitchState::On => "on"@,
        SwitchState::Off => "off"@,
    }
}

impl SwitchState {
    /// `on` or `off`.
    pub fn as_str(self) -> (r: &'static str)
        ensures
            r@ == switch_text(self),
    {
        match self {
            SwitchState::On => "on",
            SwitchState::Off => "off",
        }
    }
}

// --------------------------------------------------------------- what is sent

/// The byte that stands for a switch state.
pub open spec fn switch_byte(state: SwitchState) -> u8 {
    match state {
        SwitchState::On => 0xF0u8,
        SwitchState::Off => 0x0Fu8,
    }
}

/// Switches the top zone.
pub open spec fn top_packet(state: SwitchState) -> Seq<u8> {
    seq![0x5Bu8, switch_byte(state), 0x01u8, 0xB5u8]
}

/// Switches the bottom zone.
pub open spec fn bottom_packet(state: SwitchState) -> Seq<u8> {
    seq![0x5Bu8, switch_byte(state), 0x02u8, 0xB5u8]
}

/// Sets the two white channels and the brightness, each a percentage.
pub open spec fn temp_packet(warm: u8, cool: u8, brightness: u8) -> Seq<u8> {
    seq![
        0x5Au8,
        0x02u8,
        number::percent(warm as int) as u8,
        number::percent(cool as int) as u8,
        number::percent(brightness as int) as u8,
        0x00u8,
        0xA5u8,
    ]
}

/// Sets a colour and the brightness, a percentage.
pub open spec fn rgb_packet(red: u8, green: u8, blue: u8, brightness: u8) -> Seq<u8> {
    seq![
        0x5Au8,
        0x00u8,
        0x01u8,
        red,
        green,
        blue,
        0x00u8,
        number::percent(brightness as int) as u8,
        0x00u8,
        0xA5u8,
    ]
}

/// Sets the white channel and the brightness, a percentage.
pub open spec fn cw_packet(value: u8, brightness: u8) -> Seq<u8> {
    seq![
        0x5Au8,
        0x00u8,
        0x02u8,
        0x00u8,
        0x00u8,
        0x00u8,
        value,
        number::percent(brightness as int) as u8,
        0x00u8,
        0xA5u8,
    ]
}

/// Asks the lamp for its state.
pub open spec fn get_state_packet() -> Seq<u8> {
    seq![0x5Fu8, 0x01u8, 0x00u8, 0xF5u8]
}

/// Switches the top zone.
pub fn top_command(state: SwitchState) -> (r: Vec<u8>)
    ensures
        r@ == top_packet(state),
{
    let byte: u8 = match state {
        SwitchState::On => 0xF0,
        SwitchState::Off => 0x0F,
    };
    vec![0x5B, byte, 0x01, 0xB5]
}

/// Switches the bottom zone.
pub fn bottom_command(state: SwitchState) -> (r: Vec<u8>)
    ensures
        r@ == bottom_packet(state),
{
    let byte: u8 = match state {
        SwitchState::On => 0xF0,
        SwitchState::Off => 0x0F,
    };
    vec![0x5B, byte, 0x02, 0xB5]
}

/// Sets the two white channels and the brightness.
pub fn temp_command(warm: u8, cool: u8, brightness: u8) -> (r: Vec<u8>)
    ensures
        r@ == temp_packet(warm, cool, brightness),
{
    vec![
        0x5A,
        0x02,
        clamp_percent(warm),
        clamp_percent(cool),
        clamp_percent(brightness),
        0x00,
        0xA5,
    ]
}

/// Sets a colour and the brightness.
pub fn rgb_command(red: u8, green: u8, blue: u8, brightness: u8) -> (r: Vec<u8>)
    ensures
        r@ == rgb_packet(red, green, blue, brightness),
{
    vec![0x5A, 0x00, 0x01, red, green, blue, 0x00, clamp_percent(brightness), 0x00, 0xA5]
}

/// Sets the white channel and the brightness.
pub fn cw_command(value: u8, brightness: u8) -> (r: Vec<u8>)
    ensures
        r@ == cw_packet(value, brightness),
{
    vec![0x5A, 0x00, 0x02, 0x00, 0x00, 0x00, value, clamp_percent(brightness), 0x00, 0xA5]
}

/// Asks the lamp for its state.
pub fn get_state_command() -> (r: Vec<u8>)
    ensures
        r@ == get_state_packet(),
{
    vec![0x5F, 0x01, 0x00, 0xF5]
}

// -------------------------------------------------------------------- colours

/// A colour text without the `#` that it may begin with.
pub open spec fn without_hash(value: Seq<char>) -> Seq<char> {
    if value.len() > 0 && value[0] == '#' {
        value.skip(1)
    } else {
        value
    }
}

/// Exactly six hexadecimal digits.
pub open spec fn is_rgb_text(s: Seq<char>) -> bool {
    s.len() == 6 && forall|i: int| 0 <= i < 6 ==> hex::hex_value(#[trigger] s[i]) is Some
}

/// The colour that a text gives: exactly six hexadecimal digits, after an
/// optional `#`. Any other text that can be read as bytes is refused for its
/// length; one that cannot is refused as `hex_bytes` refuses it.
pub open spec fn rgb_value(value: Seq<char>) -> Result<(u8, u8, u8), error::Failure> {
    match hex::hex_bytes(without_hash(value)) {
        Err(failure) => Err(failure),
        Ok(bytes) => if is_rgb_text(without_hash(value)) {
            Ok((bytes[0], bytes[1], bytes[2]))
        } else {
            Err(error::Failure::RgbLength)
        },
    }
}

/// The colour text can be cut into pieces of two bytes as far as it is read.
pub open spec fn rgb_splits(value: Seq<char>) -> bool {
    hex::hex_splits(without_hash(value))
}

fn strip_hash(value: &str) -> (r: String)
    ensures
        r@ == without_hash(value@),
{
    let chars = chars_of(value);
    if chars.len() > 0 && chars[0] == '#' {
        let rest = vstd::slice::slice_subrange(chars.as_slice(), 1, chars.len());
        assert(rest@ =~= value@.skip(1));
        string_of(rest)
    } else {
        value.to_owned()
    }
}

fn six_digits(value: &str) -> (r: bool)
    ensures
        r == is_rgb_text(value@),
{
    let chars = chars_of(value);
    if chars.len() != 6 {
        return false;
    }
    let mut i: usize = 0;
    while i < 6
        invariant
            i <= 6,
            chars@ == value@,
            chars.len() == 6,
            forall|j: int| 0 <= j < i ==> hex::hex_value(#[trigger] value@[j]) is Some,
        decreases 6 - i,
    {
        if hex::hex_digit_value(chars[i]).is_none() {
            assert(hex::hex_value(value@[i as int]) is None);
            return false;
        }
        i += 1;
    }
    true
}

proof fn lemma_rgb_text(s: Seq<char>)
    requires
        is_rgb_text(s),
    ensures
        hex::hex_splits(s),
        hex::hex_bytes(s) is Ok,
        hex::hex_bytes(s)->Ok_0.len() == 3,
{
    assert forall|i: int| 0 <= i < s.len() implies !hex::is_separator(#[trigger] s[i])
        && hex::utf8_width(s[i]) == 1 && s[i] != '+' by {
        assert(hex::hex_value(s[i]) is Some);
    }
    hex::lemma_no_separators(s);
    let second = s.skip(2);
    let third = second.skip(2);
    assert(s[0] != '+' && s[2] != '+' && s[4] != '+');
    assert(second[0] == s[2] && second[1] == s[3]);
    assert(third[0] == s[4] && third[1] == s[5]);
    assert(hex::hex_value(s[0]) is Some && hex::hex_value(s[1]) is Some);
    assert(hex::hex_value(s[2]) is Some && hex::hex_value(s[3]) is Some);
    assert(hex::hex_value(s[4]) is Some && hex::hex_value(s[5]) is Some);
    assert(third.skip(2) =~= Seq::empty());
    assert(hex::hex_pairs(third.skip(2)) == Ok::<Seq<u8>, error::Failure>(Seq::empty()));
    assert(hex::pairs_split(third.skip(2)));
    assert(hex::hex_pairs(third) is Ok && hex::hex_pairs(third)->Ok_0.len() == 1);
    assert(hex::pairs_split(third));
    assert(hex::hex_pairs(second) is Ok && hex::hex_pairs(second)->Ok_0.len() == 2);
    assert(hex::pairs_split(second));
}

/// Whether a colour text can be cut into pieces of two bytes as far as it is
/// read.
pub fn splits_into_rgb_pairs(value: &str) -> (r: bool)
    ensures
        r == rgb_splits(value@),
{
    hex::splits_into_hex_pairs(strip_hash(value).as_str())
}

/// The colour that a text gives as `RRGGBB` or `#RRGGBB`.
pub fn parse_rgb_value(value: &str) -> (r: Result<(u8, u8, u8), LampError>)
    requires
        rgb_splits(value@),
    ensures
        match (r, rgb_value(value@)) {
            (Ok(colour), Ok(expected)) => colour == expected,
            (Err(e), Err(failure)) => e@ == failure,
            _ => false,
        },
{
    let value = strip_hash(value);
    let bytes = match parse_hex(value.as_str()) {
        Ok(bytes) => bytes,
        Err(e) => return Err(e),
    };
    if !six_digits(value.as_str()) {
        return Err(LampError::RgbLength);
    }
    proof {
        lemma_rgb_text(value@);
    }
    Ok((bytes[0], bytes[1], bytes[2]))
}

/// Sets the colour that a text gives, and the brightness.
pub fn rgb_value_command(value: &str, brightness: u8) -> (r: Result<Vec<u8>, LampError>)
    requires
        rgb_splits(value@),
    ensures
        match (r, rgb_value(value@)) {
            (Ok(packet), Ok((red, green, blue))) => packet@ == rgb_packet(
                red,
                green,
                blue,
                brightness,
            ),
            (Err(e), Err(failure)) => e@ == failure,
            _ => false,
        },
{
    match parse_rgb_value(value) {
        Ok((red, green, blue)) => Ok(rgb_command(red, green, blue, brightness)),
        Err(e) => Err(e),
    }
}

// ----------------------------------------------------------- what is received

/// A byte of a notification read as a switch state.
pub open spec fn packet_switch(value: u8) -> SwitchState {
    if value == 0xF0 {
        SwitchState::On
    } else {
        SwitchState::Off
    }
}

/// What a notification says: it has thirteen bytes or more and begins with
/// `5f02`; any other packet says nothing.
pub open spec fn live_floor_state(bytes: Seq<u8>) -> Option<LiveFloorState> {
    if bytes.len() < 13 || bytes[0] != 0x5F || bytes[1] != 0x02 {
        None
    } else {
        Some(
            LiveFloorState {
                dynamic: bytes[2] == 0x01,
                rgb: bytes[3] == 0x01,
                red: bytes[4],
                green: bytes[5],
                blue: bytes[6],
                cw: bytes[7],
                brightness: bytes[8],
                speed: if bytes[9] > 100 {
                    0
                } else {
                    (100 - bytes[9]) as u8
                },
                model: (bytes[10] - 128) as i16,
                top: packet_switch(bytes[11]),
                bottom: packet_switch(bytes[12]),
            },
        )
    }
}

/// A byte of a notification read as a switch state.
pub fn switch_state_from_packet(value: u8) -> (r: SwitchState)
    ensures
        r == packet_switch(value),
{
    if value == 0xF0 {
        SwitchState::On
    } else {
        SwitchState::Off
    }
}

/// Decodes a state notification.
pub fn parse_live_floor_state(bytes: &[u8]) -> (r: Option<LiveFloorState>)
    ensures
        r == live_floor_state(bytes@),
{
    if bytes.len() < 13 || bytes[0] != 0x5F || bytes[1] != 0x02 {
        return None;
    }
    let slowness: u8 = bytes[9];
    Some(
        LiveFloorState {
            dynamic: bytes[2] == 0x01,
            rgb: bytes[3] == 0x01,
            red: bytes[4],
            green: bytes[5],
            blue: bytes[6],
            cw: bytes[7],
            brightness: bytes[8],
            speed: if slowness > 100 {
                0
            } else {
                100 - slowness
            },
            model: bytes[10] as i16 - 128,
            top: switch_state_from_packet(bytes[11]),
            bottom: switch_state_from_packet(bytes[12]),
        },
    )
}

/// What a white channel value looks like: 0 is the coldest, 255 the warmest.
pub open spec fn cw_label(value: u8) -> Seq<char> {
    if value == 0 {
        "cold"@
    } else if value == 255 {
        "warm"@
    } else if value <= 127 {
        "cold_to_neutral"@
    } else {
        "neutral_to_warm"@
    }
}

/// What a white channel value looks like.
pub fn cw_temperature_label(value: u8) -> (r: &'static str)
    ensures
        r@ == cw_label(value),
{
    if value == 0 {
        "cold"
    } else if value == 255 {
        "warm"
    } else if value <= 127 {
        "cold_to_neutral"
    } else {
        "neutral_to_warm"
    }
}

// ------------------------------------------------------------------- report

/// A number after a label.
pub open spec fn labelled_number(label: Seq<char>, n: nat) -> Seq<char> {
    label + number::decimal(n)
}

/// `true` or `false`.
pub open spec fn bool_text(b: bool) -> Seq<char> {
    if b {
        "true"@
    } else {
        "false"@
    }
}

/// A label and a number.
pub fn number_line(label: &str, n: u64) -> (r: String)
    ensures
        r@ == labelled_number(label@, n as nat),
{
    concat2(label, decimal_text(n).as_str())
}

/// `true` or `false`.
pub fn bool_str(b: bool) -> (r: &'static str)
    ensures
        r@ == bool_text(b),
{
    if b {
        "true"
    } else {
        "false"
    }
}

/// The lines that report a live state. The colour is reported only if the
/// protocol's colour flag is set.
pub open spec fn live_floor_state_lines(state: LiveFloorState) -> Seq<Seq<char>> {
    seq![
        "  decoded_floor_state=available"@,
        "  top="@ + switch_text(state.top),
        "  bottom="@ + switch_text(state.bottom),
        "  mode="@ + (if state.rgb {
            "rgb_or_cw"@
        } else {
            "cw"@
        }),
        "  protocol_rgb_flag="@ + bool_text(state.rgb),
        labelled_number("  cw="@, state.cw as nat),
        "  cw_temperature="@ + cw_label(state.cw),
    ] + (if state.rgb {
        seq![
            "  rgb=#"@ + hex::hex_text(seq![state.red, state.green, state.blue]),
            labelled_number("  red="@, state.red as nat),
            labelled_number("  green="@, state.green as nat),
            labelled_number("  blue="@, state.blue as nat),
        ]
    } else {
        Seq::empty()
    }) + seq![
        labelled_number("  brightness="@, state.brightness as nat),
        "  dynamic="@ + bool_text(state.dynamic),
        labelled_number("  speed="@, state.speed as nat),
        "  model="@ + number::signed_decimal(state.model as int),
        "  trust=live_ble_notification"@,
    ]
}

/// The lines that report a live state.
pub fn live_floor_state_report(state: &LiveFloorState) -> (r: Vec<String>)
    ensures
        text::texts(r@) == live_floor_state_lines(*state),
{
    let mut lines: Vec<String> = Vec::new();
    lines.push("  decoded_floor_state=available".to_owned());
    lines.push(concat2("  top=", state.top.as_str()));
    lines.push(concat2("  bottom=", state.bottom.as_str()));
    lines.push(
        concat2(
            "  mode=",
            if state.rgb {
                "rgb_or_cw"
            } else {
                "cw"
            },
        ),
    );
    lines.push(concat2("  protocol_rgb_flag=", bool_str(state.rgb)));
    lines.push(number_line("  cw=", state.cw as u64));
    lines.push(concat2("  cw_temperature=", cw_temperature_label(state.cw)));
    if state.rgb {
        let colour = hex::hex(vec![state.red, state.green, state.blue].as_slice());
        lines.push(concat2("  rgb=#", colour.as_str()));
        lines.push(number_line("  red=", state.red as u64));
        lines.push(number_line("  green=", state.green as u64));
        lines.push(number_line("  blue=", state.blue as u64));
    }
    lines.push(number_line("  brightness=", state.brightness as u64));
    lines.push(concat2("  dynamic=", bool_str(state.dynamic)));
    lines.push(number_line("  speed=", state.speed as u64));
    lines.push(concat2("  model=", signed_text(state.model as i64).as_str()));
    lines.push("  trust=live_ble_notification".to_owned());
    assert(text::texts(lines@) =~= live_floor_state_lines(*state));
    lines
}

// ---------------------------------------------------------------------- laws

/// A colour text means the same with and without a `#` before it, unless it
/// already begins with one.
pub proof fn law_hash_prefix_is_optional(value: Seq<char>)
    requires
        value.len() > 0 ==> value[0] != '#',
    ensures
        rgb_value(seq!['#'] + value) == rgb_value(value),
        rgb_splits(seq!['#'] + value) == rgb_splits(value),
{
    assert((seq!['#'] + value).skip(1) =~= value);
}

/// A colour is accepted exactly if it is six hexadecimal digits, with or without
/// a `#` before them.
pub proof fn law_a_colour_is_six_digits(value: Seq<char>)
    ensures
        rgb_value(value) is Ok <==> is_rgb_text(without_hash(value)),
        is_rgb_text(without_hash(value)) ==> rgb_splits(value),
{
    if is_rgb_text(without_hash(value)) {
        lemma_rgb_text(without_hash(value));
    }
}

/// A colour written as six hexadecimal digits reads back as itself.
pub proof fn law_rgb_round_trip(red: u8, green: u8, blue: u8)
    ensures
        rgb_splits(hex::hex_text(seq![red, green, blue])),
        rgb_value(hex::hex_text(seq![red, green, blue])) == Ok::<(u8, u8, u8), error::Failure>(
            (red, green, blue),
        ),
{
    let bytes = seq![red, green, blue];
    hex::lemma_hex_text(bytes);
    hex::lemma_hex_digits(bytes);
    hex::law_hex_round_trip(bytes);
    assert(hex::hex_text(bytes)[0] != '#');
}

/// Only the first thirteen bytes of a notification count.
pub proof fn law_live_state_ignores_tail(bytes: Seq<u8>, tail: Seq<u8>)
    requires
        bytes.len() >= 13,
    ensures
        live_floor_state(bytes + tail) == live_floor_state(bytes),
{
}

/// In every packet that sets something the brightness is at most one hundred,
/// whatever was asked for, and asking for more than one hundred is asking for
/// one hundred.
pub proof fn law_brightness_is_clamped(a: u8, b: u8, c: u8, brightness: u8)
    ensures
        temp_packet(a, b, brightness)[4] <= 100,
        rgb_packet(a, b, c, brightness)[7] <= 100,
        cw_packet(a, brightness)[7] <= 100,
        temp_packet(a, b, number::percent(brightness as int) as u8) == temp_packet(
            a,
            b,
            brightness,
        ),
        rgb_packet(a, b, c, number::percent(brightness as int) as u8) == rgb_packet(
            a,
            b,
            c,
            brightness,
        ),
        cw_packet(a, number::percent(brightness as int) as u8) == cw_packet(a, brightness),
{
}

} // verus!
