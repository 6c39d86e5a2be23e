//! What holds of packets byte by byte: which byte of a packet carries what, what
//! each byte of a notification says, and that no byte says anything else.

use crate::hex;
use crate::number;
use crate::packet;
use crate::packet::{LiveFloorState, SwitchState};
use vstd::prelude::*;

verus! {

// ---------------------------------------------------------------- what is sent

/// A packet that switches a zone says in its second byte whether the zone is to
/// be on, and in its third which zone it is. So on and off differ, and so do the
/// zones.
pub proof fn law_switch_packets(state: SwitchState)
    ensures
        packet::top_packet(state).len() == 4,
        packet::bottom_packet(state).len() == 4,
        packet::top_packet(state)[0] == 0x5B,
        packet::bottom_packet(state)[0] == 0x5B,
        state == SwitchState::On <==> packet::top_packet(state)[1] == 0xF0,
        state == SwitchState::Off <==> packet::top_packet(state)[1] == 0x0F,
        state == SwitchState::On <==> packet::bottom_packet(state)[1] == 0xF0,
        state == SwitchState::Off <==> packet::bottom_packet(state)[1] == 0x0F,
        packet::top_packet(state)[2] == 0x01,
        packet::bottom_packet(state)[2] == 0x02,
        packet::top_packet(state)[3] == 0xB5,
        packet::bottom_packet(state)[3] == 0xB5,
        packet::top_packet(SwitchState::On) != packet::top_packet(SwitchState::Off),
        packet::bottom_packet(SwitchState::On) != packet::bottom_packet(SwitchState::Off),
{
    assert(packet::top_packet(SwitchState::On)[1] != packet::top_packet(SwitchState::Off)[1]);
    assert(packet::bottom_packet(SwitchState::On)[1] != packet::bottom_packet(
        SwitchState::Off,
    )[1]);
}

/// The switch that a packet sends is the switch that a notification with the
/// same byte reports.
pub proof fn law_sent_and_received_switches_agree(state: SwitchState)
    ensures
        packet::packet_switch(packet::top_packet(state)[1]) == state,
        packet::packet_switch(packet::bottom_packet(state)[1]) == state,
{
}

/// The white value is the seventh byte of its packet, whatever it is, and no
/// other byte depends on it. So different values have different packets.
pub proof fn law_white_value_is_carried(value: u8, other: u8, brightness: u8)
    ensures
        packet::cw_packet(value, brightness).len() == 10,
        packet::cw_packet(value, brightness)[6] == value,
        packet::cw_packet(other, brightness) == packet::cw_packet(value, brightness).update(
            6,
            other,
        ),
        value != other ==> packet::cw_packet(value, brightness) != packet::cw_packet(
            other,
            brightness,
        ),
{
    assert(packet::cw_packet(other, brightness) =~= packet::cw_packet(value, brightness).update(
        6,
        other,
    ));
    assert(packet::cw_packet(other, brightness)[6] == other);
}

/// The colour is the fourth to the sixth byte of its packet, whatever it is, and
/// no other byte depends on it.
pub proof fn law_colour_is_carried(red: u8, green: u8, blue: u8, r: u8, g: u8, b: u8, level: u8)
    ensures
        packet::rgb_packet(red, green, blue, level).len() == 10,
        packet::rgb_packet(red, green, blue, level)[3] == red,
        packet::rgb_packet(red, green, blue, level)[4] == green,
        packet::rgb_packet(red, green, blue, level)[5] == blue,
        packet::rgb_packet(r, g, b, level) == packet::rgb_packet(red, green, blue, level).update(
            3,
            r,
        ).update(4, g).update(5, b),
{
    assert(packet::rgb_packet(r, g, b, level) =~= packet::rgb_packet(
        red,
        green,
        blue,
        level,
    ).update(3, r).update(4, g).update(5, b));
}

/// The warm and the cool level are the third and the fourth byte of their
/// packet, limited to one hundred.
pub proof fn law_temperature_is_carried(warm: u8, cool: u8, brightness: u8)
    ensures
        packet::temp_packet(warm, cool, brightness).len() == 7,
        warm <= 100 ==> packet::temp_packet(warm, cool, brightness)[2] == warm,
        warm > 100 ==> packet::temp_packet(warm, cool, brightness)[2] == 100,
        cool <= 100 ==> packet::temp_packet(warm, cool, brightness)[3] == cool,
        cool > 100 ==> packet::temp_packet(warm, cool, brightness)[3] == 100,
{
}

/// The brightness is one byte of each packet that sets something, limited to one
/// hundred, and no other byte depends on it.
pub proof fn law_brightness_is_carried(a: u8, b: u8, c: u8, brightness: u8, other: u8)
    ensures
        brightness <= 100 ==> packet::temp_packet(a, b, brightness)[4] == brightness,
        brightness <= 100 ==> packet::rgb_packet(a, b, c, brightness)[7] == brightness,
        brightness <= 100 ==> packet::cw_packet(a, brightness)[7] == brightness,
        brightness > 100 ==> packet::temp_packet(a, b, brightness)[4] == 100,
        brightness > 100 ==> packet::rgb_packet(a, b, c, brightness)[7] == 100,
        brightness > 100 ==> packet::cw_packet(a, brightness)[7] == 100,
        forall|i: int|
            #![auto]
            0 <= i < 7 && i != 4 ==> packet::temp_packet(a, b, brightness)[i]
                == packet::temp_packet(a, b, other)[i],
        forall|i: int|
            #![auto]
            0 <= i < 10 && i != 7 ==> packet::rgb_packet(a, b, c, brightness)[i]
                == packet::rgb_packet(a, b, c, other)[i],
        forall|i: int|
            #![auto]
            0 <= i < 10 && i != 7 ==> packet::cw_packet(a, brightness)[i] == packet::cw_packet(
                a,
                other,
            )[i],
{
}

/// The bytes around what is carried tell the packets apart.
pub proof fn law_packets_are_framed(a: u8, b: u8, c: u8, brightness: u8)
    ensures
        packet::temp_packet(a, b, brightness)[0] == 0x5A,
        packet::temp_packet(a, b, brightness)[1] == 0x02,
        packet::temp_packet(a, b, brightness)[5] == 0x00,
        packet::temp_packet(a, b, brightness)[6] == 0xA5,
        packet::rgb_packet(a, b, c, brightness)[0] == 0x5A,
        packet::rgb_packet(a, b, c, brightness)[1] == 0x00,
        packet::rgb_packet(a, b, c, brightness)[2] == 0x01,
        packet::rgb_packet(a, b, c, brightness)[6] == 0x00,
        packet::rgb_packet(a, b, c, brightness)[8] == 0x00,
        packet::rgb_packet(a, b, c, brightness)[9] == 0xA5,
        packet::cw_packet(a, brightness)[0] == 0x5A,
        packet::cw_packet(a, brightness)[1] == 0x00,
        packet::cw_packet(a, brightness)[2] == 0x02,
        packet::cw_packet(a, brightness)[3] == 0x00,
        packet::cw_packet(a, brightness)[4] == 0x00,
        packet::cw_packet(a, brightness)[5] == 0x00,
        packet::cw_packet(a, brightness)[8] == 0x00,
        packet::cw_packet(a, brightness)[9] == 0xA5,
        packet::get_state_packet().len() == 4,
        hex::hex_text(packet::get_state_packet()) == "5f0100f5"@,
{
    reveal_strlit("5f0100f5");
    reveal_with_fuel(hex::hex_text, 5);
    assert(hex::hex_text(packet::get_state_packet()) =~= "5f0100f5"@);
}

// ------------------------------------------------------------ what is received

/// A packet is a state notification exactly if it has thirteen bytes or more and
/// the first two are `5f` and `02`.
pub proof fn law_what_is_a_state_notification(bytes: Seq<u8>)
    ensures
        packet::live_floor_state(bytes) is Some <==> bytes.len() >= 13 && bytes[0] == 0x5F
            && bytes[1] == 0x02,
{
}

/// Each zone of a notification is on exactly if its own byte is `f0`, whatever
/// the byte of the other zone is.
pub proof fn law_zones_are_decoded(bytes: Seq<u8>)
    requires
        packet::live_floor_state(bytes) is Some,
    ensures
        packet::live_floor_state(bytes)->0.top == SwitchState::On <==> bytes[11] == 0xF0,
        packet::live_floor_state(bytes)->0.bottom == SwitchState::On <==> bytes[12] == 0xF0,
{
}

/// A notification that carries the bytes of any two switch states decodes to
/// these two states.
pub proof fn law_any_two_zones_are_decoded(bytes: Seq<u8>, top: SwitchState, bottom: SwitchState)
    requires
        packet::live_floor_state(bytes) is Some,
    ensures
        packet::live_floor_state(
            bytes.update(11, packet::top_packet(top)[1]).update(
                12,
                packet::bottom_packet(bottom)[1],
            ),
        ) matches Some(state) && state.top == top && state.bottom == bottom,
{
}

/// What the other bytes of a notification say.
pub proof fn law_fields_are_decoded(bytes: Seq<u8>)
    requires
        packet::live_floor_state(bytes) is Some,
    ensures
        ({
            let state = packet::live_floor_state(bytes)->0;
            &&& state.dynamic <==> bytes[2] == 1
            &&& state.rgb <==> bytes[3] == 1
            &&& state.red == bytes[4]
            &&& state.green == bytes[5]
            &&& state.blue == bytes[6]
            &&& state.cw == bytes[7]
            &&& state.brightness == bytes[8]
            &&& bytes[9] <= 100 ==> state.speed + bytes[9] == 100
            &&& bytes[9] > 100 ==> state.speed == 0
            &&& state.model + 128 == bytes[10]
        }),
{
}

/// Changing one byte of a notification after the first two changes no field but
/// the one that this byte carries, and it stays a notification.
pub proof fn law_one_byte_carries_one_field(bytes: Seq<u8>, i: int, value: u8)
    requires
        packet::live_floor_state(bytes) is Some,
        2 <= i < bytes.len(),
    ensures
        packet::live_floor_state(bytes.update(i, value)) is Some,
        ({
            let before = packet::live_floor_state(bytes)->0;
            let after = packet::live_floor_state(bytes.update(i, value))->0;
            &&& i != 2 ==> after.dynamic == before.dynamic
            &&& i != 3 ==> after.rgb == before.rgb
            &&& i != 4 ==> after.red == before.red
            &&& i != 5 ==> after.green == before.green
            &&& i != 6 ==> after.blue == before.blue
            &&& i != 7 ==> after.cw == before.cw
            &&& i != 8 ==> after.brightness == before.brightness
            &&& i != 9 ==> after.speed == before.speed
            &&& i != 10 ==> after.model == before.model
            &&& i != 11 ==> after.top == before.top
            &&& i != 12 ==> after.bottom == before.bottom
        }),
{
}

/// The white channel is cold at zero, warm at its greatest value, and between
/// them nearer to the one or the other.
pub proof fn law_white_labels(value: u8)
    ensures
        value == 0 ==> packet::cw_label(value) == "cold"@,
        0 < value < 128 ==> packet::cw_label(value) == "cold_to_neutral"@,
        128 <= value < 255 ==> packet::cw_label(value) == "neutral_to_warm"@,
        value == 255 ==> packet::cw_label(value) == "warm"@,
{
}

// -------------------------------------------------------------------- colours

/// A colour of six digits has three bytes, each of two digits, the first of which
/// counts sixteen times. A `#` before them changes nothing.
pub proof fn law_colour_digits(s: Seq<char>)
    requires
        s.len() == 6,
        forall|i: int| 0 <= i < 6 ==> hex::hex_value(#[trigger] s[i]) is Some,
    ensures
        packet::rgb_value(s) matches Ok((red, green, blue)) && red == 16 * hex::hex_value(s[0])->0
            + hex::hex_value(s[1])->0 && green == 16 * hex::hex_value(s[2])->0 + hex::hex_value(
            s[3],
        )->0 && blue == 16 * hex::hex_value(s[4])->0 + hex::hex_value(s[5])->0,
        packet::rgb_value(seq!['#'] + s) == packet::rgb_value(s),
{
    assert(hex::hex_value(s[0]) is Some && hex::hex_value(s[1]) is Some);
    assert(hex::hex_value(s[2]) is Some && hex::hex_value(s[3]) is Some);
    assert(hex::hex_value(s[4]) is Some && hex::hex_value(s[5]) is Some);
    assert(s[0] != '#');
    packet::law_a_colour_is_six_digits(s);
    assert(packet::is_rgb_text(s));
    assert forall|i: int| 0 <= i < s.len() implies !hex::is_separator(#[trigger] s[i])
        && hex::utf8_width(s[i]) == 1 by {
        assert(hex::hex_value(s[i]) is Some);
    }
    hex::lemma_no_separators(s);
    let second = s.skip(2);
    let third = second.skip(2);
    assert(second[0] == s[2] && second[1] == s[3] && third[0] == s[4] && third[1] == s[5]);
    reveal_with_fuel(hex::hex_pairs, 4);
    packet::law_hash_prefix_is_optional(s);
}

/// No text but six digits, with or without a `#`, is a colour.
pub proof fn law_other_colours_are_refused(value: Seq<char>)
    requires
        packet::rgb_value(value) is Ok,
    ensures
        ({
            let digits = if value[0] == '#' {
                value.skip(1)
            } else {
                value
            };
            digits.len() == 6 && forall|i: int|
                0 <= i < 6 ==> hex::hex_value(#[trigger] digits[i]) is Some
        }),
{
    packet::law_a_colour_is_six_digits(value);
}

// --------------------------------------------------------------------- report

/// The line consists of the label and of the decimal digits of the number.
pub open spec fn tells(line: Seq<char>, label: Seq<char>, n: nat) -> bool {
    &&& label.is_prefix_of(line)
    &&& number::all_digits(line.skip(label.len() as int))
    &&& number::digits_value(line.skip(label.len() as int)) == n
}

/// A label and a number tell the number.
pub proof fn lemma_tells(label: Seq<char>, n: nat)
    ensures
        tells(label + number::decimal(n), label, n),
        packet::labelled_number(label, n) == label + number::decimal(n),
{
    number::lemma_decimal(n);
    let line = label + number::decimal(n);
    assert(line.skip(label.len() as int) =~= number::decimal(n));
    assert(label =~= line.subrange(0, label.len() as int));
}

/// The report of a live state tells each of its fields, and the colour only under
/// the flag for it.
pub proof fn law_live_report(state: LiveFloorState)
    ensures
        ({
            let lines = packet::live_floor_state_lines(state);
            let rest: int = if state.rgb {
                11
            } else {
                7
            };
            &&& lines.len() == rest + 5
            &&& lines[0] == "  decoded_floor_state=available"@
            &&& state.top == SwitchState::On ==> lines[1] == "  top="@ + "on"@
            &&& state.top == SwitchState::Off ==> lines[1] == "  top="@ + "off"@
            &&& state.bottom == SwitchState::On ==> lines[2] == "  bottom="@ + "on"@
            &&& state.bottom == SwitchState::Off ==> lines[2] == "  bottom="@ + "off"@
            &&& state.rgb ==> lines[3] == "  mode="@ + "rgb_or_cw"@
            &&& !state.rgb ==> lines[3] == "  mode="@ + "cw"@
            &&& state.rgb ==> lines[4] == "  protocol_rgb_flag="@ + "true"@
            &&& !state.rgb ==> lines[4] == "  protocol_rgb_flag="@ + "false"@
            &&& tells(lines[5], "  cw="@, state.cw as nat)
            &&& lines[6] == "  cw_temperature="@ + packet::cw_label(state.cw)
            &&& state.rgb ==> {
                &&& lines[7] == "  rgb=#"@ + hex::hex_text(
                    seq![state.red, state.green, state.blue],
                )
                &&& tells(lines[8], "  red="@, state.red as nat)
                &&& tells(lines[9], "  green="@, state.green as nat)
                &&& tells(lines[10], "  blue="@, state.blue as nat)
            }
            &&& tells(lines[rest], "  brightness="@, state.brightness as nat)
            &&& state.dynamic ==> lines[rest + 1] == "  dynamic="@ + "true"@
            &&& !state.dynamic ==> lines[rest + 1] == "  dynamic="@ + "false"@
            &&& tells(lines[rest + 2], "  speed="@, state.speed as nat)
            &&& state.model >= 0 ==> tells(lines[rest + 3], "  model="@, state.model as nat)
            &&& state.model < 0 ==> tells(
                lines[rest + 3],
                "  model="@ + seq!['-'],
                (-state.model) as nat,
            )
            &&& lines[rest + 4] == "  trust=live_ble_notification"@
        }),
{
    lemma_tells("  cw="@, state.cw as nat);
    lemma_tells("  red="@, state.red as nat);
    lemma_tells("  green="@, state.green as nat);
    lemma_tells("  blue="@, state.blue as nat);
    lemma_tells("  brightness="@, state.brightness as nat);
    lemma_tells("  speed="@, state.speed as nat);
    if state.model >= 0 {
        lemma_tells("  model="@, state.model as nat);
    } else {
        let n = (-state.model) as nat;
        lemma_tells("  model="@ + seq!['-'], n);
        assert("  model="@ + (seq!['-'] + number::decimal(n)) =~= "  model="@ + seq!['-']
            + number::decimal(n));
    }
}

} // verus!
