//! What holds of commands: which packets they write, how these relate to each
//! other, to the configuration and to the state that is stored, and what is said
//! of them.

use crate::cache;
use crate::cache::LampState;
use crate::command;
use crate::command::Command;
use crate::config;
use crate::error;
use crate::error::CachedField;
use crate::hex;
use crate::number;
use crate::packet;
use crate::packet::SwitchState;
use crate::packet_laws;
use crate::text;
use vstd::prelude::*;

verus! {

/// The number, or one hundred if it is more.
pub open spec fn at_most_hundred(n: u8) -> u8 {
    if n <= 100 {
        n
    } else {
        100
    }
}

/// The packet switches the top zone to a state.
pub open spec fn switches_top(packet: Seq<u8>, state: SwitchState) -> bool {
    packet == (if state == SwitchState::On {
        seq![0x5Bu8, 0xF0u8, 0x01u8, 0xB5u8]
    } else {
        seq![0x5Bu8, 0x0Fu8, 0x01u8, 0xB5u8]
    })
}

/// The packet switches the bottom zone to a state.
pub open spec fn switches_bottom(packet: Seq<u8>, state: SwitchState) -> bool {
    packet == (if state == SwitchState::On {
        seq![0x5Bu8, 0xF0u8, 0x02u8, 0xB5u8]
    } else {
        seq![0x5Bu8, 0x0Fu8, 0x02u8, 0xB5u8]
    })
}

// -------------------------------------------------------------------- packets

/// A zone is switched by one packet, to the state that is asked for: its second
/// byte is `f0` exactly if the zone is to be on and `0f` exactly if it is to be
/// off.
pub proof fn law_a_zone_is_switched(state: SwitchState, config: config::ConfigView)
    ensures
        command::command_packets(Command::Top { state }, config) matches Ok(packets)
            && packets.len() == 1 && switches_top(packets[0], state) && (packets[0][1] == 0xF0
            <==> state == SwitchState::On) && (packets[0][1] == 0x0F <==> state
            == SwitchState::Off),
        command::command_packets(Command::Bottom { state }, config) matches Ok(packets)
            && packets.len() == 1 && switches_bottom(packets[0], state) && (packets[0][1] == 0xF0
            <==> state == SwitchState::On) && (packets[0][1] == 0x0F <==> state
            == SwitchState::Off),
{
}

/// Switching on and switching off write different packets.
pub proof fn law_on_and_off_differ(config: config::ConfigView)
    ensures
        command::command_packets(Command::Top { state: SwitchState::On }, config)
            != command::command_packets(Command::Top { state: SwitchState::Off }, config),
        command::command_packets(Command::Bottom { state: SwitchState::On }, config)
            != command::command_packets(Command::Bottom { state: SwitchState::Off }, config),
        command::command_packets(Command::Top { state: SwitchState::On }, config)
            != command::command_packets(Command::Bottom { state: SwitchState::On }, config),
{
    let top_on = command::command_packets(Command::Top { state: SwitchState::On }, config)->Ok_0;
    let top_off = command::command_packets(Command::Top { state: SwitchState::Off }, config)->Ok_0;
    let on = command::command_packets(Command::Bottom { state: SwitchState::On }, config)->Ok_0;
    let off = command::command_packets(Command::Bottom { state: SwitchState::Off }, config)->Ok_0;
    assert(top_on[0][1] != top_off[0][1]);
    assert(on[0][1] != off[0][1]);
    assert(top_on[0][2] != on[0][2]);
}

/// Switching the lamp off writes what switching the top zone off writes, and then
/// what switching the bottom zone off writes.
pub proof fn law_off_is_both_zones_off(config: config::ConfigView)
    ensures
        command::command_packets(Command::Off, config) == Ok::<Seq<Seq<u8>>, error::Failure>(
            command::command_packets(Command::Top { state: SwitchState::Off }, config)->Ok_0
                + command::command_packets(
                Command::Bottom { state: SwitchState::Off },
                config,
            )->Ok_0,
        ),
{
    assert(command::command_packets(Command::Off, config)->Ok_0 =~= command::command_packets(
        Command::Top { state: SwitchState::Off },
        config,
    )->Ok_0 + command::command_packets(
        Command::Bottom { state: SwitchState::Off },
        config,
    )->Ok_0);
}

/// The warm scene writes what the temperature command writes for the three
/// configured values, and then what switching the bottom zone off writes. The
/// configured values are the third to the fifth byte of its second packet.
pub proof fn law_the_warm_scene_is_configured(config: config::ConfigView)
    ensures
        command::command_packets(Command::Warm, config) == Ok::<Seq<Seq<u8>>, error::Failure>(
            command::command_packets(
                Command::Temp {
                    warm: config.warm_white,
                    cool: config.cool_white,
                    brightness: config.brightness,
                },
                config,
            )->Ok_0 + command::command_packets(
                Command::Bottom { state: SwitchState::Off },
                config,
            )->Ok_0,
        ),
        command::command_packets(Command::Warm, config) matches Ok(packets) && packets.len() == 3
            && switches_top(packets[0], SwitchState::On) && packets[1].len() == 7 && packets[1][0]
            == 0x5A && packets[1][1] == 0x02 && packets[1][2] == at_most_hundred(config.warm_white)
            && packets[1][3] == at_most_hundred(config.cool_white) && packets[1][4]
            == at_most_hundred(config.brightness) && switches_bottom(
            packets[2],
            SwitchState::Off,
        ),
{
    let scene = command::command_packets(Command::Warm, config)->Ok_0;
    let temp = command::command_packets(
        Command::Temp {
            warm: config.warm_white,
            cool: config.cool_white,
            brightness: config.brightness,
        },
        config,
    )->Ok_0;
    let off = command::command_packets(Command::Bottom { state: SwitchState::Off }, config)->Ok_0;
    assert(scene =~= temp + off);
}

/// A temperature switches the top zone on and sets the values that are given.
pub proof fn law_a_temperature_is_set(
    warm: u8,
    cool: u8,
    brightness: u8,
    config: config::ConfigView,
)
    ensures
        command::command_packets(Command::Temp { warm, cool, brightness }, config) matches Ok(
            packets,
        ) && packets.len() == 2 && switches_top(packets[0], SwitchState::On) && packets[1] == seq![
            0x5Au8,
            0x02u8,
            at_most_hundred(warm),
            at_most_hundred(cool),
            at_most_hundred(brightness),
            0x00u8,
            0xA5u8,
        ],
{
}

/// A white value switches the top zone on and is set as it is given.
pub proof fn law_a_white_value_is_set(value: u8, brightness: u8, config: config::ConfigView)
    ensures
        command::command_packets(Command::Cw { value, brightness }, config) matches Ok(packets)
            && packets.len() == 2 && switches_top(packets[0], SwitchState::On) && packets[1].len()
            == 10 && packets[1][2] == 0x02 && packets[1][6] == value && packets[1][7]
            == at_most_hundred(brightness),
{
    packet_laws::law_packets_are_framed(value, 0, 0, brightness);
}

/// A colour switches the top zone on and is set as its text gives it. A text that
/// gives none is refused for the same reason.
pub proof fn law_a_colour_is_set(value: String, brightness: u8, config: config::ConfigView)
    ensures
        match (
            command::command_packets(Command::Rgb { value, brightness }, config),
            packet::rgb_value(value@),
        ) {
            (Ok(packets), Ok((red, green, blue))) => packets.len() == 2 && switches_top(
                packets[0],
                SwitchState::On,
            ) && packets[1].len() == 10 && packets[1][2] == 0x01 && packets[1][3] == red
                && packets[1][4] == green && packets[1][5] == blue && packets[1][7]
                == at_most_hundred(brightness),
            (Err(failure), Err(reason)) => failure == reason,
            _ => false,
        },
{
}

/// Only the warm scene depends on the configuration, and only a colour can be
/// refused.
pub proof fn law_commands_stand_for_themselves(
    command: Command,
    config: config::ConfigView,
    other: config::ConfigView,
)
    ensures
        !(command is Warm) ==> command::command_packets(command, config)
            == command::command_packets(command, other),
        !(command is Rgb) ==> command::command_packets(command, config) is Ok,
{
}

// ----------------------------------------------------------- the stored state

/// What a command stores is what its packets say: the zones that they switch, the
/// temperature, the colour or the white value that they set, and the brightness.
pub proof fn law_what_is_written_is_stored(
    command: Command,
    config: config::ConfigView,
    prior: LampState,
    now: Option<u64>,
    i: int,
)
    requires
        config.warm_white <= 100 && config.cool_white <= 100 && config.brightness <= 100,
        cache::state_after(command, config, prior, now) is Some,
        command::command_packets(command, config) is Ok,
        0 <= i < command::command_packets(command, config)->Ok_0.len(),
    ensures
        ({
            let packet = command::command_packets(command, config)->Ok_0[i];
            let after = cache::state_after(command, config, prior, now)->0;
            &&& packet[0] == 0x5B || packet[0] == 0x5A
            &&& packet[0] == 0x5B && packet[2] == 0x01 ==> after.top == Some(
                if packet[1] == 0xF0 {
                    SwitchState::On
                } else {
                    SwitchState::Off
                },
            )
            &&& packet[0] == 0x5B && packet[2] == 0x02 ==> after.bottom == Some(
                if packet[1] == 0xF0 {
                    SwitchState::On
                } else {
                    SwitchState::Off
                },
            )
            &&& packet[0] == 0x5A && packet[1] == 0x02 ==> after.mode == Some("temp"@)
                && after.warm == Some(packet[2]) && after.cool == Some(packet[3])
                && after.brightness == Some(packet[4])
            &&& packet[0] == 0x5A && packet[1] == 0x00 && packet[2] == 0x01 ==> after.mode == Some(
                "rgb"@,
            ) && after.red == Some(packet[3]) && after.green == Some(packet[4]) && after.blue
                == Some(packet[5]) && after.brightness == Some(packet[7])
            &&& packet[0] == 0x5A && packet[1] == 0x00 && packet[2] == 0x02 ==> after.mode == Some(
                "cw"@,
            ) && after.cw == Some(packet[6]) && after.brightness == Some(packet[7])
        }),
{
    match command {
        Command::Warm => {
            assert(i == 0 || i == 1 || i == 2);
        },
        Command::Off => {
            assert(i == 0 || i == 1);
        },
        _ => {},
    }
}

/// A stored state holds the values of one mode only. After switching off there is
/// no mode to set a brightness in, and both zones are off.
pub proof fn law_one_mode_is_stored(
    command: Command,
    config: config::ConfigView,
    prior: LampState,
    now: Option<u64>,
)
    ensures
        cache::state_after(command, config, prior, now) matches Some(after) ==> {
            &&& after.updated_unix == now
            &&& command is Warm || command is Temp ==> after.warm is Some && after.cool is Some
                && after.cw is None && after.red is None && after.green is None && after.blue
                is None
            &&& command is Rgb ==> after.red is Some && after.green is Some && after.blue is Some
                && after.warm is None && after.cool is None && after.cw is None
            &&& command is Cw ==> after.cw is Some && after.warm is None && after.cool is None
                && after.red is None && after.green is None && after.blue is None
            &&& command is Off ==> after.mode == Some("off"@) && after.brightness == Some(0u8)
                && after.top == Some(SwitchState::Off) && after.bottom == Some(SwitchState::Off)
                && after.warm is None && after.cool is None && after.cw is None && after.red is None
                && after.green is None && after.blue is None
            &&& command is Temp || command is Rgb || command is Cw || command is Top
                ==> after.bottom == prior.bottom
            &&& command is Bottom ==> after.top == prior.top
            &&& command is Top || command is Bottom ==> after.mode == prior.mode && after.warm
                == prior.warm && after.cool == prior.cool && after.cw == prior.cw && after.red
                == prior.red && after.green == prior.green && after.blue == prior.blue
                && after.brightness == prior.brightness
        },
{
}

/// A state is stored for every command that sets or switches something, unless
/// its colour cannot be read, and for no other.
pub proof fn law_which_commands_are_stored(
    command: Command,
    config: config::ConfigView,
    prior: LampState,
    now: Option<u64>,
)
    ensures
        cache::state_after(command, config, prior, now) is None <==> (match command {
            Command::Rgb { value, .. } => packet::rgb_value(value@) is Err,
            Command::Disconnect
            | Command::Probe
            | Command::Listen { .. }
            | Command::State
            | Command::RawWrite { .. } => true,
            _ => false,
        }),
{
}

/// The stored state names the command that led to it.
pub proof fn law_the_command_is_named(
    command: Command,
    config: config::ConfigView,
    prior: LampState,
    now: Option<u64>,
)
    ensures
        cache::state_after(command, config, prior, now) matches Some(after) ==> (
        after.command matches Some(name) && match command {
            Command::Warm => name == "warm"@,
            Command::Temp { .. } => name == "temp"@,
            Command::Off => name == "off"@,
            Command::Top { state } => name == "top "@ + (if state == SwitchState::On {
                "on"@
            } else {
                "off"@
            }),
            Command::Bottom { state } => name == "bottom "@ + (if state == SwitchState::On {
                "on"@
            } else {
                "off"@
            }),
            Command::Cw { value, .. } => packet_laws::tells(name, "cw --value "@, value as nat),
            Command::Rgb { value, .. } => "rgb --value #"@.is_prefix_of(name) && packet::rgb_value(
                name.skip("rgb --value #"@.len() as int),
            ) == packet::rgb_value(value@),
            _ => false,
        }),
{
    match command {
        Command::Cw { value, .. } => {
            packet_laws::lemma_tells("cw --value "@, value as nat);
        },
        Command::Rgb { value, .. } => {
            if packet::rgb_value(value@) is Ok {
                let (red, green, blue) = packet::rgb_value(value@)->Ok_0;
                let digits = hex::hex_text(seq![red, green, blue]);
                let label = "rgb --value #"@;
                packet::law_rgb_round_trip(red, green, blue);
                assert((label + digits).skip(label.len() as int) =~= digits);
                assert(label =~= (label + digits).subrange(0, label.len() as int));
            }
        },
        _ => {},
    }
}

// ----------------------------------------------------------------- brightness

/// A change of the brightness writes the cached values of the mode as they are,
/// with the new brightness, and stores them again. The top zone is switched on,
/// and the stored zones stay as they were, the top one being on if it was not
/// known.
pub proof fn law_brightness_keeps_the_mode(cached: LampState, brightness: u8, now: Option<u64>)
    ensures
        cache::brightness_change(cached, brightness, now) matches Ok((packets, after)) ==> {
            let level = at_most_hundred(brightness);
            &&& packets.len() == 2
            &&& switches_top(packets[0], SwitchState::On)
            &&& after.updated_unix == now
            &&& after.mode == cached.mode
            &&& after.brightness == Some(level)
            &&& after.bottom == cached.bottom
            &&& cached.top is Some ==> after.top == cached.top
            &&& cached.top is None ==> after.top == Some(SwitchState::On)
            &&& after.command matches Some(name) && packet_laws::tells(
                name,
                "brightness "@,
                level as nat,
            )
            &&& cached.mode == Some("cw"@) || cached.mode == Some("rgb"@) || cached.mode == Some(
                "temp"@,
            )
            &&& cached.mode == Some("cw"@) ==> cached.cw is Some && after.cw == cached.cw
                && packets[1].len() == 10 && packets[1][2] == 0x02 && packets[1][6] == cached.cw->0
                && packets[1][7] == level && after.red is None && after.warm is None
            &&& cached.mode == Some("rgb"@) ==> cached.red is Some && cached.green is Some
                && cached.blue is Some && after.red == cached.red && after.green == cached.green
                && after.blue == cached.blue && packets[1].len() == 10 && packets[1][2] == 0x01
                && packets[1][3] == cached.red->0 && packets[1][4] == cached.green->0
                && packets[1][5] == cached.blue->0 && packets[1][7] == level && after.cw is None
                && after.warm is None
            &&& cached.mode == Some("temp"@) ==> cached.warm is Some && cached.cool is Some
                && after.warm == cached.warm && after.cool == cached.cool && packets[1].len() == 7
                && packets[1][1] == 0x02 && packets[1][2] == at_most_hundred(cached.warm->0)
                && packets[1][3] == at_most_hundred(cached.cool->0) && packets[1][4] == level
                && after.cw is None && after.red is None
        },
{
    lemma_modes();
    packet_laws::lemma_tells("brightness "@, at_most_hundred(brightness) as nat);
}

proof fn lemma_modes()
    ensures
        "cw"@ != "rgb"@,
        "cw"@ != "temp"@,
        "rgb"@ != "temp"@,
{
    reveal_strlit("cw");
    reveal_strlit("rgb");
    reveal_strlit("temp");
    assert("cw"@.len() == 2 && "rgb"@.len() == 3 && "temp"@.len() == 4);
}

/// The brightness can be changed exactly if a mode is cached with all of its
/// values. Otherwise the first value that is missing is named.
pub proof fn law_brightness_needs_the_values(cached: LampState, brightness: u8, now: Option<u64>)
    ensures
        ({
            let change = cache::brightness_change(cached, brightness, now);
            &&& cached.mode == Some("cw"@) ==> (change is Ok <==> cached.cw is Some)
            &&& cached.mode == Some("rgb"@) ==> (change is Ok <==> cached.red is Some
                && cached.green is Some && cached.blue is Some)
            &&& cached.mode == Some("temp"@) ==> (change is Ok <==> cached.warm is Some
                && cached.cool is Some)
            &&& cached.mode != Some("cw"@) && cached.mode != Some("rgb"@) && cached.mode != Some(
                "temp"@,
            ) ==> change is Err && change->Err_0 == error::Failure::NoCachedMode
            &&& change matches Err(error::Failure::CachedValueMissing { field }) ==> match field {
                CachedField::Cw => cached.mode == Some("cw"@) && cached.cw is None,
                CachedField::Red => cached.mode == Some("rgb"@) && cached.red is None,
                CachedField::Green => cached.mode == Some("rgb"@) && cached.red is Some
                    && cached.green is None,
                CachedField::Blue => cached.mode == Some("rgb"@) && cached.red is Some
                    && cached.green is Some && cached.blue is None,
                CachedField::Warm => cached.mode == Some("temp"@) && cached.warm is None,
                CachedField::Cool => cached.mode == Some("temp"@) && cached.warm is Some
                    && cached.cool is None,
            }
            &&& change matches Err(failure) ==> failure is NoCachedMode || failure
                is CachedValueMissing
            &&& change matches Err(error::Failure::NoCachedMode) ==> cached.mode != Some("cw"@)
                && cached.mode != Some("rgb"@) && cached.mode != Some("temp"@)
        }),
{
    lemma_modes();
}

// ----------------------------------------------------------------- what is said

/// What is said of a command tells its values: numbers by their digits, limited
/// to one hundred where they are percentages, colours by theirs, and zones by
/// `on` and `off`.
pub proof fn law_success_tells_the_values(command: Command)
    ensures
        match command {
            Command::Cw { value, brightness } => exists|a: Seq<char>, b: Seq<char>|
                number::all_digits(a) && number::all_digits(b) && number::digits_value(a) == value
                    && number::digits_value(b) == at_most_hundred(brightness)
                    && command::success_text(command) == #[trigger] ("ok cw="@ + a
                    + " brightness="@ + b),
            Command::Temp { warm, cool, brightness } => exists|
                a: Seq<char>,
                b: Seq<char>,
                c: Seq<char>,
            |
                number::all_digits(a) && number::all_digits(b) && number::all_digits(c)
                    && number::digits_value(a) == at_most_hundred(warm) && number::digits_value(b)
                    == at_most_hundred(cool) && number::digits_value(c) == at_most_hundred(
                    brightness,
                ) && command::success_text(command) == #[trigger] ("ok temp warm="@ + a + " cool="@
                    + b + " brightness="@ + c),
            Command::Rgb { value, brightness } => packet::rgb_value(value@) is Ok ==> exists|
                a: Seq<char>,
                b: Seq<char>,
            |
                packet::rgb_value(a) == packet::rgb_value(value@) && a.len() == 6
                    && number::all_digits(b) && number::digits_value(b) == at_most_hundred(
                    brightness,
                ) && command::success_text(command) == #[trigger] ("ok rgb=#"@ + a
                    + " brightness="@ + b),
            Command::Top { state } => command::success_text(command) == "ok top="@ + (if state
                == SwitchState::On {
                "on"@
            } else {
                "off"@
            }),
            Command::Bottom { state } => command::success_text(command) == "ok bottom="@ + (
            if state == SwitchState::On {
                "on"@
            } else {
                "off"@
            }),
            Command::Warm => command::success_text(command) == "ok warm"@,
            Command::Off => command::success_text(command) == "ok off"@,
            Command::Disconnect => command::success_text(command) == "ok disconnected"@,
            _ => command::success_text(command) == "ok"@,
        },
{
    match command {
        Command::Cw { value, brightness } => {
            let a = number::decimal(value as nat);
            let b = number::decimal(at_most_hundred(brightness) as nat);
            number::lemma_decimal(value as nat);
            number::lemma_decimal(at_most_hundred(brightness) as nat);
            assert(command::success_text(command) == "ok cw="@ + a + " brightness="@ + b);
        },
        Command::Temp { warm, cool, brightness } => {
            let a = number::decimal(at_most_hundred(warm) as nat);
            let b = number::decimal(at_most_hundred(cool) as nat);
            let c = number::decimal(at_most_hundred(brightness) as nat);
            number::lemma_decimal(at_most_hundred(warm) as nat);
            number::lemma_decimal(at_most_hundred(cool) as nat);
            number::lemma_decimal(at_most_hundred(brightness) as nat);
            assert(command::success_text(command) == "ok temp warm="@ + a + " cool="@ + b
                + " brightness="@ + c);
        },
        Command::Rgb { value, brightness } => {
            if packet::rgb_value(value@) is Ok {
                let (red, green, blue) = packet::rgb_value(value@)->Ok_0;
                let a = hex::hex_text(seq![red, green, blue]);
                let b = number::decimal(at_most_hundred(brightness) as nat);
                number::lemma_decimal(at_most_hundred(brightness) as nat);
                packet::law_rgb_round_trip(red, green, blue);
                hex::lemma_hex_text(seq![red, green, blue]);
                assert(command::success_text(command) == "ok rgb=#"@ + a + " brightness="@ + b);
            }
        },
        _ => {},
    }
}

// ----------------------------------------------------------------------- UUIDs

/// Four characters of ASCII stand for the Bluetooth UUID that has them, in lower
/// case, as its fifth to eighth character. Any other text of ASCII stands for
/// itself in lower case.
pub proof fn law_short_uuids_are_completed(uuid: Seq<char>)
    requires
        text::all_ascii(uuid),
    ensures
        uuid.len() == 4 ==> command::normalized_uuid(uuid) == "0000"@ + text::lowercase(uuid)
            + "-0000-1000-8000-00805f9b34fb"@,
        uuid.len() != 4 ==> command::normalized_uuid(uuid) == text::lowercase(uuid),
{
    let lower = text::lowercase(uuid);
    assert forall|i: int| 0 <= i < lower.len() implies (#[trigger] lower[i] as u32) < 128 by {
        assert((uuid[i] as u32) < 128);
    }
    assert(vstd::utf8::is_ascii_chars(lower));
    vstd::utf8::is_ascii_chars_encode_utf8(lower);
}

// -------------------------------------------------------------------- packets

/// The packets of a command are spoken of by their bytes, each at its place.
pub proof fn law_packets_are_their_bytes(commands: Seq<Vec<u8>>, i: int)
    ensures
        command::packets(commands).len() == commands.len(),
        0 <= i < commands.len() ==> command::packets(commands)[i] == commands[i]@,
{
}

/// A command is sent unless it examines the lamp or writes one packet as it is
/// given.
pub proof fn law_which_commands_are_sent(command: Command)
    ensures
        command::is_sent(command) <==> !(command is Probe || command is Listen || command is State
            || command is RawWrite),
{
}

} // verus!
