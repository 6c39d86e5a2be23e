//! What a user asks of the lamp, the packets that this takes, and what is said
//! when it is done.

use crate::config;
use crate::config::Config;
use crate::error;
use crate::error::{concat2, LampError};
use crate::hex;
use crate::hex::parse_hex;
use crate::number;
use crate::number::{clamp_percent, push_decimal};
use crate::packet;
use crate::packet::{
    bottom_command, cw_command, parse_rgb_value, rgb_value_command, temp_command, top_command,
    SwitchState,
};
use crate::text;
use crate::text::to_lowercase;
use vstd::prelude::*;

verus! {

/// What a user asks for.
#[allow(inconsistent_fields)]
#[derive(Debug, PartialEq, Eq)]
pub enum Command {
    /// The configured bedtime scene: top warm white, bottom off.
    Warm,
    /// The white temperature of the top zone.
    Temp { warm: u8, cool: u8, brightness: u8 },
    /// The colour of the top zone, as `RRGGBB` or `#RRGGBB`.
    Rgb { value: String, brightness: u8 },
    /// The white channel of the top zone: 0 is cold, 255 is warm.
    Cw { value: u8, brightness: u8 },
    /// The whole lamp off.
    Off,
    /// The top zone on or off.
    Top { state: SwitchState },
    /// The bottom zone on or off.
    Bottom { state: SwitchState },
    /// The connection to the lamp dropped.
    Disconnect,
    /// A list of the lamp's GATT endpoints.
    Probe,
    /// The lamp's notifications for some time.
    Listen { seconds: u64 },
    /// The lamp's state.
    State,
    /// One packet written as it is given.
    RawWrite { uuid: String, hex: String, listen_seconds: u64 },
}

/// The command is carried out by writing packets, or by writing none.
pub open spec fn is_sent(command: Command) -> bool {
    match command {
        Command::Probe | Command::Listen { .. } | Command::State | Command::RawWrite { .. } =>
            false,
        _ => true,
    }
}

/// A colour in the command can be cut into pieces of two bytes as far as it is
/// read.
pub open spec fn colour_splits(command: Command) -> bool {
    match command {
        Command::Rgb { value, .. } => packet::rgb_splits(value@),
        _ => true,
    }
}

/// Whether a colour in the command can be cut into pieces of two bytes as far
/// as it is read.
pub fn has_splittable_colour(command: &Command) -> (r: bool)
    ensures
        r == colour_splits(*command),
{
    match command {
        Command::Rgb { value, .. } => packet::splits_into_rgb_pairs(value.as_str()),
        _ => true,
    }
}

/// The packets of a vector of packets.
pub open spec fn packets(commands: Seq<Vec<u8>>) -> Seq<Seq<u8>> {
    commands.map_values(|command: Vec<u8>| command@)
}

/// The packets that carry out a command.
pub open spec fn command_packets(command: Command, config: config::ConfigView) -> Result<
    Seq<Seq<u8>>,
    error::Failure,
> {
    let top_on = packet::top_packet(SwitchState::On);
    match command {
        Command::Warm => Ok(
            seq![
                top_on,
                packet::temp_packet(config.warm_white, config.cool_white, config.brightness),
                packet::bottom_packet(SwitchState::Off),
            ],
        ),
        Command::Temp { warm, cool, brightness } => Ok(
            seq![top_on, packet::temp_packet(warm, cool, brightness)],
        ),
        Command::Rgb { value, brightness } => match packet::rgb_value(value@) {
            Ok((red, green, blue)) => Ok(
                seq![top_on, packet::rgb_packet(red, green, blue, brightness)],
            ),
            Err(failure) => Err(failure),
        },
        Command::Cw { value, brightness } => Ok(
            seq![top_on, packet::cw_packet(value, brightness)],
        ),
        Command::Off => Ok(
            seq![packet::top_packet(SwitchState::Off), packet::bottom_packet(SwitchState::Off)],
        ),
        Command::Top { state } => Ok(seq![packet::top_packet(state)]),
        Command::Bottom { state } => Ok(seq![packet::bottom_packet(state)]),
        _ => Ok(Seq::empty()),
    }
}

/// The packets that carry out a command that is sent.
pub fn commands_for(command: &Command, config: &Config) -> (r: Result<Vec<Vec<u8>>, LampError>)
    requires
        is_sent(*command),
        colour_splits(*command),
    ensures
        match (r, command_packets(*command, config@)) {
            (Ok(commands), Ok(expected)) => packets(commands@) == expected,
            (Err(e), Err(failure)) => e@ == failure,
            _ => false,
        },
{
    let commands = match command {
        Command::Warm => vec![
            top_command(SwitchState::On),
            temp_command(config.warm_white, config.cool_white, config.brightness),
            bottom_command(SwitchState::Off),
        ],
        Command::Temp { warm, cool, brightness } => vec![
            top_command(SwitchState::On),
            temp_command(*warm, *cool, *brightness),
        ],
        Command::Rgb { value, brightness } => {
            let colour = match rgb_value_command(value.as_str(), *brightness) {
                Ok(packet) => packet,
                Err(e) => return Err(e),
            };
            vec![top_command(SwitchState::On), colour]
        },
        Command::Cw { value, brightness } => vec![
            top_command(SwitchState::On),
            cw_command(*value, *brightness),
        ],
        Command::Off => vec![top_command(SwitchState::Off), bottom_command(SwitchState::Off)],
        Command::Top { state } => vec![top_command(*state)],
        Command::Bottom { state } => vec![bottom_command(*state)],
        _ => Vec::new(),
    };
    assert(packets(commands@) =~= command_packets(*command, config@)->Ok_0);
    Ok(commands)
}

/// What is said when a command has been carried out.
pub open spec fn success_text(command: Command) -> Seq<char> {
    match command {
        Command::Cw { value, brightness } => "ok cw="@ + number::decimal(value as nat)
            + " brightness="@ + number::decimal(number::percent(brightness as int) as nat),
        Command::Rgb { value, brightness } => {
            let colour = match packet::rgb_value(value@) {
                Ok(colour) => colour,
                Err(_) => (0u8, 0u8, 0u8),
            };
            "ok rgb=#"@ + hex::hex_text(seq![colour.0, colour.1, colour.2]) + " brightness="@
                + number::decimal(number::percent(brightness as int) as nat)
        },
        Command::Temp { warm, cool, brightness } => "ok temp warm="@ + number::decimal(
            number::percent(warm as int) as nat,
        ) + " cool="@ + number::decimal(number::percent(cool as int) as nat) + " brightness="@
            + number::decimal(number::percent(brightness as int) as nat),
        Command::Warm => "ok warm"@,
        Command::Off => "ok off"@,
        Command::Top { state } => "ok top="@ + packet::switch_text(state),
        Command::Bottom { state } => "ok bottom="@ + packet::switch_text(state),
        Command::Disconnect => "ok disconnected"@,
        _ => "ok"@,
    }
}

/// What is said when a command has been carried out.
pub fn command_success_message(command: &Command) -> (r: String)
    requires
        colour_splits(*command),
    ensures
        r@ == success_text(*command),
{
    match command {
        Command::Cw { value, brightness } => {
            let mut out = "ok cw=".to_owned();
            push_decimal(&mut out, *value as u64);
            out.append(" brightness=");
            push_decimal(&mut out, clamp_percent(*brightness) as u64);
            out
        },
        Command::Rgb { value, brightness } => {
            let (red, green, blue) = match parse_rgb_value(value.as_str()) {
                Ok(colour) => colour,
                Err(_) => (0u8, 0u8, 0u8),
            };
            let mut out = "ok rgb=#".to_owned();
            out.append(hex::hex(vec![red, green, blue].as_slice()).as_str());
            out.append(" brightness=");
            push_decimal(&mut out, clamp_percent(*brightness) as u64);
            out
        },
        Command::Temp { warm, cool, brightness } => {
            let mut out = "ok temp warm=".to_owned();
            push_decimal(&mut out, clamp_percent(*warm) as u64);
            out.append(" cool=");
            push_decimal(&mut out, clamp_percent(*cool) as u64);
            out.append(" brightness=");
            push_decimal(&mut out, clamp_percent(*brightness) as u64);
            out
        },
        Command::Warm => "ok warm".to_owned(),
        Command::Off => "ok off".to_owned(),
        Command::Top { state } => concat2("ok top=", state.as_str()),
        Command::Bottom { state } => concat2("ok bottom=", state.as_str()),
        Command::Disconnect => "ok disconnected".to_owned(),
        _ => "ok".to_owned(),
    }
}

proof fn lemma_literal_lines()
    ensures
        !"ok cw="@.contains('\n'),
        !" brightness="@.contains('\n'),
        !"ok rgb=#"@.contains('\n'),
        !"ok temp warm="@.contains('\n'),
        !" cool="@.contains('\n'),
        !"ok warm"@.contains('\n'),
        !"ok off"@.contains('\n'),
        !"ok top="@.contains('\n'),
        !"ok bottom="@.contains('\n'),
        !"ok disconnected"@.contains('\n'),
        !"ok"@.contains('\n'),
        !"on"@.contains('\n'),
        !"off"@.contains('\n'),
{
    reveal_strlit("ok cw=");
    reveal_strlit(" brightness=");
    reveal_strlit("ok rgb=#");
    reveal_strlit("ok temp warm=");
    reveal_strlit(" cool=");
    reveal_strlit("ok warm");
    reveal_strlit("ok off");
    reveal_strlit("ok top=");
    reveal_strlit("ok bottom=");
    reveal_strlit("ok disconnected");
    reveal_strlit("ok");
    reveal_strlit("on");
    reveal_strlit("off");
}

proof fn lemma_number_has_no_line_break(n: nat)
    ensures
        !number::decimal(n).contains('\n'),
{
    number::lemma_decimal(n);
    let s = number::decimal(n);
    assert forall|i: int| 0 <= i < s.len() implies s[i] != '\n' by {
        assert(number::is_digit(s[i]));
    }
}

proof fn lemma_hex_has_no_line_break(bytes: Seq<u8>)
    ensures
        !hex::hex_text(bytes).contains('\n'),
{
    hex::lemma_hex_text(bytes);
    let s = hex::hex_text(bytes);
    assert forall|i: int| 0 <= i < s.len() implies s[i] != '\n' by {
        assert(!hex::is_separator(s[i]));
    }
}

proof fn lemma_concat_has_no_line_break(a: Seq<char>, b: Seq<char>)
    requires
        !a.contains('\n'),
        !b.contains('\n'),
    ensures
        !(a + b).contains('\n'),
{
    if (a + b).contains('\n') {
        let i = choose|i: int| 0 <= i < (a + b).len() && (a + b)[i] == '\n';
        if i < a.len() {
            assert(a[i] == '\n');
        } else {
            assert(b[i - a.len()] == '\n');
        }
    }
}

/// What is said when a command has been carried out is one line.
pub proof fn law_success_is_one_line(command: Command)
    ensures
        !success_text(command).contains('\n'),
{
    lemma_literal_lines();
    match command {
        Command::Cw { value, brightness } => {
            let level = number::decimal(number::percent(brightness as int) as nat);
            let number = number::decimal(value as nat);
            lemma_number_has_no_line_break(value as nat);
            lemma_number_has_no_line_break(number::percent(brightness as int) as nat);
            lemma_concat_has_no_line_break("ok cw="@, number);
            lemma_concat_has_no_line_break("ok cw="@ + number, " brightness="@);
            lemma_concat_has_no_line_break("ok cw="@ + number + " brightness="@, level);
        },
        Command::Rgb { value, brightness } => {
            let colour = match packet::rgb_value(value@) {
                Ok(colour) => colour,
                Err(_) => (0u8, 0u8, 0u8),
            };
            let bytes = seq![colour.0, colour.1, colour.2];
            let digits = hex::hex_text(bytes);
            let level = number::decimal(number::percent(brightness as int) as nat);
            lemma_hex_has_no_line_break(bytes);
            lemma_number_has_no_line_break(number::percent(brightness as int) as nat);
            lemma_concat_has_no_line_break("ok rgb=#"@, digits);
            lemma_concat_has_no_line_break("ok rgb=#"@ + digits, " brightness="@);
            lemma_concat_has_no_line_break("ok rgb=#"@ + digits + " brightness="@, level);
        },
        Command::Temp { warm, cool, brightness } => {
            let first = number::decimal(number::percent(warm as int) as nat);
            let second = number::decimal(number::percent(cool as int) as nat);
            let level = number::decimal(number::percent(brightness as int) as nat);
            lemma_number_has_no_line_break(number::percent(warm as int) as nat);
            lemma_number_has_no_line_break(number::percent(cool as int) as nat);
            lemma_number_has_no_line_break(number::percent(brightness as int) as nat);
            let head = "ok temp warm="@ + first;
            let middle = head + " cool="@ + second;
            lemma_concat_has_no_line_break("ok temp warm="@, first);
            lemma_concat_has_no_line_break(head, " cool="@);
            lemma_concat_has_no_line_break(head + " cool="@, second);
            lemma_concat_has_no_line_break(middle, " brightness="@);
            lemma_concat_has_no_line_break(middle + " brightness="@, level);
        },
        Command::Top { state } => {
            lemma_concat_has_no_line_break("ok top="@, packet::switch_text(state));
        },
        Command::Bottom { state } => {
            lemma_concat_has_no_line_break("ok bottom="@, packet::switch_text(state));
        },
        _ => {},
    }
}

/// Only dropping the connection takes no packets.
pub proof fn law_only_disconnecting_takes_no_packets(
    command: Command,
    config: config::ConfigView,
)
    requires
        is_sent(command),
        command_packets(command, config) is Ok,
    ensures
        command_packets(command, config)->Ok_0.len() == 0 <==> command == Command::Disconnect,
{
}

// ----------------------------------------------------------------------- uuid

/// A UUID in lower case and in its long form: four bytes of text are the part
/// that tells one Bluetooth UUID from another.
pub open spec fn normalized_uuid(uuid: Seq<char>) -> Seq<char> {
    let lower = text::lowercase(uuid);
    if vstd::utf8::encode_utf8(lower).len() == 4 {
        "0000"@ + lower + "-0000-1000-8000-00805f9b34fb"@
    } else {
        lower
    }
}

/// A UUID in lower case and in its long form.
pub fn normalize_uuid(uuid: &str) -> (r: String)
    ensures
        r@ == normalized_uuid(uuid@),
{
    let uuid = to_lowercase(uuid);
    if uuid.as_str().as_bytes().len() == 4 {
        let mut out = concat2("0000", uuid.as_str());
        out.append("-0000-1000-8000-00805f9b34fb");
        out
    } else {
        uuid
    }
}

proof fn lemma_uuid_tail()
    ensures
        text::all_ascii("0000"@),
        text::all_ascii("-0000-1000-8000-00805f9b34fb"@),
        forall|i: int| 0 <= i < 4 ==> text::ascii_lower(#[trigger] "0000"@[i]) == "0000"@[i],
        forall|i: int|
            0 <= i < 28 ==> text::ascii_lower(#[trigger] "-0000-1000-8000-00805f9b34fb"@[i])
                == "-0000-1000-8000-00805f9b34fb"@[i],
        "0000"@.len() == 4,
        "-0000-1000-8000-00805f9b34fb"@.len() == 28,
{
    reveal_strlit("0000");
    reveal_strlit("-0000-1000-8000-00805f9b34fb");
    let head = seq!['0', '0', '0', '0'];
    let tail = seq![
        '-', '0', '0', '0', '0', '-', '1', '0', '0', '0', '-', '8', '0', '0', '0', '-', '0', '0',
        '8', '0', '5', 'f', '9', 'b', '3', '4', 'f', 'b',
    ];
    assert("0000"@ =~= head);
    assert("-0000-1000-8000-00805f9b34fb"@ =~= tail);
}

/// The long form of a UUID in ASCII is its own long form, so a short UUID and
/// its long form are the same UUID.
pub proof fn law_long_uuid_is_normal(uuid: Seq<char>)
    requires
        text::all_ascii(uuid),
    ensures
        normalized_uuid(normalized_uuid(uuid)) == normalized_uuid(uuid),
{
    let lower = text::lowercase(uuid);
    let long = normalized_uuid(uuid);
    lemma_uuid_tail();
    assert forall|i: int| 0 <= i < lower.len() implies (#[trigger] lower[i] as u32) < 128
        && text::ascii_lower(lower[i]) == lower[i] by {
        assert((uuid[i] as u32) < 128);
    }
    assert(vstd::utf8::is_ascii_chars(lower));
    vstd::utf8::is_ascii_chars_encode_utf8(lower);
    if lower.len() == 4 {
        let head = "0000"@;
        let tail = "-0000-1000-8000-00805f9b34fb"@;
        assert forall|i: int| 0 <= i < long.len() implies (#[trigger] long[i] as u32) < 128
            && text::ascii_lower(long[i]) == long[i] by {
            if i < 4 {
                assert(long[i] == head[i]);
            } else if i < 8 {
                assert(long[i] == lower[i - 4]);
            } else {
                assert(long[i] == tail[i - 8]);
            }
        }
        assert(text::lowercase(long) =~= long);
        assert(vstd::utf8::is_ascii_chars(long));
        vstd::utf8::is_ascii_chars_encode_utf8(long);
    } else {
        assert(text::lowercase(lower) =~= lower);
    }
}

// ------------------------------------------------------------------- dispatch

/// How an invocation is carried out.
#[derive(Debug, PartialEq, Eq)]
pub enum Task<'a> {
    /// Write the packets of a command.
    Send(&'a Command),
    /// Write the packets that change only the brightness.
    Brightness(u8),
    Probe,
    Listen(u64),
    State,
    RawWrite { uuid: &'a str, hex: &'a str, listen_seconds: u64 },
}

/// What an invocation asks for: a command, or else only a brightness.
pub fn task_for<'a>(command: Option<&'a Command>, brightness: Option<u8>) -> (r: Result<
    Task<'a>,
    LampError,
>)
    ensures
        match command {
            Some(command) => match r {
                Ok(task) => match *command {
                    Command::Probe => task == Task::Probe,
                    Command::Listen { seconds } => task == Task::Listen(seconds),
                    Command::State => task == Task::State,
                    Command::RawWrite { uuid, hex, listen_seconds } => match task {
                        Task::RawWrite { uuid: u, hex: h, listen_seconds: s } => u@ == uuid@ && h@
                            == hex@ && s == listen_seconds,
                        _ => false,
                    },
                    _ => task == Task::Send(command) && is_sent(*command),
                },
                Err(_) => false,
            },
            None => match (r, brightness) {
                (Ok(task), Some(value)) => task == Task::Brightness(value),
                (Err(e), None) => e@ == error::Failure::MissingCommand,
                _ => false,
            },
        },
{
    match command {
        Some(command) => Ok(
            match command {
                Command::Probe => Task::Probe,
                Command::Listen { seconds } => Task::Listen(*seconds),
                Command::State => Task::State,
                Command::RawWrite { uuid, hex, listen_seconds } => Task::RawWrite {
                    uuid: uuid.as_str(),
                    hex: hex.as_str(),
                    listen_seconds: *listen_seconds,
                },
                _ => Task::Send(command),
            },
        ),
        None => match brightness {
            Some(brightness) => Ok(Task::Brightness(brightness)),
            None => Err(LampError::MissingCommand),
        },
    }
}

/// A packet that is written as it is given, and the UUID of the characteristic
/// that it is written to.
#[derive(Debug, PartialEq, Eq)]
pub struct RawPacket {
    pub uuid: String,
    pub bytes: Vec<u8>,
}

/// The packet that is given in hexadecimal.
pub fn raw_write_with_retries(uuid: &str, raw_hex: &str) -> (r: Result<RawPacket, LampError>)
    requires
        hex::hex_splits(raw_hex@),
    ensures
        match (r, hex::hex_bytes(raw_hex@)) {
            (Ok(packet), Ok(bytes)) => packet.bytes@ == bytes && packet.uuid@ == normalized_uuid(
                uuid@,
            ),
            (Err(e), Err(failure)) => e@ == failure,
            _ => false,
        },
{
    match parse_hex(raw_hex) {
        Ok(bytes) => Ok(RawPacket { uuid: normalize_uuid(uuid), bytes }),
        Err(e) => Err(e),
    }
}

} // verus!
