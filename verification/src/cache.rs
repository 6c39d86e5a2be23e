//! The state that was last commanded: how it is stored, how a command changes
//! it, and how the brightness is changed on its ground.

use crate::command;
use crate::command::{command_success_message, Command};
use crate::config;
use crate::config::Config;
use crate::error;
use crate::error::{concat2, CachedField, LampError};
use crate::hex;
use crate::number;
use crate::number::{clamp_percent, decimal_text, parse_number};
use crate::packet;
use crate::packet::{
    cw_command, cw_temperature_label, number_line, parse_rgb_value, rgb_command, temp_command,
    top_command, SwitchState,
};
use crate::text;
use crate::text::{join, parse_entries, same_text};
use vstd::prelude::*;

verus! {

/// The state that was last commanded, as far as it is known.
#[derive(Debug, PartialEq, Eq)]
pub struct CachedLampState {
    pub updated_unix: Option<u64>,
    pub command: Option<String>,
    pub top: Option<SwitchState>,
    pub bottom: Option<SwitchState>,
    pub mode: Option<String>,
    pub warm: Option<u8>,
    pub cool: Option<u8>,
    pub cw: Option<u8>,
    pub brightness: Option<u8>,
    pub red: Option<u8>,
    pub green: Option<u8>,
    pub blue: Option<u8>,
}

/// A `CachedLampState` with its strings as character sequences.
#[verifier::ext_equal]
pub ghost struct LampState {
    pub updated_unix: Option<u64>,
    pub command: Option<Seq<char>>,
    pub top: Option<SwitchState>,
    pub bottom: Option<SwitchState>,
    pub mode: Option<Seq<char>>,
    pub warm: Option<u8>,
    pub cool: Option<u8>,
    pub cw: Option<u8>,
    pub brightness: Option<u8>,
    pub red: Option<u8>,
    pub green: Option<u8>,
    pub blue: Option<u8>,
}

impl View for CachedLampState {
    type V = LampState;

    open spec fn view(&self) -> LampState {
        LampState {
            updated_unix: self.updated_unix,
            command: text::opt_text(self.command),
            top: self.top,
            bottom: self.bottom,
            mode: text::opt_text(self.mode),
            warm: self.warm,
            cool: self.cool,
            cw: self.cw,
            brightness: self.brightness,
            red: self.red,
            green: self.green,
            blue: self.blue,
        }
    }
}

/// Nothing is known.
pub open spec fn unknown_state() -> LampState {
    LampState {
        updated_unix: None,
        command: None,
        top: None,
        bottom: None,
        mode: None,
        warm: None,
        cool: None,
        cw: None,
        brightness: None,
        red: None,
        green: None,
        blue: None,
    }
}

impl Default for CachedLampState {
    fn default() -> (r: CachedLampState)
        ensures
            r@ == unknown_state(),
    {
        CachedLampState {
            updated_unix: None,
            command: None,
            top: None,
            bottom: None,
            mode: None,
            warm: None,
            cool: None,
            cw: None,
            brightness: None,
            red: None,
            green: None,
            blue: None,
        }
    }
}

impl CachedLampState {
    /// Whether nothing is known.
    pub fn is_empty(&self) -> (r: bool)
        ensures
            r == (self@ == unknown_state()),
    {
        self.updated_unix.is_none() && self.command.is_none() && self.top.is_none()
            && self.bottom.is_none() && self.mode.is_none() && self.warm.is_none()
            && self.cool.is_none() && self.cw.is_none() && self.brightness.is_none()
            && self.red.is_none() && self.green.is_none() && self.blue.is_none()
    }
}

// -------------------------------------------------------------------- reading

/// A text read as a `u64`.
pub open spec fn stored_u64(value: Seq<char>) -> Option<u64> {
    match number::read_number(value, u64::MAX as nat) {
        Ok(n) => Some(n as u64),
        Err(_) => None,
    }
}

/// A text read as a byte.
pub open spec fn stored_byte(value: Seq<char>) -> Option<u8> {
    match number::read_number(value, u8::MAX as nat) {
        Ok(n) => Some(n as u8),
        Err(_) => None,
    }
}

/// A text read as a byte and limited to a percentage.
pub open spec fn stored_percent(value: Seq<char>) -> Option<u8> {
    match stored_byte(value) {
        Some(n) => Some(number::percent(n as int) as u8),
        None => None,
    }
}

/// A text read as a switch state.
pub open spec fn stored_switch(value: Seq<char>) -> Option<SwitchState> {
    if value == "on"@ || value == "ON"@ || value == "On"@ {
        Some(SwitchState::On)
    } else if value == "off"@ || value == "OFF"@ || value == "Off"@ {
        Some(SwitchState::Off)
    } else {
        None
    }
}

/// A text, unless it is empty.
pub open spec fn stored_text(value: Seq<char>) -> Option<Seq<char>> {
    if value.len() == 0 {
        None
    } else {
        Some(value)
    }
}

/// The state after one stored entry. Other keys change nothing.
pub open spec fn with_entry(state: LampState, entry: (Seq<char>, Seq<char>)) -> LampState {
    let (key, value) = entry;
    if key == "UPDATED_UNIX"@ {
        LampState { updated_unix: stored_u64(value), ..state }
    } else if key == "COMMAND"@ {
        LampState { command: stored_text(value), ..state }
    } else if key == "TOP"@ {
        LampState { top: stored_switch(value), ..state }
    } else if key == "BOTTOM"@ {
        LampState { bottom: stored_switch(value), ..state }
    } else if key == "MODE"@ {
        LampState { mode: stored_text(value), ..state }
    } else if key == "WARM"@ {
        LampState { warm: stored_percent(value), ..state }
    } else if key == "COOL"@ {
        LampState { cool: stored_percent(value), ..state }
    } else if key == "CW"@ {
        LampState { cw: stored_byte(value), ..state }
    } else if key == "BRIGHTNESS"@ {
        LampState { brightness: stored_percent(value), ..state }
    } else if key == "RED"@ {
        LampState { red: stored_byte(value), ..state }
    } else if key == "GREEN"@ {
        LampState { green: stored_byte(value), ..state }
    } else if key == "BLUE"@ {
        LampState { blue: stored_byte(value), ..state }
    } else {
        state
    }
}

/// The state after stored entries, one after the other.
pub open spec fn with_entries(state: LampState, entries: Seq<(Seq<char>, Seq<char>)>) -> LampState
    decreases entries.len(),
{
    if entries.len() == 0 {
        state
    } else {
        with_entry(with_entries(state, entries.drop_last()), entries.last())
    }
}

/// The state that a stored text gives.
pub open spec fn parsed_state(raw: Seq<char>) -> LampState {
    with_entries(unknown_state(), text::text_entries(raw))
}

/// The stored state; nothing is known if there is no stored text.
pub open spec fn stored_state(raw: Option<Seq<char>>) -> LampState {
    match raw {
        Some(raw) => parsed_state(raw),
        None => unknown_state(),
    }
}

/// The text, unless it is empty.
pub fn non_empty(value: &str) -> (r: Option<String>)
    ensures
        text::opt_text(r) == stored_text(value@),
{
    if value.is_empty() {
        None
    } else {
        Some(value.to_owned())
    }
}

/// A stored byte.
pub fn parse_cached_byte(value: &str) -> (r: Option<u8>)
    ensures
        r == stored_byte(value@),
{
    proof {
        number::law_number_accepted(value@, u8::MAX as nat);
    }
    match parse_number(value, u8::MAX as u64) {
        Ok(n) => Some(n as u8),
        Err(_) => None,
    }
}

/// A stored percentage.
pub fn parse_cached_percent(value: &str) -> (r: Option<u8>)
    ensures
        r == stored_percent(value@),
{
    match parse_cached_byte(value) {
        Some(n) => Some(clamp_percent(n)),
        None => None,
    }
}

fn parse_cached_u64(value: &str) -> (r: Option<u64>)
    ensures
        r == stored_u64(value@),
{
    match parse_number(value, u64::MAX) {
        Ok(n) => Some(n),
        Err(_) => None,
    }
}

/// A stored switch state.
pub fn parse_switch_state(value: &str) -> (r: Option<SwitchState>)
    ensures
        r == stored_switch(value@),
{
    if same_text(value, "on") || same_text(value, "ON") || same_text(value, "On") {
        Some(SwitchState::On)
    } else if same_text(value, "off") || same_text(value, "OFF") || same_text(value, "Off") {
        Some(SwitchState::Off)
    } else {
        None
    }
}

fn set_entry(state: &mut CachedLampState, key: &str, value: &str)
    ensures
        final(state)@ == with_entry(old(state)@, (key@, value@)),
{
    if same_text(key, "UPDATED_UNIX") {
        state.updated_unix = parse_cached_u64(value);
    } else if same_text(key, "COMMAND") {
        state.command = non_empty(value);
    } else if same_text(key, "TOP") {
        state.top = parse_switch_state(value);
    } else if same_text(key, "BOTTOM") {
        state.bottom = parse_switch_state(value);
    } else if same_text(key, "MODE") {
        state.mode = non_empty(value);
    } else if same_text(key, "WARM") {
        state.warm = parse_cached_percent(value);
    } else if same_text(key, "COOL") {
        state.cool = parse_cached_percent(value);
    } else if same_text(key, "CW") {
        state.cw = parse_cached_byte(value);
    } else if same_text(key, "BRIGHTNESS") {
        state.brightness = parse_cached_percent(value);
    } else if same_text(key, "RED") {
        state.red = parse_cached_byte(value);
    } else if same_text(key, "GREEN") {
        state.green = parse_cached_byte(value);
    } else if same_text(key, "BLUE") {
        state.blue = parse_cached_byte(value);
    }
}

/// Reads a stored state. Lines that cannot be used are passed over.
pub fn parse_cached_lamp_state(raw: &str) -> (r: CachedLampState)
    ensures
        r@ == parsed_state(raw@),
{
    let entries = parse_entries(raw);
    let mut state = CachedLampState::default();
    let ghost all = text::pairs(entries@);
    let mut i: usize = 0;
    assert(all.take(0).len() == 0);
    while i < entries.len()
        invariant
            i <= entries.len(),
            all == text::pairs(entries@),
            state@ == with_entries(unknown_state(), all.take(i as int)),
        decreases entries.len() - i,
    {
        let ghost now = all.take(i as int + 1);
        assert(now.drop_last() =~= all.take(i as int));
        assert(now.last() == (entries@[i as int].0@, entries@[i as int].1@));
        set_entry(&mut state, entries[i].0.as_str(), entries[i].1.as_str());
        i += 1;
    }
    assert(all.take(i as int) =~= all);
    state
}

/// Reads the stored state, if there is a stored text.
pub fn read_cached_lamp_state(raw: Option<&str>) -> (r: CachedLampState)
    ensures
        r@ == stored_state(text::opt_str(raw)),
{
    match raw {
        Some(raw) => parse_cached_lamp_state(raw),
        None => CachedLampState::default(),
    }
}

// -------------------------------------------------------------------- writing

/// The entry for a value, if there is one.
pub open spec fn opt_entry(key: Seq<char>, value: Option<Seq<char>>) -> Seq<
    (Seq<char>, Seq<char>),
> {
    match value {
        Some(value) => seq![(key, value)],
        None => Seq::empty(),
    }
}

/// A number as text.
pub open spec fn opt_decimal(value: Option<u64>) -> Option<Seq<char>> {
    match value {
        Some(n) => Some(number::decimal(n as nat)),
        None => None,
    }
}

/// A byte as text.
pub open spec fn opt_byte(value: Option<u8>) -> Option<Seq<char>> {
    match value {
        Some(n) => Some(number::decimal(n as nat)),
        None => None,
    }
}

/// A switch state as text.
pub open spec fn opt_switch(value: Option<SwitchState>) -> Option<Seq<char>> {
    match value {
        Some(state) => Some(packet::switch_text(state)),
        None => None,
    }
}

/// The entries under which a state is stored, in their order.
pub open spec fn state_entries(state: LampState) -> Seq<(Seq<char>, Seq<char>)> {
    opt_entry("UPDATED_UNIX"@, opt_decimal(state.updated_unix)) + opt_entry(
        "COMMAND"@,
        state.command,
    ) + opt_entry("TOP"@, opt_switch(state.top)) + opt_entry(
        "BOTTOM"@,
        opt_switch(state.bottom),
    ) + opt_entry("MODE"@, state.mode) + opt_entry("WARM"@, opt_byte(state.warm)) + opt_entry(
        "COOL"@,
        opt_byte(state.cool),
    ) + opt_entry("CW"@, opt_byte(state.cw)) + opt_entry(
        "BRIGHTNESS"@,
        opt_byte(state.brightness),
    ) + opt_entry("RED"@, opt_byte(state.red)) + opt_entry("GREEN"@, opt_byte(state.green))
        + opt_entry("BLUE"@, opt_byte(state.blue))
}

/// The text under which a state is stored.
pub open spec fn state_text(state: LampState) -> Seq<char> {
    text::joined(text::entry_lines(state_entries(state)), "\n"@) + "\n"@
}

/// Appends the line for a text, if there is one.
pub fn push_optional_ref(lines: &mut Vec<String>, key: &str, value: Option<&str>)
    ensures
        text::texts(final(lines)@) == text::texts(old(lines)@) + text::entry_lines(
            opt_entry(key@, text::opt_str(value)),
        ),
{
    let ghost expected = text::texts(lines@) + text::entry_lines(
        opt_entry(key@, text::opt_str(value)),
    );
    match value {
        Some(value) => {
            let mut line = concat2(key, "=");
            line.append(value);
            lines.push(line);
        },
        None => {},
    }
    assert(text::texts(lines@) =~= expected);
}

/// Appends the line for a number, if there is one.
pub fn push_optional(lines: &mut Vec<String>, key: &str, value: Option<u64>)
    ensures
        text::texts(final(lines)@) == text::texts(old(lines)@) + text::entry_lines(
            opt_entry(key@, opt_decimal(value)),
        ),
{
    match value {
        Some(n) => {
            let digits = decimal_text(n);
            push_optional_ref(lines, key, Some(digits.as_str()));
        },
        None => {
            push_optional_ref(lines, key, None);
        },
    }
}

fn push_optional_byte(lines: &mut Vec<String>, key: &str, value: Option<u8>)
    ensures
        text::texts(final(lines)@) == text::texts(old(lines)@) + text::entry_lines(
            opt_entry(key@, opt_byte(value)),
        ),
{
    match value {
        Some(n) => {
            push_optional(lines, key, Some(n as u64));
        },
        None => {
            push_optional(lines, key, None);
        },
    }
}

fn push_optional_switch(lines: &mut Vec<String>, key: &str, value: Option<SwitchState>)
    ensures
        text::texts(final(lines)@) == text::texts(old(lines)@) + text::entry_lines(
            opt_entry(key@, opt_switch(value)),
        ),
{
    match value {
        Some(state) => {
            push_optional_ref(lines, key, Some(state.as_str()));
        },
        None => {
            push_optional_ref(lines, key, None);
        },
    }
}

fn push_optional_string(lines: &mut Vec<String>, key: &str, value: &Option<String>)
    ensures
        text::texts(final(lines)@) == text::texts(old(lines)@) + text::entry_lines(
            opt_entry(key@, text::opt_text(*value)),
        ),
{
    match value {
        Some(value) => {
            push_optional_ref(lines, key, Some(value.as_str()));
        },
        None => {
            push_optional_ref(lines, key, None);
        },
    }
}

broadcast proof fn lemma_entry_lines_concat(
    a: Seq<(Seq<char>, Seq<char>)>,
    b: Seq<(Seq<char>, Seq<char>)>,
)
    ensures
        #[trigger] text::entry_lines(a + b) == text::entry_lines(a) + text::entry_lines(b),
{
    assert(text::entry_lines(a + b) =~= text::entry_lines(a) + text::entry_lines(b));
}

/// The text under which a state is stored.
pub fn serialize_cached_lamp_state(state: &CachedLampState) -> (r: String)
    ensures
        r@ == state_text(state@),
{
    broadcast use lemma_entry_lines_concat;

    let mut lines: Vec<String> = Vec::new();
    assert(text::texts(lines@) =~= Seq::empty());
    push_optional(&mut lines, "UPDATED_UNIX", state.updated_unix);
    assert(text::texts(lines@) =~= text::entry_lines(
        opt_entry("UPDATED_UNIX"@, opt_decimal(state.updated_unix)),
    ));
    push_optional_string(&mut lines, "COMMAND", &state.command);
    push_optional_switch(&mut lines, "TOP", state.top);
    push_optional_switch(&mut lines, "BOTTOM", state.bottom);
    push_optional_string(&mut lines, "MODE", &state.mode);
    push_optional_byte(&mut lines, "WARM", state.warm);
    push_optional_byte(&mut lines, "COOL", state.cool);
    push_optional_byte(&mut lines, "CW", state.cw);
    push_optional_byte(&mut lines, "BRIGHTNESS", state.brightness);
    push_optional_byte(&mut lines, "RED", state.red);
    push_optional_byte(&mut lines, "GREEN", state.green);
    push_optional_byte(&mut lines, "BLUE", state.blue);
    assert(text::texts(lines@) == text::entry_lines(state_entries(state@)));
    let mut out = join(lines.as_slice(), "\n");
    out.append("\n");
    out
}

// ---------------------------------------------------------- what commands do

/// The state after a command, if the command changes it. A colour that cannot
/// be read changes nothing that could be stored.
pub open spec fn state_after(
    command: Command,
    config: config::ConfigView,
    prior: LampState,
    now: Option<u64>,
) -> Option<LampState> {
    let state = LampState { updated_unix: now, ..prior };
    match command {
        Command::Warm => Some(
            LampState {
                command: Some("warm"@),
                top: Some(SwitchState::On),
                bottom: Some(SwitchState::Off),
                mode: Some("temp"@),
                warm: Some(config.warm_white),
                cool: Some(config.cool_white),
                cw: None,
                brightness: Some(config.brightness),
                red: None,
                green: None,
                blue: None,
                ..state
            },
        ),
        Command::Temp { warm, cool, brightness } => Some(
            LampState {
                command: Some("temp"@),
                top: Some(SwitchState::On),
                mode: Some("temp"@),
                warm: Some(number::percent(warm as int) as u8),
                cool: Some(number::percent(cool as int) as u8),
                cw: None,
                brightness: Some(number::percent(brightness as int) as u8),
                red: None,
                green: None,
                blue: None,
                ..state
            },
        ),
        Command::Rgb { value, brightness } => match packet::rgb_value(value@) {
            Ok((red, green, blue)) => Some(
                LampState {
                    command: Some("rgb --value #"@ + hex::hex_text(seq![red, green, blue])),
                    top: Some(SwitchState::On),
                    mode: Some("rgb"@),
                    red: Some(red),
                    green: Some(green),
                    blue: Some(blue),
                    brightness: Some(number::percent(brightness as int) as u8),
                    warm: None,
                    cool: None,
                    cw: None,
                    ..state
                },
            ),
            Err(_) => None,
        },
        Command::Cw { value, brightness } => Some(
            LampState {
                command: Some("cw --value "@ + number::decimal(value as nat)),
                top: Some(SwitchState::On),
                mode: Some("cw"@),
                cw: Some(value),
                brightness: Some(number::percent(brightness as int) as u8),
                warm: None,
                cool: None,
                red: None,
                green: None,
                blue: None,
                ..state
            },
        ),
        Command::Off => Some(
            LampState {
                command: Some("off"@),
                top: Some(SwitchState::Off),
                bottom: Some(SwitchState::Off),
                mode: Some("off"@),
                warm: None,
                cool: None,
                cw: None,
                brightness: Some(0u8),
                red: None,
                green: None,
                blue: None,
                ..state
            },
        ),
        Command::Top { state: top } => Some(
            LampState {
                command: Some("top "@ + packet::switch_text(top)),
                top: Some(top),
                ..state
            },
        ),
        Command::Bottom { state: bottom } => Some(
            LampState {
                command: Some("bottom "@ + packet::switch_text(bottom)),
                bottom: Some(bottom),
                ..state
            },
        ),
        _ => None,
    }
}

/// The text of an optional state.
pub open spec fn opt_state(state: Option<CachedLampState>) -> Option<LampState> {
    match state {
        Some(state) => Some(state@),
        None => None,
    }
}

/// The state to store once a command has been carried out, on the ground of
/// the stored text, at the time `now`.
pub fn cached_state_for_command(
    command: &Command,
    config: &Config,
    stored: Option<&str>,
    now: Option<u64>,
) -> (r: Option<CachedLampState>)
    requires
        command::colour_splits(*command),
    ensures
        opt_state(r) == state_after(*command, config@, stored_state(text::opt_str(stored)), now),
{
    let mut state = read_cached_lamp_state(stored);
    state.updated_unix = now;
    match command {
        Command::Warm => {
            state.command = Some("warm".to_owned());
            state.top = Some(SwitchState::On);
            state.bottom = Some(SwitchState::Off);
            state.mode = Some("temp".to_owned());
            state.warm = Some(config.warm_white);
            state.cool = Some(config.cool_white);
            state.cw = None;
            state.brightness = Some(config.brightness);
            state.red = None;
            state.green = None;
            state.blue = None;
        },
        Command::Temp { warm, cool, brightness } => {
            state.command = Some("temp".to_owned());
            state.top = Some(SwitchState::On);
            state.mode = Some("temp".to_owned());
            state.warm = Some(clamp_percent(*warm));
            state.cool = Some(clamp_percent(*cool));
            state.cw = None;
            state.brightness = Some(clamp_percent(*brightness));
            state.red = None;
            state.green = None;
            state.blue = None;
        },
        Command::Rgb { value, brightness } => {
            let (red, green, blue) = match parse_rgb_value(value.as_str()) {
                Ok(colour) => colour,
                Err(_) => return None,
            };
            let digits = hex::hex(vec![red, green, blue].as_slice());
            state.command = Some(concat2("rgb --value #", digits.as_str()));
            state.top = Some(SwitchState::On);
            state.mode = Some("rgb".to_owned());
            state.red = Some(red);
            state.green = Some(green);
            state.blue = Some(blue);
            state.brightness = Some(clamp_percent(*brightness));
            state.warm = None;
            state.cool = None;
            state.cw = None;
        },
        Command::Cw { value, brightness } => {
            state.command = Some(number_line("cw --value ", *value as u64));
            state.top = Some(SwitchState::On);
            state.mode = Some("cw".to_owned());
            state.cw = Some(*value);
            state.brightness = Some(clamp_percent(*brightness));
            state.warm = None;
            state.cool = None;
            state.red = None;
            state.green = None;
            state.blue = None;
        },
        Command::Off => {
            state.command = Some("off".to_owned());
            state.top = Some(SwitchState::Off);
            state.bottom = Some(SwitchState::Off);
            state.mode = Some("off".to_owned());
            state.warm = None;
            state.cool = None;
            state.cw = None;
            state.brightness = Some(0);
            state.red = None;
            state.green = None;
            state.blue = None;
        },
        Command::Top { state: top } => {
            state.command = Some(concat2("top ", top.as_str()));
            state.top = Some(*top);
        },
        Command::Bottom { state: bottom } => {
            state.command = Some(concat2("bottom ", bottom.as_str()));
            state.bottom = Some(*bottom);
        },
        _ => return None,
    }
    Some(state)
}

// ------------------------------------------------------- brightness by itself

/// The packets that change only the brightness of a cached mode, and the state
/// after them.
pub open spec fn brightness_change(
    cached: LampState,
    brightness: u8,
    now: Option<u64>,
) -> Result<(Seq<Seq<u8>>, LampState), error::Failure> {
    let level = number::percent(brightness as int) as u8;
    let top_on = packet::top_packet(SwitchState::On);
    let state = LampState {
        updated_unix: now,
        command: Some("brightness "@ + number::decimal(level as nat)),
        top: match cached.top {
            Some(top) => Some(top),
            None => Some(SwitchState::On),
        },
        bottom: cached.bottom,
        mode: cached.mode,
        brightness: Some(level),
        ..unknown_state()
    };
    let missing = |field: CachedField| error::Failure::CachedValueMissing { field };
    if cached.mode == Some("cw"@) {
        match cached.cw {
            Some(cw) => Ok(
                (
                    seq![top_on, packet::cw_packet(cw, level)],
                    LampState { cw: Some(cw), ..state },
                ),
            ),
            None => Err(missing(CachedField::Cw)),
        }
    } else if cached.mode == Some("rgb"@) {
        match (cached.red, cached.green, cached.blue) {
            (None, _, _) => Err(missing(CachedField::Red)),
            (_, None, _) => Err(missing(CachedField::Green)),
            (_, _, None) => Err(missing(CachedField::Blue)),
            (Some(red), Some(green), Some(blue)) => Ok(
                (
                    seq![top_on, packet::rgb_packet(red, green, blue, level)],
                    LampState { red: Some(red), green: Some(green), blue: Some(blue), ..state },
                ),
            ),
        }
    } else if cached.mode == Some("temp"@) {
        match (cached.warm, cached.cool) {
            (None, _) => Err(missing(CachedField::Warm)),
            (_, None) => Err(missing(CachedField::Cool)),
            (Some(warm), Some(cool)) => Ok(
                (
                    seq![top_on, packet::temp_packet(warm, cool, level)],
                    LampState { warm: Some(warm), cool: Some(cool), ..state },
                ),
            ),
        }
    } else {
        Err(error::Failure::NoCachedMode)
    }
}

fn has_mode(state: &CachedLampState, mode: &str) -> (r: bool)
    ensures
        r == (state@.mode == Some(mode@)),
{
    match &state.mode {
        Some(cached) => same_text(cached.as_str(), mode),
        None => false,
    }
}

/// The packets that change only the brightness of the cached mode, and the
/// state to store once they have been written, at the time `now`.
pub fn brightness_only_commands(
    cached: &CachedLampState,
    brightness: u8,
    now: Option<u64>,
) -> (r: Result<(Vec<Vec<u8>>, CachedLampState), LampError>)
    ensures
        match (r, brightness_change(cached@, brightness, now)) {
            (Ok((commands, state)), Ok((expected, after))) => command::packets(commands@)
                == expected && state@ == after,
            (Err(e), Err(failure)) => e@ == failure,
            _ => false,
        },
{
    let ghost outcome = brightness_change(cached@, brightness, now);
    let level = clamp_percent(brightness);
    let mut state = CachedLampState::default();
    state.updated_unix = now;
    state.brightness = Some(level);
    state.command = Some(number_line("brightness ", level as u64));
    state.top = match cached.top {
        Some(top) => Some(top),
        None => Some(SwitchState::On),
    };
    state.bottom = cached.bottom;
    if has_mode(cached, "cw") {
        let cw = match cached.cw {
            Some(cw) => cw,
            None => return Err(LampError::CachedValueMissing { field: CachedField::Cw }),
        };
        state.mode = Some("cw".to_owned());
        state.cw = Some(cw);
        let commands = vec![top_command(SwitchState::On), cw_command(cw, level)];
        assert(command::packets(commands@) =~= outcome->Ok_0.0);
        Ok((commands, state))
    } else if has_mode(cached, "rgb") {
        let red = match cached.red {
            Some(red) => red,
            None => return Err(LampError::CachedValueMissing { field: CachedField::Red }),
        };
        let green = match cached.green {
            Some(green) => green,
            None => return Err(LampError::CachedValueMissing { field: CachedField::Green }),
        };
        let blue = match cached.blue {
            Some(blue) => blue,
            None => return Err(LampError::CachedValueMissing { field: CachedField::Blue }),
        };
        state.mode = Some("rgb".to_owned());
        state.red = Some(red);
        state.green = Some(green);
        state.blue = Some(blue);
        let commands = vec![top_command(SwitchState::On), rgb_command(red, green, blue, level)];
        assert(command::packets(commands@) =~= outcome->Ok_0.0);
        Ok((commands, state))
    } else if has_mode(cached, "temp") {
        let warm = match cached.warm {
            Some(warm) => warm,
            None => return Err(LampError::CachedValueMissing { field: CachedField::Warm }),
        };
        let cool = match cached.cool {
            Some(cool) => cool,
            None => return Err(LampError::CachedValueMissing { field: CachedField::Cool }),
        };
        state.mode = Some("temp".to_owned());
        state.warm = Some(warm);
        state.cool = Some(cool);
        let commands = vec![top_command(SwitchState::On), temp_command(warm, cool, level)];
        assert(command::packets(commands@) =~= outcome->Ok_0.0);
        Ok((commands, state))
    } else {
        Err(LampError::NoCachedMode)
    }
}

// ----------------------------------------------------------------------- jobs

/// What there is to write to the lamp, and what follows when it has been
/// written: a state to store and a line to print.
#[derive(Debug, PartialEq, Eq)]
pub struct SendJob {
    pub commands: Vec<Vec<u8>>,
    pub state: Option<CachedLampState>,
    pub message: String,
}

/// The job of writing the packets of a command.
pub fn send_with_retries(
    config: &Config,
    command: &Command,
    commands: Vec<Vec<u8>>,
    stored: Option<&str>,
    now: Option<u64>,
) -> (r: SendJob)
    requires
        command::colour_splits(*command),
    ensures
        r.commands == commands,
        opt_state(r.state) == state_after(
            *command,
            config@,
            stored_state(text::opt_str(stored)),
            now,
        ),
        r.message@ == command::success_text(*command),
{
    let state = cached_state_for_command(command, config, stored, now);
    let message = command_success_message(command);
    SendJob { commands, state, message }
}

/// The job of changing only the brightness.
pub fn brightness_with_retries(stored: Option<&str>, brightness: u8, now: Option<u64>) -> (r:
    Result<SendJob, LampError>)
    ensures
        match (r, brightness_change(stored_state(text::opt_str(stored)), brightness, now)) {
            (Ok(job), Ok((packets, after))) => {
                &&& command::packets(job.commands@) == packets
                &&& opt_state(job.state) == Some(after)
                &&& job.message@ == "ok brightness="@ + number::decimal(
                    number::percent(brightness as int) as nat,
                )
            },
            (Err(e), Err(failure)) => e@ == failure,
            _ => false,
        },
{
    let cached = read_cached_lamp_state(stored);
    match brightness_only_commands(&cached, brightness, now) {
        Ok((commands, state)) => Ok(
            SendJob {
                commands,
                state: Some(state),
                message: number_line("ok brightness=", clamp_percent(brightness) as u64),
            },
        ),
        Err(e) => Err(e),
    }
}

// --------------------------------------------------------------------- report

/// The line for a value, if there is one.
pub open spec fn opt_line(label: Seq<char>, value: Option<Seq<char>>) -> Seq<Seq<char>> {
    match value {
        Some(value) => seq![label + value],
        None => Seq::empty(),
    }
}

/// The lines that report a cached state that is stored under a path.
pub open spec fn cached_state_lines(state: LampState, path: Seq<char>) -> Seq<Seq<char>> {
    if state == unknown_state() {
        seq!["cached_state unavailable"@]
    } else {
        seq!["cached_state source=last_successful_command path="@ + path] + opt_line(
            "  updated_unix="@,
            opt_decimal(state.updated_unix),
        ) + opt_line("  command="@, state.command) + opt_line("  top="@, opt_switch(state.top))
            + opt_line("  bottom="@, opt_switch(state.bottom)) + opt_line("  mode="@, state.mode)
            + opt_line("  warm="@, opt_byte(state.warm)) + opt_line(
            "  cool="@,
            opt_byte(state.cool),
        ) + opt_line("  cw="@, opt_byte(state.cw)) + opt_line(
            "  cw_temperature="@,
            match state.cw {
                Some(cw) => Some(packet::cw_label(cw)),
                None => None,
            },
        ) + opt_line("  brightness="@, opt_byte(state.brightness)) + opt_line(
            "  red="@,
            opt_byte(state.red),
        ) + opt_line("  green="@, opt_byte(state.green)) + opt_line(
            "  blue="@,
            opt_byte(state.blue),
        ) + seq!["  trust=cached_not_live"@]
    }
}

fn push_line(lines: &mut Vec<String>, label: &str, value: Option<&str>)
    ensures
        text::texts(final(lines)@) == text::texts(old(lines)@) + opt_line(
            label@,
            text::opt_str(value),
        ),
{
    let ghost expected = text::texts(lines@) + opt_line(label@, text::opt_str(value));
    match value {
        Some(value) => {
            lines.push(concat2(label, value));
        },
        None => {},
    }
    assert(text::texts(lines@) =~= expected);
}

fn push_string_line(lines: &mut Vec<String>, label: &str, value: &Option<String>)
    ensures
        text::texts(final(lines)@) == text::texts(old(lines)@) + opt_line(
            label@,
            text::opt_text(*value),
        ),
{
    match value {
        Some(value) => {
            push_line(lines, label, Some(value.as_str()));
        },
        None => {
            push_line(lines, label, None);
        },
    }
}

fn push_switch_line(lines: &mut Vec<String>, label: &str, value: Option<SwitchState>)
    ensures
        text::texts(final(lines)@) == text::texts(old(lines)@) + opt_line(
            label@,
            opt_switch(value),
        ),
{
    match value {
        Some(state) => {
            push_line(lines, label, Some(state.as_str()));
        },
        None => {
            push_line(lines, label, None);
        },
    }
}

fn push_byte_line(lines: &mut Vec<String>, label: &str, value: Option<u8>)
    ensures
        text::texts(final(lines)@) == text::texts(old(lines)@) + opt_line(label@, opt_byte(value)),
{
    match value {
        Some(n) => {
            let digits = decimal_text(n as u64);
            push_line(lines, label, Some(digits.as_str()));
        },
        None => {
            push_line(lines, label, None);
        },
    }
}

/// The lines that report a cached state that is stored under a path, and
/// whether there is anything to report.
pub fn cached_lamp_state_report(state: &CachedLampState, path: &str) -> (r: (Vec<String>, bool))
    ensures
        text::texts(r.0@) == cached_state_lines(state@, path@),
        r.1 == (state@ != unknown_state()),
{
    let mut lines: Vec<String> = Vec::new();
    assert(text::texts(lines@) =~= Seq::empty());
    if state.is_empty() {
        lines.push("cached_state unavailable".to_owned());
        assert(text::texts(lines@) =~= cached_state_lines(state@, path@));
        return (lines, false);
    }
    push_line(&mut lines, "cached_state source=last_successful_command path=", Some(path));
    assert(text::texts(lines@) =~= seq![
        "cached_state source=last_successful_command path="@ + path@,
    ]);
    match state.updated_unix {
        Some(n) => {
            let digits = decimal_text(n);
            push_line(&mut lines, "  updated_unix=", Some(digits.as_str()));
        },
        None => {
            push_line(&mut lines, "  updated_unix=", None);
        },
    }
    push_string_line(&mut lines, "  command=", &state.command);
    push_switch_line(&mut lines, "  top=", state.top);
    push_switch_line(&mut lines, "  bottom=", state.bottom);
    push_string_line(&mut lines, "  mode=", &state.mode);
    push_byte_line(&mut lines, "  warm=", state.warm);
    push_byte_line(&mut lines, "  cool=", state.cool);
    push_byte_line(&mut lines, "  cw=", state.cw);
    match state.cw {
        Some(cw) => {
            push_line(&mut lines, "  cw_temperature=", Some(cw_temperature_label(cw)));
        },
        None => {
            push_line(&mut lines, "  cw_temperature=", None);
        },
    }
    push_byte_line(&mut lines, "  brightness=", state.brightness);
    push_byte_line(&mut lines, "  red=", state.red);
    push_byte_line(&mut lines, "  green=", state.green);
    push_byte_line(&mut lines, "  blue=", state.blue);
    let ghost before = text::texts(lines@);
    lines.push("  trust=cached_not_live".to_owned());
    assert(text::texts(lines@) =~= before + seq!["  trust=cached_not_live"@]);
    (lines, true)
}

} // verus!
