//! What holds of the stored state and of the settings field by field: which key
//! belongs to which field, which texts give which values, and what is reported.

use crate::cache;
use crate::cache::LampState;
use crate::config;
use crate::error;
use crate::number;
use crate::packet;
use crate::packet::SwitchState;
use crate::packet_laws;
use crate::text;
use vstd::prelude::*;

verus! {

// ------------------------------------------------------------ the stored state

proof fn lemma_keys()
    ensures
        "UPDATED_UNIX"@.len() == 12,
        "COMMAND"@.len() == 7,
        "TOP"@.len() == 3,
        "BOTTOM"@.len() == 6,
        "MODE"@.len() == 4,
        "WARM"@.len() == 4,
        "COOL"@.len() == 4,
        "CW"@.len() == 2,
        "BRIGHTNESS"@.len() == 10,
        "RED"@.len() == 3,
        "GREEN"@.len() == 5,
        "BLUE"@.len() == 4,
        "TOP"@[0] == 'T',
        "RED"@[0] == 'R',
        "MODE"@[0] == 'M',
        "WARM"@[0] == 'W',
        "COOL"@[0] == 'C',
        "BLUE"@[0] == 'B',
{
    reveal_strlit("UPDATED_UNIX");
    reveal_strlit("COMMAND");
    reveal_strlit("TOP");
    reveal_strlit("BOTTOM");
    reveal_strlit("MODE");
    reveal_strlit("WARM");
    reveal_strlit("COOL");
    reveal_strlit("CW");
    reveal_strlit("BRIGHTNESS");
    reveal_strlit("RED");
    reveal_strlit("GREEN");
    reveal_strlit("BLUE");
}

/// Which number a stored text gives: its value if it is digits and at most `max`,
/// and none if it is digits that stand for more.
pub proof fn law_stored_numbers(digits: Seq<char>)
    requires
        number::all_digits(digits),
    ensures
        number::digits_value(digits) <= 255 ==> cache::stored_byte(digits) == Some(
            number::digits_value(digits) as u8,
        ),
        number::digits_value(digits) > 255 ==> cache::stored_byte(digits) is None,
        number::digits_value(digits) <= 100 ==> cache::stored_percent(digits) == Some(
            number::digits_value(digits) as u8,
        ),
        100 < number::digits_value(digits) <= 255 ==> cache::stored_percent(digits) == Some(100u8),
        number::digits_value(digits) > 255 ==> cache::stored_percent(digits) is None,
        number::digits_value(digits) <= u64::MAX ==> cache::stored_u64(digits) == Some(
            number::digits_value(digits) as u64,
        ),
        number::digits_value(digits) > u64::MAX ==> cache::stored_u64(digits) is None,
{
    assert(number::is_digit(digits[0]));
    number::law_number_accepted(digits, 255);
    number::law_number_accepted(digits, u64::MAX as nat);
}

/// Which switch a stored text gives.
pub proof fn law_stored_switches(value: Seq<char>)
    ensures
        cache::stored_switch(value) == Some(SwitchState::On) <==> value == "on"@ || value == "ON"@
            || value == "On"@,
        cache::stored_switch(value) == Some(SwitchState::Off) <==> value == "off"@ || value
            == "OFF"@ || value == "Off"@,
        value.len() == 0 ==> cache::stored_text(value) is None,
        value.len() > 0 ==> cache::stored_text(value) == Some(value),
{
    reveal_strlit("on");
    reveal_strlit("ON");
    reveal_strlit("On");
    reveal_strlit("off");
    reveal_strlit("OFF");
    reveal_strlit("Off");
    assert("on"@.len() == 2 && "ON"@.len() == 2 && "On"@.len() == 2);
    assert("off"@.len() == 3 && "OFF"@.len() == 3 && "Off"@.len() == 3);
}

/// Each key of a stored text sets its own field, and nothing else.
pub proof fn law_each_key_sets_its_field(state: LampState, value: Seq<char>)
    ensures
        cache::with_entry(state, ("UPDATED_UNIX"@, value)) == (LampState {
            updated_unix: cache::stored_u64(value),
            ..state
        }),
        cache::with_entry(state, ("COMMAND"@, value)) == (LampState {
            command: cache::stored_text(value),
            ..state
        }),
        cache::with_entry(state, ("TOP"@, value)) == (LampState {
            top: cache::stored_switch(value),
            ..state
        }),
        cache::with_entry(state, ("BOTTOM"@, value)) == (LampState {
            bottom: cache::stored_switch(value),
            ..state
        }),
        cache::with_entry(state, ("MODE"@, value)) == (LampState {
            mode: cache::stored_text(value),
            ..state
        }),
        cache::with_entry(state, ("WARM"@, value)) == (LampState {
            warm: cache::stored_percent(value),
            ..state
        }),
        cache::with_entry(state, ("COOL"@, value)) == (LampState {
            cool: cache::stored_percent(value),
            ..state
        }),
        cache::with_entry(state, ("CW"@, value)) == (LampState {
            cw: cache::stored_byte(value),
            ..state
        }),
        cache::with_entry(state, ("BRIGHTNESS"@, value)) == (LampState {
            brightness: cache::stored_percent(value),
            ..state
        }),
        cache::with_entry(state, ("RED"@, value)) == (LampState {
            red: cache::stored_byte(value),
            ..state
        }),
        cache::with_entry(state, ("GREEN"@, value)) == (LampState {
            green: cache::stored_byte(value),
            ..state
        }),
        cache::with_entry(state, ("BLUE"@, value)) == (LampState {
            blue: cache::stored_byte(value),
            ..state
        }),
{
    lemma_keys();
}

/// Lines of a stored text are taken one after the other: one more line sets one
/// more field, and a text without lines says that nothing is known.
pub proof fn law_stored_lines_follow_each_other(
    state: LampState,
    entries: Seq<(Seq<char>, Seq<char>)>,
    entry: (Seq<char>, Seq<char>),
)
    ensures
        cache::with_entries(state, entries.push(entry)) == cache::with_entry(
            cache::with_entries(state, entries),
            entry,
        ),
        cache::with_entries(state, Seq::empty()) == state,
        cache::parsed_state(Seq::empty()) == cache::unknown_state(),
        cache::stored_state(None) == cache::unknown_state(),
        cache::unknown_state().mode is None && cache::unknown_state().top is None
            && cache::unknown_state().bottom is None && cache::unknown_state().cw is None
            && cache::unknown_state().brightness is None && cache::unknown_state().warm is None
            && cache::unknown_state().cool is None && cache::unknown_state().red is None
            && cache::unknown_state().green is None && cache::unknown_state().blue is None
            && cache::unknown_state().command is None && cache::unknown_state().updated_unix
            is None,
{
    assert(entries.push(entry).drop_last() =~= entries);
    let none = Seq::<char>::empty();
    text::lemma_trim(none);
    text::lemma_first_index(none, '\n');
    assert(none.take(0) =~= none);
    assert(text::line_entry(none) is None);
    assert(text::text_entries(none) =~= Seq::empty());
}

/// One of the lines consists of the label and of the digits of the number.
pub open spec fn has_number(lines: Seq<Seq<char>>, label: Seq<char>, n: nat) -> bool {
    exists|i: int| 0 <= i < lines.len() && packet_laws::tells(#[trigger] lines[i], label, n)
}

proof fn lemma_has_number(lines: Seq<Seq<char>>, label: Seq<char>, n: nat)
    requires
        lines.contains(label + number::decimal(n)),
    ensures
        has_number(lines, label, n),
{
    packet_laws::lemma_tells(label, n);
    let i = lines.index_of(label + number::decimal(n));
    assert(packet_laws::tells(lines[i], label, n));
}

/// The lines, and one more for a value that is known.
#[verifier::opaque]
pub open spec fn with_line(
    lines: Seq<Seq<char>>,
    label: Seq<char>,
    value: Option<Seq<char>>,
) -> Seq<Seq<char>> {
    lines + cache::opt_line(label, value)
}

/// One of the lines is this one.
#[verifier::opaque]
pub open spec fn has_line(lines: Seq<Seq<char>>, line: Seq<char>) -> bool {
    lines.contains(line)
}

proof fn lemma_with_line_len(lines: Seq<Seq<char>>, label: Seq<char>, value: Option<Seq<char>>)
    requires
        lines.len() > 0,
    ensures
        with_line(lines, label, value).len() == lines.len() + known(value),
        with_line(lines, label, value).len() >= lines.len(),
        with_line(lines, label, value)[0] == lines[0],
{
    reveal(with_line);
    reveal(known);
}

/// One more line is there, and the others stay.
pub proof fn lemma_with_line(lines: Seq<Seq<char>>, label: Seq<char>, value: Option<Seq<char>>)
    ensures
        value is Some ==> has_line(with_line(lines, label, value), label + value->0),
        forall|line: Seq<char>| #[trigger]
            has_line(lines, line) ==> has_line(with_line(lines, label, value), line),
{
    reveal(with_line);
    reveal(has_line);
    let all = with_line(lines, label, value);
    assert forall|line: Seq<char>| #[trigger] has_line(lines, line) implies has_line(
        all,
        line,
    ) by {
        let i = lines.index_of(line);
        assert(all[i] == line);
    }
    if value is Some {
        assert(all[lines.len() as int] == label + value->0);
    }
}

/// One if the value is known.
#[verifier::opaque]
pub open spec fn known<T>(value: Option<T>) -> int {
    if value is Some {
        1
    } else {
        0
    }
}

/// The lines tell each field of the state that is known, and no other.
pub open spec fn tells_the_state(lines: Seq<Seq<char>>, state: LampState, path: Seq<char>) -> bool {
    &&& lines[0] == "cached_state source=last_successful_command path="@ + path
    &&& lines.last() == "  trust=cached_not_live"@
    &&& lines.len() == 2 + known(state.updated_unix) + known(state.command) + known(state.top)
        + known(state.bottom) + known(state.mode) + known(state.warm) + known(state.cool) + 2
        * known(state.cw) + known(state.brightness) + known(state.red) + known(state.green)
        + known(state.blue)
    &&& state.updated_unix matches Some(n) ==> has_number(lines, "  updated_unix="@, n as nat)
    &&& state.command matches Some(s) ==> lines.contains("  command="@ + s)
    &&& state.top == Some(SwitchState::On) ==> lines.contains("  top="@ + "on"@)
    &&& state.top == Some(SwitchState::Off) ==> lines.contains("  top="@ + "off"@)
    &&& state.bottom == Some(SwitchState::On) ==> lines.contains("  bottom="@ + "on"@)
    &&& state.bottom == Some(SwitchState::Off) ==> lines.contains("  bottom="@ + "off"@)
    &&& state.mode matches Some(s) ==> lines.contains("  mode="@ + s)
    &&& state.warm matches Some(n) ==> has_number(lines, "  warm="@, n as nat)
    &&& state.cool matches Some(n) ==> has_number(lines, "  cool="@, n as nat)
    &&& state.cw matches Some(n) ==> has_number(lines, "  cw="@, n as nat)
    &&& state.brightness matches Some(n) ==> has_number(lines, "  brightness="@, n as nat)
    &&& state.red matches Some(n) ==> has_number(lines, "  red="@, n as nat)
    &&& state.green matches Some(n) ==> has_number(lines, "  green="@, n as nat)
    &&& state.blue matches Some(n) ==> has_number(lines, "  blue="@, n as nat)
    &&& state.cw matches Some(n) ==> lines.contains(
        "  cw_temperature="@ + packet::cw_label(n),
    )
}

#[verifier::opaque]
spec fn report_lines(state: LampState, path: Seq<char>) -> Seq<Seq<char>> {
    let label = match state.cw {
        Some(cw) => Some(packet::cw_label(cw)),
        None => None,
    };
    let l1 = seq!["cached_state source=last_successful_command path="@ + path];
    let l2 = with_line(l1, "  updated_unix="@, cache::opt_decimal(state.updated_unix));
    let l3 = with_line(l2, "  command="@, state.command);
    let l4 = with_line(l3, "  top="@, cache::opt_switch(state.top));
    let l5 = with_line(l4, "  bottom="@, cache::opt_switch(state.bottom));
    let l6 = with_line(l5, "  mode="@, state.mode);
    let l7 = with_line(l6, "  warm="@, cache::opt_byte(state.warm));
    let l8 = with_line(l7, "  cool="@, cache::opt_byte(state.cool));
    let l9 = with_line(l8, "  cw="@, cache::opt_byte(state.cw));
    let l10 = with_line(l9, "  cw_temperature="@, label);
    let l11 = with_line(l10, "  brightness="@, cache::opt_byte(state.brightness));
    let l12 = with_line(l11, "  red="@, cache::opt_byte(state.red));
    let l13 = with_line(l12, "  green="@, cache::opt_byte(state.green));
    let l14 = with_line(l13, "  blue="@, cache::opt_byte(state.blue));
    l14
}

proof fn lemma_report_lines(state: LampState, path: Seq<char>)
    requires
        state != cache::unknown_state(),
    ensures
        cache::cached_state_lines(state, path) == report_lines(state, path) + seq![
            "  trust=cached_not_live"@,
        ],
{
    reveal(with_line);
    reveal(report_lines);
}

/// A value that is known is told, in whichever way.
proof fn lemma_told_if_known(n: Option<u64>, b: Option<u8>, switch: Option<SwitchState>)
    ensures
        known(cache::opt_decimal(n)) == known(n),
        known(cache::opt_byte(b)) == known(b),
        known(cache::opt_switch(switch)) == known(switch),
{
    reveal(known);
}

/// How many lines there are after some more.
proof fn lemma_three_lines(
    lines: Seq<Seq<char>>,
    a: (Seq<char>, Option<Seq<char>>),
    b: (Seq<char>, Option<Seq<char>>),
    c: (Seq<char>, Option<Seq<char>>),
)
    requires
        lines.len() > 0,
    ensures
        ({
            let all = with_line(with_line(with_line(lines, a.0, a.1), b.0, b.1), c.0, c.1);
            &&& all.len() == lines.len() + known(a.1) + known(b.1) + known(c.1)
            &&& all.len() >= lines.len()
            &&& all[0] == lines[0]
        }),
{
    lemma_with_line_len(lines, a.0, a.1);
    lemma_with_line_len(with_line(lines, a.0, a.1), b.0, b.1);
    lemma_with_line_len(with_line(with_line(lines, a.0, a.1), b.0, b.1), c.0, c.1);
}

proof fn lemma_report_len(state: LampState, path: Seq<char>)
    ensures
        report_lines(state, path).len() > 0,
        report_lines(state, path)[0] == "cached_state source=last_successful_command path="@ + path,
        report_lines(state, path).len() == 1 + known(state.updated_unix) + known(state.command)
            + known(state.top) + known(state.bottom) + known(state.mode) + known(state.warm)
            + known(state.cool) + 2 * known(state.cw) + known(state.brightness) + known(state.red)
            + known(state.green) + known(state.blue),
{
    reveal(report_lines);
    let label = match state.cw {
        Some(cw) => Some(packet::cw_label(cw)),
        None => None,
    };
    assert(known(label) == known(state.cw)) by {
        reveal(known);
    }
    lemma_told_if_known(state.updated_unix, state.warm, state.top);
    lemma_told_if_known(state.updated_unix, state.cool, state.bottom);
    lemma_told_if_known(state.updated_unix, state.cw, state.bottom);
    lemma_told_if_known(state.updated_unix, state.brightness, state.bottom);
    lemma_told_if_known(state.updated_unix, state.red, state.bottom);
    lemma_told_if_known(state.updated_unix, state.green, state.bottom);
    lemma_told_if_known(state.updated_unix, state.blue, state.bottom);
    let updated = cache::opt_decimal(state.updated_unix);
    let top = cache::opt_switch(state.top);
    let bottom = cache::opt_switch(state.bottom);
    let warm = cache::opt_byte(state.warm);
    let cool = cache::opt_byte(state.cool);
    let cw = cache::opt_byte(state.cw);
    let brightness = cache::opt_byte(state.brightness);
    let red = cache::opt_byte(state.red);
    let green = cache::opt_byte(state.green);
    let blue = cache::opt_byte(state.blue);
    let l1 = seq!["cached_state source=last_successful_command path="@ + path];
    let l2 = with_line(l1, "  updated_unix="@, updated);
    lemma_with_line_len(l1, "  updated_unix="@, updated);
    let l5 = with_line(
        with_line(with_line(l2, "  command="@, state.command), "  top="@, top),
        "  bottom="@,
        bottom,
    );
    lemma_three_lines(l2, ("  command="@, state.command), ("  top="@, top), ("  bottom="@, bottom));
    let l8 = with_line(
        with_line(with_line(l5, "  mode="@, state.mode), "  warm="@, warm),
        "  cool="@,
        cool,
    );
    lemma_three_lines(l5, ("  mode="@, state.mode), ("  warm="@, warm), ("  cool="@, cool));
    let l11 = with_line(
        with_line(with_line(l8, "  cw="@, cw), "  cw_temperature="@, label),
        "  brightness="@,
        brightness,
    );
    lemma_three_lines(
        l8,
        ("  cw="@, cw),
        ("  cw_temperature="@, label),
        ("  brightness="@, brightness),
    );
    lemma_three_lines(l11, ("  red="@, red), ("  green="@, green), ("  blue="@, blue));
}

proof fn lemma_report_has(state: LampState, path: Seq<char>)
    ensures
        cache::opt_decimal(state.updated_unix) matches Some(s) ==> has_line(
            report_lines(state, path),
            "  updated_unix="@ + s,
        ),
        state.command matches Some(s) ==> has_line(
            report_lines(state, path),
            "  command="@ + s,
        ),
        cache::opt_switch(state.top) matches Some(s) ==> has_line(
            report_lines(state, path),
            "  top="@ + s,
        ),
        cache::opt_switch(state.bottom) matches Some(s) ==> has_line(
            report_lines(state, path),
            "  bottom="@ + s,
        ),
        state.mode matches Some(s) ==> has_line(
            report_lines(state, path),
            "  mode="@ + s,
        ),
        cache::opt_byte(state.warm) matches Some(s) ==> has_line(
            report_lines(state, path),
            "  warm="@ + s,
        ),
        cache::opt_byte(state.cool) matches Some(s) ==> has_line(
            report_lines(state, path),
            "  cool="@ + s,
        ),
        cache::opt_byte(state.cw) matches Some(s) ==> has_line(
            report_lines(state, path),
            "  cw="@ + s,
        ),
        cache::opt_byte(state.brightness) matches Some(s) ==> has_line(
            report_lines(state, path),
            "  brightness="@ + s,
        ),
        cache::opt_byte(state.red) matches Some(s) ==> has_line(
            report_lines(state, path),
            "  red="@ + s,
        ),
        cache::opt_byte(state.green) matches Some(s) ==> has_line(
            report_lines(state, path),
            "  green="@ + s,
        ),
        cache::opt_byte(state.blue) matches Some(s) ==> has_line(
            report_lines(state, path),
            "  blue="@ + s,
        ),
        state.cw matches Some(n) ==> has_line(
            report_lines(state, path),
            "  cw_temperature="@ + packet::cw_label(n),
        ),
{
    reveal(report_lines);
    let label = match state.cw {
        Some(cw) => Some(packet::cw_label(cw)),
        None => None,
    };
    let l1 = seq!["cached_state source=last_successful_command path="@ + path];
    lemma_with_line(l1, "  updated_unix="@, cache::opt_decimal(state.updated_unix));
    let l2 = with_line(l1, "  updated_unix="@, cache::opt_decimal(state.updated_unix));
    lemma_with_line(l2, "  command="@, state.command);
    let l3 = with_line(l2, "  command="@, state.command);
    lemma_with_line(l3, "  top="@, cache::opt_switch(state.top));
    let l4 = with_line(l3, "  top="@, cache::opt_switch(state.top));
    lemma_with_line(l4, "  bottom="@, cache::opt_switch(state.bottom));
    let l5 = with_line(l4, "  bottom="@, cache::opt_switch(state.bottom));
    lemma_with_line(l5, "  mode="@, state.mode);
    let l6 = with_line(l5, "  mode="@, state.mode);
    lemma_with_line(l6, "  warm="@, cache::opt_byte(state.warm));
    let l7 = with_line(l6, "  warm="@, cache::opt_byte(state.warm));
    lemma_with_line(l7, "  cool="@, cache::opt_byte(state.cool));
    let l8 = with_line(l7, "  cool="@, cache::opt_byte(state.cool));
    lemma_with_line(l8, "  cw="@, cache::opt_byte(state.cw));
    let l9 = with_line(l8, "  cw="@, cache::opt_byte(state.cw));
    lemma_with_line(l9, "  cw_temperature="@, label);
    let l10 = with_line(l9, "  cw_temperature="@, label);
    lemma_with_line(l10, "  brightness="@, cache::opt_byte(state.brightness));
    let l11 = with_line(l10, "  brightness="@, cache::opt_byte(state.brightness));
    lemma_with_line(l11, "  red="@, cache::opt_byte(state.red));
    let l12 = with_line(l11, "  red="@, cache::opt_byte(state.red));
    lemma_with_line(l12, "  green="@, cache::opt_byte(state.green));
    let l13 = with_line(l12, "  green="@, cache::opt_byte(state.green));
    lemma_with_line(l13, "  blue="@, cache::opt_byte(state.blue));
    let l14 = with_line(l13, "  blue="@, cache::opt_byte(state.blue));
    assert(l14 == report_lines(state, path));
}

proof fn lemma_report_tells(lines: Seq<Seq<char>>, state: LampState, path: Seq<char>)
    requires
        lines == report_lines(state, path) + seq!["  trust=cached_not_live"@],
    ensures
        tells_the_state(lines, state, path),
{
    lemma_report_len(state, path);
    lemma_report_has(state, path);
    let all = report_lines(state, path);
    assert forall|line: Seq<char>| #[trigger] has_line(all, line) implies lines.contains(line) by {
        reveal(has_line);
        let i = all.index_of(line);
        assert(lines[i] == line);
    }
    if state.updated_unix is Some {
        lemma_has_number(lines, "  updated_unix="@, state.updated_unix->0 as nat);
    }
    if state.warm is Some {
        lemma_has_number(lines, "  warm="@, state.warm->0 as nat);
    }
    if state.cool is Some {
        lemma_has_number(lines, "  cool="@, state.cool->0 as nat);
    }
    if state.cw is Some {
        lemma_has_number(lines, "  cw="@, state.cw->0 as nat);
    }
    if state.brightness is Some {
        lemma_has_number(lines, "  brightness="@, state.brightness->0 as nat);
    }
    if state.red is Some {
        lemma_has_number(lines, "  red="@, state.red->0 as nat);
    }
    if state.green is Some {
        lemma_has_number(lines, "  green="@, state.green->0 as nat);
    }
    if state.blue is Some {
        lemma_has_number(lines, "  blue="@, state.blue->0 as nat);
    }
}

/// The report of a stored state tells each field that is known, and no other.
pub proof fn law_stored_report(state: LampState, path: Seq<char>)
    requires
        state != cache::unknown_state(),
    ensures
        tells_the_state(cache::cached_state_lines(state, path), state, path),
{
    lemma_report_lines(state, path);
    lemma_report_tells(cache::cached_state_lines(state, path), state, path);
}

// ----------------------------------------------------------------- the settings

/// The settings that hold seconds, in the order in which they are read.
pub open spec fn is_seconds_key(key: Seq<char>) -> bool {
    key == "SCAN_SECONDS"@ || key == "CACHED_CONNECT_CALL_SECONDS"@ || key
        == "CONNECT_CALL_SECONDS"@ || key == "CONNECT_SECONDS"@
}

/// The settings that hold percentages.
pub open spec fn is_percent_key(key: Seq<char>) -> bool {
    key == "WARM_WHITE"@ || key == "COOL_WHITE"@ || key == "BRIGHTNESS"@
}

/// The greatest number that a setting can hold.
pub open spec fn greatest(key: Seq<char>) -> nat {
    if is_seconds_key(key) {
        u64::MAX as nat
    } else if is_percent_key(key) {
        u8::MAX as nat
    } else {
        u32::MAX as nat
    }
}

/// Each field of a configuration is what the setting of its name says: texts as
/// they are or in one case, paths with the home directory in place of `~`,
/// seconds and attempts by their numbers, and percentages limited to one hundred.
pub proof fn law_settings_become_fields(
    settings: Map<Seq<char>, Seq<char>>,
    home: Option<Seq<char>>,
)
    ensures
        config::config_from(settings, home) matches Ok(config) ==> {
            let reads = |key: Seq<char>, max: nat, n: nat|
                number::read_number(settings[key], max) == Ok::<nat, error::NumberError>(n);
            &&& config.address == text::uppercase(settings["ADDRESS"@])
            &&& config.name_prefix == settings["NAME_PREFIX"@]
            &&& config.service_uuid == text::lowercase(settings["SERVICE_UUID"@])
            &&& config.characteristic_uuid == text::lowercase(settings["CHARACTERISTIC_UUID"@])
            &&& config::expanded_path(settings["STATE_PATH"@], home) == Ok::<
                Seq<char>,
                error::Failure,
            >(config.state_path)
            &&& config::expanded_path(settings["LAMP_STATE_PATH"@], home) == Ok::<
                Seq<char>,
                error::Failure,
            >(config.lamp_state_path)
            &&& reads("SCAN_SECONDS"@, u64::MAX as nat, config.scan_seconds as nat)
            &&& reads(
                "CACHED_CONNECT_CALL_SECONDS"@,
                u64::MAX as nat,
                config.cached_connect_call_seconds as nat,
            )
            &&& reads("CONNECT_CALL_SECONDS"@, u64::MAX as nat, config.connect_call_seconds as nat)
            &&& reads("CONNECT_SECONDS"@, u64::MAX as nat, config.connect_seconds as nat)
            &&& reads("CONNECT_ATTEMPTS"@, u32::MAX as nat, config.connect_attempts as nat)
            &&& config.warm_white <= 100 && config.cool_white <= 100 && config.brightness <= 100
            &&& config.warm_white < 100 ==> reads(
                "WARM_WHITE"@,
                u8::MAX as nat,
                config.warm_white as nat,
            )
            &&& config.cool_white < 100 ==> reads(
                "COOL_WHITE"@,
                u8::MAX as nat,
                config.cool_white as nat,
            )
            &&& config.brightness < 100 ==> reads(
                "BRIGHTNESS"@,
                u8::MAX as nat,
                config.brightness as nat,
            )
            &&& config.warm_white == 100 ==> number::read_number(
                settings["WARM_WHITE"@],
                u8::MAX as nat,
            )->Ok_0 >= 100
            &&& config.cool_white == 100 ==> number::read_number(
                settings["COOL_WHITE"@],
                u8::MAX as nat,
            )->Ok_0 >= 100
            &&& config.brightness == 100 ==> number::read_number(
                settings["BRIGHTNESS"@],
                u8::MAX as nat,
            )->Ok_0 >= 100
            &&& !config.verbose
        },
{
    number::law_number_accepted(settings["SCAN_SECONDS"@], u64::MAX as nat);
    number::law_number_accepted(settings["CACHED_CONNECT_CALL_SECONDS"@], u64::MAX as nat);
    number::law_number_accepted(settings["CONNECT_CALL_SECONDS"@], u64::MAX as nat);
    number::law_number_accepted(settings["CONNECT_SECONDS"@], u64::MAX as nat);
    number::law_number_accepted(settings["CONNECT_ATTEMPTS"@], u32::MAX as nat);
    number::law_number_accepted(settings["WARM_WHITE"@], u8::MAX as nat);
    number::law_number_accepted(settings["COOL_WHITE"@], u8::MAX as nat);
    number::law_number_accepted(settings["BRIGHTNESS"@], u8::MAX as nat);
}

/// Settings are refused only for a reason: a path needs the home directory and
/// there is none, or a number cannot be read, in which case its key is named.
pub proof fn law_why_settings_are_refused(
    settings: Map<Seq<char>, Seq<char>>,
    home: Option<Seq<char>>,
)
    ensures
        match config::config_from(settings, home) {
            Err(error::Failure::HomeNotSet) => home is None && ("~/"@.is_prefix_of(
                settings["STATE_PATH"@],
            ) || "~/"@.is_prefix_of(settings["LAMP_STATE_PATH"@])),
            Err(error::Failure::BadNumber { key, cause }) => (is_seconds_key(key)
                || is_percent_key(key) || key == "CONNECT_ATTEMPTS"@) && number::read_number(
                settings[key],
                greatest(key),
            ) == Err::<nat, error::NumberError>(cause),
            Err(_) => false,
            Ok(_) => true,
        },
{
    lemma_attempts_key();
}

proof fn lemma_attempts_key()
    ensures
        !is_seconds_key("CONNECT_ATTEMPTS"@),
        !is_percent_key("CONNECT_ATTEMPTS"@),
        !is_seconds_key("WARM_WHITE"@),
        !is_seconds_key("COOL_WHITE"@),
        !is_seconds_key("BRIGHTNESS"@),
{
    reveal_strlit("SCAN_SECONDS");
    reveal_strlit("CACHED_CONNECT_CALL_SECONDS");
    reveal_strlit("CONNECT_CALL_SECONDS");
    reveal_strlit("CONNECT_SECONDS");
    reveal_strlit("CONNECT_ATTEMPTS");
    reveal_strlit("WARM_WHITE");
    reveal_strlit("COOL_WHITE");
    reveal_strlit("BRIGHTNESS");
    assert("SCAN_SECONDS"@.len() == 12 && "CACHED_CONNECT_CALL_SECONDS"@.len() == 27);
    assert("CONNECT_CALL_SECONDS"@.len() == 20 && "CONNECT_SECONDS"@.len() == 15);
    assert("CONNECT_ATTEMPTS"@.len() == 16 && "WARM_WHITE"@.len() == 10);
    assert("COOL_WHITE"@.len() == 10 && "BRIGHTNESS"@.len() == 10);
}

/// A path that begins with `~/` lies in the home directory, with one `/` between
/// the two. Any other path is left as it is, and needs no home directory.
pub proof fn law_home_paths(path: Seq<char>, home: Seq<char>, other: Option<Seq<char>>)
    ensures
        home.len() > 0 && home.last() != '/' && (path.len() > 0 ==> path[0] != '/')
            ==> config::expanded_path("~/"@ + path, Some(home)) == Ok::<Seq<char>, error::Failure>(
            home + "/"@ + path,
        ),
        home.len() > 0 && home.last() == '/' && (path.len() > 0 ==> path[0] != '/')
            ==> config::expanded_path("~/"@ + path, Some(home)) == Ok::<Seq<char>, error::Failure>(
            home + path,
        ),
        config::expanded_path("~/"@ + path, None) == Err::<Seq<char>, error::Failure>(
            error::Failure::HomeNotSet,
        ),
        path.len() < 2 || path[0] != '~' || path[1] != '/' ==> config::expanded_path(path, other)
            == Ok::<Seq<char>, error::Failure>(path),
{
    reveal_strlit("~/");
    let s = "~/"@ + path;
    assert("~/"@.len() == 2 && "~/"@[0] == '~' && "~/"@[1] == '/');
    assert(s.skip(2) =~= path);
    assert("~/"@ =~= s.subrange(0, 2));
    if "~/"@.is_prefix_of(path) {
        assert(path[0] == "~/"@[0]);
        assert(path[1] == "~/"@[1]);
    }
}

/// What a line of a configuration file sets is what counts, unless a later line
/// sets it again; without a file the defaults count.
pub proof fn law_the_file_counts(file: Seq<char>, i: int)
    requires
        0 <= i < text::text_entries(file).len(),
        forall|j: int|
            i < j < text::text_entries(file).len() ==> (#[trigger] text::text_entries(file)[j]).0
                != text::text_entries(file)[i].0,
    ensures
        config::settings_of(Some(file))[text::text_entries(file)[i].0] == text::text_entries(
            file,
        )[i].1,
{
    config::law_last_entry_counts(config::default_settings(), text::text_entries(file), i);
}

// --------------------------------------------------------------------- records

/// A configuration is spoken of field by field.
pub proof fn law_configurations_are_their_fields(config: config::Config)
    ensures
        config@.address == config.address@,
        config@.name_prefix == config.name_prefix@,
        config@.service_uuid == config.service_uuid@,
        config@.characteristic_uuid == config.characteristic_uuid@,
        config@.state_path == config.state_path@,
        config@.lamp_state_path == config.lamp_state_path@,
        config@.scan_seconds == config.scan_seconds,
        config@.cached_connect_call_seconds == config.cached_connect_call_seconds,
        config@.connect_call_seconds == config.connect_call_seconds,
        config@.connect_seconds == config.connect_seconds,
        config@.connect_attempts == config.connect_attempts,
        config@.warm_white == config.warm_white,
        config@.cool_white == config.cool_white,
        config@.brightness == config.brightness,
        config@.verbose == config.verbose,
{
}

/// A state is spoken of field by field, and of an unknown one nothing is known.
pub proof fn law_states_are_their_fields(state: cache::CachedLampState)
    ensures
        state@.updated_unix == state.updated_unix,
        state@.command == text::opt_text(state.command),
        state@.top == state.top,
        state@.bottom == state.bottom,
        state@.mode == text::opt_text(state.mode),
        state@.warm == state.warm,
        state@.cool == state.cool,
        state@.cw == state.cw,
        state@.brightness == state.brightness,
        state@.red == state.red,
        state@.green == state.green,
        state@.blue == state.blue,
        cache::opt_state(Some(state)) == Some(state@),
        cache::opt_state(None) is None,
        state@ == cache::unknown_state() <==> state.updated_unix is None && state.command is None
            && state.top is None && state.bottom is None && state.mode is None && state.warm is None
            && state.cool is None && state.cw is None && state.brightness is None
            && state.red is None && state.green is None && state.blue is None,
{
}

} // verus!
