//! What holds of the cached state as a whole: it survives being stored, every
//! command leaves one that does, and the brightness can be changed on its
//! ground.

use crate::cache;
use crate::cache::LampState;
use crate::command;
use crate::command::Command;
use crate::config;
use crate::error;
use crate::hex;
use crate::number;
use crate::packet;
use crate::packet::SwitchState;
use crate::text;
use vstd::prelude::*;

verus! {

/// A text that a line can hold: not empty, no outer white space, no line break.
pub open spec fn is_storable_text(s: Seq<char>) -> bool {
    s.len() > 0 && text::is_trimmed(s) && !s.contains('\n')
}

/// Every text is one that a line can hold, and every percentage is one.
pub open spec fn is_storable(state: LampState) -> bool {
    &&& state.command matches Some(command) ==> is_storable_text(command)
    &&& state.mode matches Some(mode) ==> is_storable_text(mode)
    &&& state.warm matches Some(warm) ==> warm <= 100
    &&& state.cool matches Some(cool) ==> cool <= 100
    &&& state.brightness matches Some(brightness) ==> brightness <= 100
}

// --------------------------------------------------------------------- texts

spec fn is_key_char(c: char) -> bool {
    'A' <= c <= 'Z' || c == '_'
}

spec fn is_key(s: Seq<char>) -> bool {
    s.len() > 0 && forall|i: int| 0 <= i < s.len() ==> is_key_char(#[trigger] s[i])
}

proof fn lemma_key_entry(key: Seq<char>, value: Seq<char>)
    requires
        is_key(key),
        text::is_trimmed(value),
        !value.contains('\n'),
    ensures
        text::is_storable_entry((key, value)),
{
    assert(is_key_char(key[0]));
    assert(is_key_char(key[key.len() - 1]));
    assert(!key.contains('=')) by {
        if key.contains('=') {
            let i = choose|i: int| 0 <= i < key.len() && key[i] == '=';
            assert(is_key_char(key[i]));
        }
    }
    assert(!key.contains('\n')) by {
        if key.contains('\n') {
            let i = choose|i: int| 0 <= i < key.len() && key[i] == '\n';
            assert(is_key_char(key[i]));
        }
    }
}

proof fn lemma_decimal_is_storable(n: nat)
    ensures
        is_storable_text(number::decimal(n)),
{
    let s = number::decimal(n);
    number::lemma_decimal(n);
    assert(number::is_digit(s[0]));
    assert(number::is_digit(s[s.len() - 1]));
    if s.contains('\n') {
        let i = choose|i: int| 0 <= i < s.len() && s[i] == '\n';
        assert(number::is_digit(s[i]));
    }
}

proof fn lemma_switch_is_storable(state: SwitchState)
    ensures
        is_storable_text(packet::switch_text(state)),
{
    reveal_strlit("on");
    reveal_strlit("off");
    assert("on"@ =~= seq!['o', 'n']);
    assert("off"@ =~= seq!['o', 'f', 'f']);
}

proof fn lemma_keys()
    ensures
        is_key("UPDATED_UNIX"@),
        is_key("COMMAND"@),
        is_key("TOP"@),
        is_key("BOTTOM"@),
        is_key("MODE"@),
        is_key("WARM"@),
        is_key("COOL"@),
        is_key("CW"@),
        is_key("BRIGHTNESS"@),
        is_key("RED"@),
        is_key("GREEN"@),
        is_key("BLUE"@),
{
    reveal_strlit("UPDATED_UNIX");
    reveal_strlit("COMMAND");
    reveal_strlit("TOP");
    reveal_strlit("BOTTOM");
    reveal_strlit("MODE");
    reveal_strlit("WARM");
    reveal_strlit("COOL");
    reveal_strlit("CW");
    reveal_strlit("BRIGHTNESS");
    reveal_strlit("RED");
    reveal_strlit("GREEN");
    reveal_strlit("BLUE");
    assert("UPDATED_UNIX"@ =~= seq!['U', 'P', 'D', 'A', 'T', 'E', 'D', '_', 'U', 'N', 'I', 'X']);
    assert("COMMAND"@ =~= seq!['C', 'O', 'M', 'M', 'A', 'N', 'D']);
    assert("TOP"@ =~= seq!['T', 'O', 'P']);
    assert("BOTTOM"@ =~= seq!['B', 'O', 'T', 'T', 'O', 'M']);
    assert("MODE"@ =~= seq!['M', 'O', 'D', 'E']);
    assert("WARM"@ =~= seq!['W', 'A', 'R', 'M']);
    assert("COOL"@ =~= seq!['C', 'O', 'O', 'L']);
    assert("CW"@ =~= seq!['C', 'W']);
    assert("BRIGHTNESS"@ =~= seq!['B', 'R', 'I', 'G', 'H', 'T', 'N', 'E', 'S', 'S']);
    assert("RED"@ =~= seq!['R', 'E', 'D']);
    assert("GREEN"@ =~= seq!['G', 'R', 'E', 'E', 'N']);
    assert("BLUE"@ =~= seq!['B', 'L', 'U', 'E']);
}

/// The keys differ from each other.
proof fn lemma_keys_differ()
    ensures
        "COMMAND"@ != "UPDATED_UNIX"@,
        "TOP"@ != "UPDATED_UNIX"@ && "TOP"@ != "COMMAND"@,
        "BOTTOM"@ != "UPDATED_UNIX"@ && "BOTTOM"@ != "COMMAND"@ && "BOTTOM"@ != "TOP"@,
        "MODE"@ != "UPDATED_UNIX"@ && "MODE"@ != "COMMAND"@ && "MODE"@ != "TOP"@ && "MODE"@
            != "BOTTOM"@,
        "WARM"@ != "UPDATED_UNIX"@ && "WARM"@ != "COMMAND"@ && "WARM"@ != "TOP"@ && "WARM"@
            != "BOTTOM"@ && "WARM"@ != "MODE"@,
        "COOL"@ != "UPDATED_UNIX"@ && "COOL"@ != "COMMAND"@ && "COOL"@ != "TOP"@ && "COOL"@
            != "BOTTOM"@ && "COOL"@ != "MODE"@ && "COOL"@ != "WARM"@,
        "CW"@ != "UPDATED_UNIX"@ && "CW"@ != "COMMAND"@ && "CW"@ != "TOP"@ && "CW"@ != "BOTTOM"@
            && "CW"@ != "MODE"@ && "CW"@ != "WARM"@ && "CW"@ != "COOL"@,
        "BRIGHTNESS"@ != "UPDATED_UNIX"@ && "BRIGHTNESS"@ != "COMMAND"@ && "BRIGHTNESS"@ != "TOP"@
            && "BRIGHTNESS"@ != "BOTTOM"@ && "BRIGHTNESS"@ != "MODE"@ && "BRIGHTNESS"@ != "WARM"@
            && "BRIGHTNESS"@ != "COOL"@ && "BRIGHTNESS"@ != "CW"@,
        "RED"@ != "UPDATED_UNIX"@ && "RED"@ != "COMMAND"@ && "RED"@ != "TOP"@ && "RED"@
            != "BOTTOM"@ && "RED"@ != "MODE"@ && "RED"@ != "WARM"@ && "RED"@ != "COOL"@ && "RED"@
            != "CW"@ && "RED"@ != "BRIGHTNESS"@,
        "GREEN"@ != "UPDATED_UNIX"@ && "GREEN"@ != "COMMAND"@ && "GREEN"@ != "TOP"@ && "GREEN"@
            != "BOTTOM"@ && "GREEN"@ != "MODE"@ && "GREEN"@ != "WARM"@ && "GREEN"@ != "COOL"@
            && "GREEN"@ != "CW"@ && "GREEN"@ != "BRIGHTNESS"@ && "GREEN"@ != "RED"@,
        "BLUE"@ != "UPDATED_UNIX"@ && "BLUE"@ != "COMMAND"@ && "BLUE"@ != "TOP"@ && "BLUE"@
            != "BOTTOM"@ && "BLUE"@ != "MODE"@ && "BLUE"@ != "WARM"@ && "BLUE"@ != "COOL"@
            && "BLUE"@ != "CW"@ && "BLUE"@ != "BRIGHTNESS"@ && "BLUE"@ != "RED"@ && "BLUE"@
            != "GREEN"@,
{
    reveal_strlit("UPDATED_UNIX");
    reveal_strlit("COMMAND");
    reveal_strlit("TOP");
    reveal_strlit("BOTTOM");
    reveal_strlit("MODE");
    reveal_strlit("WARM");
    reveal_strlit("COOL");
    reveal_strlit("CW");
    reveal_strlit("BRIGHTNESS");
    reveal_strlit("RED");
    reveal_strlit("GREEN");
    reveal_strlit("BLUE");
    assert("UPDATED_UNIX"@.len() == 12 && "COMMAND"@.len() == 7 && "TOP"@.len() == 3);
    assert("BOTTOM"@.len() == 6 && "MODE"@.len() == 4 && "WARM"@.len() == 4);
    assert("COOL"@.len() == 4 && "CW"@.len() == 2 && "BRIGHTNESS"@.len() == 10);
    assert("RED"@.len() == 3 && "GREEN"@.len() == 5 && "BLUE"@.len() == 4);
    assert("MODE"@[0] == 'M' && "WARM"@[0] == 'W' && "COOL"@[0] == 'C' && "BLUE"@[0] == 'B');
    assert("TOP"@[0] == 'T' && "RED"@[0] == 'R');
}

// ---------------------------------------------------------------- round trip

proof fn lemma_with_entries_add(
    state: LampState,
    a: Seq<(Seq<char>, Seq<char>)>,
    b: Seq<(Seq<char>, Seq<char>)>,
)
    ensures
        cache::with_entries(state, a + b) == cache::with_entries(
            cache::with_entries(state, a),
            b,
        ),
    decreases b.len(),
{
    if b.len() == 0 {
        assert(a + b =~= a);
    } else {
        assert((a + b).drop_last() =~= a + b.drop_last());
        assert((a + b).last() == b.last());
        lemma_with_entries_add(state, a, b.drop_last());
    }
}

/// One more optional entry.
proof fn lemma_with_opt_entry(
    state: LampState,
    entries: Seq<(Seq<char>, Seq<char>)>,
    key: Seq<char>,
    value: Option<Seq<char>>,
)
    ensures
        cache::with_entries(state, entries + cache::opt_entry(key, value)) == (match value {
            Some(value) => cache::with_entry(
                cache::with_entries(state, entries),
                (key, value),
            ),
            None => cache::with_entries(state, entries),
        }),
{
    let last = cache::opt_entry(key, value);
    lemma_with_entries_add(state, entries, last);
    if value is Some {
        let before = cache::with_entries(state, entries);
        assert(last.drop_last() =~= Seq::empty());
        assert(cache::with_entries(before, last.drop_last()) == before);
    }
}

proof fn lemma_stored_values(n: u64, b: u8, switch: SwitchState)
    ensures
        cache::stored_u64(number::decimal(n as nat)) == Some(n),
        cache::stored_byte(number::decimal(b as nat)) == Some(b),
        b <= 100 ==> cache::stored_percent(number::decimal(b as nat)) == Some(b),
        cache::stored_switch(packet::switch_text(switch)) == Some(switch),
{
    number::law_decimal_round_trip(n as nat, u64::MAX as nat);
    number::law_decimal_round_trip(b as nat, u8::MAX as nat);
    reveal_strlit("on");
    reveal_strlit("ON");
    reveal_strlit("On");
    reveal_strlit("off");
    assert("on"@.len() == 2 && "ON"@.len() == 2 && "On"@.len() == 2 && "off"@.len() == 3);
}

proof fn lemma_opt_entries_storable(
    entries: Seq<(Seq<char>, Seq<char>)>,
    key: Seq<char>,
    value: Option<Seq<char>>,
)
    requires
        forall|i: int| 0 <= i < entries.len() ==> text::is_storable_entry(#[trigger] entries[i]),
        is_key(key),
        value matches Some(value) ==> is_storable_text(value),
    ensures
        forall|i: int|
            0 <= i < (entries + cache::opt_entry(key, value)).len() ==> text::is_storable_entry(
                #[trigger] (entries + cache::opt_entry(key, value))[i],
            ),
{
    let all = entries + cache::opt_entry(key, value);
    assert forall|i: int| 0 <= i < all.len() implies text::is_storable_entry(
        #[trigger] all[i],
    ) by {
        if i < entries.len() {
            assert(all[i] == entries[i]);
        } else {
            lemma_key_entry(key, value->Some_0);
        }
    }
}

proof fn lemma_opt_texts_storable(state: LampState)
    ensures
        cache::opt_decimal(state.updated_unix) matches Some(s) ==> is_storable_text(s),
        cache::opt_switch(state.top) matches Some(s) ==> is_storable_text(s),
        cache::opt_switch(state.bottom) matches Some(s) ==> is_storable_text(s),
        cache::opt_byte(state.warm) matches Some(s) ==> is_storable_text(s),
        cache::opt_byte(state.cool) matches Some(s) ==> is_storable_text(s),
        cache::opt_byte(state.cw) matches Some(s) ==> is_storable_text(s),
        cache::opt_byte(state.brightness) matches Some(s) ==> is_storable_text(s),
        cache::opt_byte(state.red) matches Some(s) ==> is_storable_text(s),
        cache::opt_byte(state.green) matches Some(s) ==> is_storable_text(s),
        cache::opt_byte(state.blue) matches Some(s) ==> is_storable_text(s),
{
    assert forall|n: nat| is_storable_text(#[trigger] number::decimal(n)) by {
        lemma_decimal_is_storable(n);
    }
    lemma_switch_is_storable(SwitchState::On);
    lemma_switch_is_storable(SwitchState::Off);
}

proof fn lemma_state_entries_storable(state: LampState)
    requires
        is_storable(state),
    ensures
        forall|i: int|
            0 <= i < cache::state_entries(state).len() ==> text::is_storable_entry(
                #[trigger] cache::state_entries(state)[i],
            ),
{
    lemma_keys();
    lemma_opt_texts_storable(state);
    let none = Seq::<(Seq<char>, Seq<char>)>::empty();
    let e1 = cache::opt_entry("UPDATED_UNIX"@, cache::opt_decimal(state.updated_unix));
    lemma_opt_entries_storable(none, "UPDATED_UNIX"@, cache::opt_decimal(state.updated_unix));
    assert(none + e1 =~= e1);
    let e2 = e1 + cache::opt_entry("COMMAND"@, state.command);
    lemma_opt_entries_storable(e1, "COMMAND"@, state.command);
    let e3 = e2 + cache::opt_entry("TOP"@, cache::opt_switch(state.top));
    lemma_opt_entries_storable(e2, "TOP"@, cache::opt_switch(state.top));
    let e4 = e3 + cache::opt_entry("BOTTOM"@, cache::opt_switch(state.bottom));
    lemma_opt_entries_storable(e3, "BOTTOM"@, cache::opt_switch(state.bottom));
    let e5 = e4 + cache::opt_entry("MODE"@, state.mode);
    lemma_opt_entries_storable(e4, "MODE"@, state.mode);
    let e6 = e5 + cache::opt_entry("WARM"@, cache::opt_byte(state.warm));
    lemma_opt_entries_storable(e5, "WARM"@, cache::opt_byte(state.warm));
    let e7 = e6 + cache::opt_entry("COOL"@, cache::opt_byte(state.cool));
    lemma_opt_entries_storable(e6, "COOL"@, cache::opt_byte(state.cool));
    let e8 = e7 + cache::opt_entry("CW"@, cache::opt_byte(state.cw));
    lemma_opt_entries_storable(e7, "CW"@, cache::opt_byte(state.cw));
    let e9 = e8 + cache::opt_entry("BRIGHTNESS"@, cache::opt_byte(state.brightness));
    lemma_opt_entries_storable(e8, "BRIGHTNESS"@, cache::opt_byte(state.brightness));
    let e10 = e9 + cache::opt_entry("RED"@, cache::opt_byte(state.red));
    lemma_opt_entries_storable(e9, "RED"@, cache::opt_byte(state.red));
    let e11 = e10 + cache::opt_entry("GREEN"@, cache::opt_byte(state.green));
    lemma_opt_entries_storable(e10, "GREEN"@, cache::opt_byte(state.green));
    lemma_opt_entries_storable(e11, "BLUE"@, cache::opt_byte(state.blue));
}

proof fn lemma_state_entries_restore(state: LampState)
    requires
        is_storable(state),
    ensures
        cache::with_entries(cache::unknown_state(), cache::state_entries(state)) == state,
{
    lemma_keys_differ();
    assert forall|n: u64|
        cache::stored_u64(#[trigger] number::decimal(n as nat)) == Some(n) by {
        lemma_stored_values(n, 0, SwitchState::On);
    }
    assert forall|b: u8|
        cache::stored_byte(#[trigger] number::decimal(b as nat)) == Some(b) && (b <= 100
            ==> cache::stored_percent(number::decimal(b as nat)) == Some(b)) by {
        lemma_stored_values(0, b, SwitchState::On);
    }
    lemma_stored_values(0, 0, SwitchState::On);
    lemma_stored_values(0, 0, SwitchState::Off);
    let s0 = cache::unknown_state();
    let none = Seq::<(Seq<char>, Seq<char>)>::empty();
    let e1 = cache::opt_entry("UPDATED_UNIX"@, cache::opt_decimal(state.updated_unix));
    lemma_with_opt_entry(s0, none, "UPDATED_UNIX"@, cache::opt_decimal(state.updated_unix));
    assert(none + e1 =~= e1);
    let s1 = LampState { updated_unix: state.updated_unix, ..s0 };
    assert(cache::with_entries(s0, e1) == s1);
    let e2 = e1 + cache::opt_entry("COMMAND"@, state.command);
    lemma_with_opt_entry(s0, e1, "COMMAND"@, state.command);
    let s2 = LampState { command: state.command, ..s1 };
    assert(cache::with_entries(s0, e2) == s2);
    let e3 = e2 + cache::opt_entry("TOP"@, cache::opt_switch(state.top));
    lemma_with_opt_entry(s0, e2, "TOP"@, cache::opt_switch(state.top));
    let s3 = LampState { top: state.top, ..s2 };
    assert(cache::with_entries(s0, e3) == s3);
    let e4 = e3 + cache::opt_entry("BOTTOM"@, cache::opt_switch(state.bottom));
    lemma_with_opt_entry(s0, e3, "BOTTOM"@, cache::opt_switch(state.bottom));
    let s4 = LampState { bottom: state.bottom, ..s3 };
    assert(cache::with_entries(s0, e4) == s4);
    let e5 = e4 + cache::opt_entry("MODE"@, state.mode);
    lemma_with_opt_entry(s0, e4, "MODE"@, state.mode);
    let s5 = LampState { mode: state.mode, ..s4 };
    assert(cache::with_entries(s0, e5) == s5);
    let e6 = e5 + cache::opt_entry("WARM"@, cache::opt_byte(state.warm));
    lemma_with_opt_entry(s0, e5, "WARM"@, cache::opt_byte(state.warm));
    let s6 = LampState { warm: state.warm, ..s5 };
    assert(cache::with_entries(s0, e6) == s6);
    let e7 = e6 + cache::opt_entry("COOL"@, cache::opt_byte(state.cool));
    lemma_with_opt_entry(s0, e6, "COOL"@, cache::opt_byte(state.cool));
    let s7 = LampState { cool: state.cool, ..s6 };
    assert(cache::with_entries(s0, e7) == s7);
    let e8 = e7 + cache::opt_entry("CW"@, cache::opt_byte(state.cw));
    lemma_with_opt_entry(s0, e7, "CW"@, cache::opt_byte(state.cw));
    let s8 = LampState { cw: state.cw, ..s7 };
    assert(cache::with_entries(s0, e8) == s8);
    let e9 = e8 + cache::opt_entry("BRIGHTNESS"@, cache::opt_byte(state.brightness));
    lemma_with_opt_entry(s0, e8, "BRIGHTNESS"@, cache::opt_byte(state.brightness));
    let s9 = LampState { brightness: state.brightness, ..s8 };
    assert(cache::with_entries(s0, e9) == s9);
    let e10 = e9 + cache::opt_entry("RED"@, cache::opt_byte(state.red));
    lemma_with_opt_entry(s0, e9, "RED"@, cache::opt_byte(state.red));
    let s10 = LampState { red: state.red, ..s9 };
    assert(cache::with_entries(s0, e10) == s10);
    let e11 = e10 + cache::opt_entry("GREEN"@, cache::opt_byte(state.green));
    lemma_with_opt_entry(s0, e10, "GREEN"@, cache::opt_byte(state.green));
    let s11 = LampState { green: state.green, ..s10 };
    assert(cache::with_entries(s0, e11) == s11);
    lemma_with_opt_entry(s0, e11, "BLUE"@, cache::opt_byte(state.blue));
}

/// A state that is stored is read back as it was.
pub proof fn law_stored_state_is_read_back(state: LampState)
    requires
        is_storable(state),
    ensures
        cache::parsed_state(cache::state_text(state)) == state,
{
    lemma_state_entries_storable(state);
    text::law_entries_round_trip(cache::state_entries(state));
    lemma_state_entries_restore(state);
}

proof fn lemma_with_entries_storable(state: LampState, entries: Seq<(Seq<char>, Seq<char>)>)
    requires
        is_storable(state),
        forall|i: int|
            0 <= i < entries.len() ==> text::is_trimmed(#[trigger] entries[i].1)
                && !entries[i].1.contains('\n'),
    ensures
        is_storable(cache::with_entries(state, entries)),
    decreases entries.len(),
{
    if entries.len() > 0 {
        let before = entries.drop_last();
        assert forall|i: int| 0 <= i < before.len() implies text::is_trimmed(
            #[trigger] before[i].1,
        ) && !before[i].1.contains('\n') by {
            assert(before[i] == entries[i]);
        }
        lemma_with_entries_storable(state, before);
        assert(text::is_trimmed(entries[entries.len() - 1].1));
    }
}

/// Whatever a stored text holds, the state that is read from it is one that
/// can be stored.
pub proof fn law_parsed_state_is_storable(raw: Seq<char>)
    ensures
        is_storable(cache::parsed_state(raw)),
{
    text::lemma_entries_are_trimmed(raw);
    lemma_with_entries_storable(cache::unknown_state(), text::text_entries(raw));
}

// ------------------------------------------------------------------ commands

/// A beginning: not empty, no white space at its start, no line break.
spec fn is_storable_start(s: Seq<char>) -> bool {
    s.len() > 0 && !text::is_space(s[0]) && !s.contains('\n')
}

proof fn lemma_storable_concat(start: Seq<char>, end: Seq<char>)
    requires
        is_storable_start(start),
        is_storable_text(end),
    ensures
        is_storable_text(start + end),
{
    let s = start + end;
    assert(s[0] == start[0]);
    assert(s.last() == end.last());
    if s.contains('\n') {
        let i = choose|i: int| 0 <= i < s.len() && s[i] == '\n';
        if i < start.len() {
            assert(start[i] == '\n');
        } else {
            assert(end[i - start.len()] == '\n');
        }
    }
}

proof fn lemma_command_words()
    ensures
        is_storable_text("warm"@),
        is_storable_text("temp"@),
        is_storable_text("rgb"@),
        is_storable_text("cw"@),
        is_storable_text("off"@),
        is_storable_start("rgb --value #"@),
        is_storable_start("cw --value "@),
        is_storable_start("top "@),
        is_storable_start("bottom "@),
        is_storable_start("brightness "@),
{
    reveal_strlit("warm");
    reveal_strlit("temp");
    reveal_strlit("rgb");
    reveal_strlit("cw");
    reveal_strlit("off");
    reveal_strlit("rgb --value #");
    reveal_strlit("cw --value ");
    reveal_strlit("top ");
    reveal_strlit("bottom ");
    reveal_strlit("brightness ");
    assert("warm"@ =~= seq!['w', 'a', 'r', 'm']);
    assert("temp"@ =~= seq!['t', 'e', 'm', 'p']);
    assert("rgb"@ =~= seq!['r', 'g', 'b']);
    assert("cw"@ =~= seq!['c', 'w']);
    assert("off"@ =~= seq!['o', 'f', 'f']);
    assert("rgb --value #"@ =~= seq![
        'r',
        'g',
        'b',
        ' ',
        '-',
        '-',
        'v',
        'a',
        'l',
        'u',
        'e',
        ' ',
        '#',
    ]);
    assert("cw --value "@ =~= seq!['c', 'w', ' ', '-', '-', 'v', 'a', 'l', 'u', 'e', ' ']);
    assert("top "@ =~= seq!['t', 'o', 'p', ' ']);
    assert("bottom "@ =~= seq!['b', 'o', 't', 't', 'o', 'm', ' ']);
    assert("brightness "@ =~= seq!['b', 'r', 'i', 'g', 'h', 't', 'n', 'e', 's', 's', ' ']);
}

proof fn lemma_colour_is_storable(red: u8, green: u8, blue: u8)
    ensures
        is_storable_text(hex::hex_text(seq![red, green, blue])),
{
    let s = hex::hex_text(seq![red, green, blue]);
    hex::lemma_hex_text(seq![red, green, blue]);
    hex::lemma_hex_digits(seq![red, green, blue]);
    assert(hex::hex_value(s[0]) is Some);
    assert(hex::hex_value(s[s.len() - 1]) is Some);
    if s.contains('\n') {
        let i = choose|i: int| 0 <= i < s.len() && s[i] == '\n';
        assert(hex::hex_value(s[i]) is Some);
    }
}

/// The state after a command can be stored if the state before it can, and the
/// percentages of the configuration are percentages.
pub proof fn law_commands_keep_state_storable(
    command: Command,
    config: config::ConfigView,
    prior: LampState,
    now: Option<u64>,
)
    requires
        is_storable(prior),
        config::config_ok(config),
    ensures
        cache::state_after(command, config, prior, now) matches Some(after) ==> is_storable(after),
{
    lemma_command_words();
    match command {
        Command::Rgb { value, .. } => {
            if packet::rgb_value(value@) is Ok {
                let (red, green, blue) = packet::rgb_value(value@)->Ok_0;
                lemma_colour_is_storable(red, green, blue);
                lemma_storable_concat("rgb --value #"@, hex::hex_text(seq![red, green, blue]));
            }
        },
        Command::Cw { value, .. } => {
            lemma_decimal_is_storable(value as nat);
            lemma_storable_concat("cw --value "@, number::decimal(value as nat));
        },
        Command::Top { state } => {
            lemma_switch_is_storable(state);
            lemma_storable_concat("top "@, packet::switch_text(state));
        },
        Command::Bottom { state } => {
            lemma_switch_is_storable(state);
            lemma_storable_concat("bottom "@, packet::switch_text(state));
        },
        _ => {},
    }
}

/// The state after a change of brightness can be stored if the state before it
/// can.
pub proof fn law_brightness_keeps_state_storable(
    cached: LampState,
    brightness: u8,
    now: Option<u64>,
)
    requires
        is_storable(cached),
    ensures
        cache::brightness_change(cached, brightness, now) matches Ok((packets, after))
            ==> is_storable(after),
{
    let level = number::percent(brightness as int) as nat;
    lemma_command_words();
    lemma_decimal_is_storable(level);
    lemma_storable_concat("brightness "@, number::decimal(level));
}

/// What a command leaves, whatever was stored before it, is read back when it
/// has been stored.
pub proof fn law_commanded_state_is_read_back(
    command: Command,
    config: config::ConfigView,
    stored: Option<Seq<char>>,
    now: Option<u64>,
)
    requires
        config::config_ok(config),
    ensures
        cache::state_after(command, config, cache::stored_state(stored), now) matches Some(after)
            ==> cache::stored_state(Some(cache::state_text(after))) == after,
{
    let prior = cache::stored_state(stored);
    if stored is Some {
        law_parsed_state_is_storable(stored->Some_0);
    }
    law_commands_keep_state_storable(command, config, prior, now);
    if cache::state_after(command, config, prior, now) is Some {
        law_stored_state_is_read_back(
            cache::state_after(command, config, prior, now)->Some_0,
        );
    }
}

/// What a change of brightness leaves, whatever was stored before it, is read
/// back when it has been stored.
pub proof fn law_brightness_state_is_read_back(
    stored: Option<Seq<char>>,
    brightness: u8,
    now: Option<u64>,
)
    ensures
        cache::brightness_change(cache::stored_state(stored), brightness, now) matches Ok(
            (packets, after),
        ) ==> cache::stored_state(Some(cache::state_text(after))) == after,
{
    let cached = cache::stored_state(stored);
    if stored is Some {
        law_parsed_state_is_storable(stored->Some_0);
    }
    law_brightness_keeps_state_storable(cached, brightness, now);
    if cache::brightness_change(cached, brightness, now) is Ok {
        law_stored_state_is_read_back(
            cache::brightness_change(cached, brightness, now)->Ok_0.1,
        );
    }
}

// ---------------------------------------------------------------- brightness

proof fn lemma_modes_differ()
    ensures
        "cw"@ != "rgb"@,
        "cw"@ != "temp"@,
        "rgb"@ != "temp"@,
        "off"@ != "cw"@,
        "off"@ != "rgb"@,
        "off"@ != "temp"@,
{
    reveal_strlit("cw");
    reveal_strlit("rgb");
    reveal_strlit("temp");
    reveal_strlit("off");
    assert("cw"@.len() == 2 && "rgb"@.len() == 3 && "temp"@.len() == 4 && "off"@.len() == 3);
    assert("off"@[0] == 'o' && "rgb"@[0] == 'r');
}

/// Changing the brightness after a command that set a white value, a colour or
/// a temperature writes what that command would have written with the new
/// brightness. After the warm scene it writes the scene's temperature and leaves
/// the bottom zone alone. After switching off there is nothing to change.
pub proof fn law_brightness_repeats_the_last_mode(
    command: Command,
    config: config::ConfigView,
    prior: LampState,
    then: Option<u64>,
    brightness: u8,
    now: Option<u64>,
)
    ensures
        cache::state_after(command, config, prior, then) matches Some(after) ==> {
            let change = cache::brightness_change(after, brightness, now);
            match command {
                Command::Cw { value, .. } => change is Ok && command::command_packets(
                    Command::Cw { value, brightness },
                    config,
                ) == Ok::<Seq<Seq<u8>>, error::Failure>(change->Ok_0.0),
                Command::Rgb { value, .. } => change is Ok && command::command_packets(
                    Command::Rgb { value, brightness },
                    config,
                ) == Ok::<Seq<Seq<u8>>, error::Failure>(change->Ok_0.0),
                Command::Temp { warm, cool, .. } => change is Ok && command::command_packets(
                    Command::Temp { warm, cool, brightness },
                    config,
                ) == Ok::<Seq<Seq<u8>>, error::Failure>(change->Ok_0.0),
                Command::Warm => change is Ok && change->Ok_0.0 == seq![
                    packet::top_packet(SwitchState::On),
                    packet::temp_packet(config.warm_white, config.cool_white, brightness),
                ],
                Command::Off => change == Err::<(Seq<Seq<u8>>, LampState), error::Failure>(
                    error::Failure::NoCachedMode,
                ),
                _ => match (change, cache::brightness_change(prior, brightness, now)) {
                    (Ok((packets, _)), Ok((earlier, _))) => packets == earlier,
                    (Err(failure), Err(earlier)) => failure == earlier,
                    _ => false,
                },
            }
        },
{
    lemma_modes_differ();
    match command {
        Command::Cw { value, .. } => {
            packet::law_brightness_is_clamped(value, 0, 0, brightness);
        },
        Command::Rgb { value, .. } => {
            if packet::rgb_value(value@) is Ok {
                let (red, green, blue) = packet::rgb_value(value@)->Ok_0;
                packet::law_brightness_is_clamped(red, green, blue, brightness);
            }
        },
        Command::Temp { warm, cool, .. } => {
            packet::law_brightness_is_clamped(warm, cool, 0, brightness);
        },
        Command::Warm => {
            packet::law_brightness_is_clamped(
                config.warm_white,
                config.cool_white,
                0,
                brightness,
            );
        },
        _ => {},
    }
}

/// Changing the brightness again starts from what it started from before: only
/// the last brightness counts.
pub proof fn law_last_brightness_counts(
    cached: LampState,
    first: u8,
    then: Option<u64>,
    second: u8,
    now: Option<u64>,
)
    ensures
        cache::brightness_change(cached, first, then) matches Ok((packets, after))
            ==> cache::brightness_change(after, second, now) == cache::brightness_change(
            cached,
            second,
            now,
        ),
{
}

} // verus!
