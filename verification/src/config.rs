//! The configuration: defaults, the lines of a configuration file, and the
//! options that stand above both.

use crate::error;
use crate::error::LampError;
use crate::number;
use crate::number::{parse_percent, parse_u32, parse_u64};
use crate::text;
use crate::text::{chars_of, parse_entries, starts_with, string_of, to_lowercase, to_uppercase};
use crate::textmap::TextMap;
use vstd::prelude::*;

verus! {

/// What the configuration says.
#[derive(Debug, PartialEq, Eq)]
pub struct Config {
    pub address: String,
    pub name_prefix: String,
    pub service_uuid: String,
    pub characteristic_uuid: String,
    pub state_path: String,
    pub lamp_state_path: String,
    pub scan_seconds: u64,
    pub cached_connect_call_seconds: u64,
    pub connect_call_seconds: u64,
    pub connect_seconds: u64,
    pub connect_attempts: u32,
    pub warm_white: u8,
    pub cool_white: u8,
    pub brightness: u8,
    pub verbose: bool,
}

/// A `Config` with its strings as character sequences.
#[verifier::ext_equal]
pub ghost struct ConfigView {
    pub address: Seq<char>,
    pub name_prefix: Seq<char>,
    pub service_uuid: Seq<char>,
    pub characteristic_uuid: Seq<char>,
    pub state_path: Seq<char>,
    pub lamp_state_path: Seq<char>,
    pub scan_seconds: u64,
    pub cached_connect_call_seconds: u64,
    pub connect_call_seconds: u64,
    pub connect_seconds: u64,
    pub connect_attempts: u32,
    pub warm_white: u8,
    pub cool_white: u8,
    pub brightness: u8,
    pub verbose: bool,
}

impl View for Config {
    type V = ConfigView;

    open spec fn view(&self) -> ConfigView {
        ConfigView {
            address: self.address@,
            name_prefix: self.name_prefix@,
            service_uuid: self.service_uuid@,
            characteristic_uuid: self.characteristic_uuid@,
            state_path: self.state_path@,
            lamp_state_path: self.lamp_state_path@,
            scan_seconds: self.scan_seconds,
            cached_connect_call_seconds: self.cached_connect_call_seconds,
            connect_call_seconds: self.connect_call_seconds,
            connect_seconds: self.connect_seconds,
            connect_attempts: self.connect_attempts,
            warm_white: self.warm_white,
            cool_white: self.cool_white,
            brightness: self.brightness,
            verbose: self.verbose,
        }
    }
}

/// The percentages of the configuration are percentages.
pub open spec fn config_ok(config: ConfigView) -> bool {
    config.warm_white <= 100 && config.cool_white <= 100 && config.brightness <= 100
}

// ----------------------------------------------------------------- home paths

/// A path below a directory: an absolute path stands for itself, any other is
/// appended, with one `/` between the two if there is a directory and it does
/// not end in one.
pub open spec fn path_below(directory: Seq<char>, path: Seq<char>) -> Seq<char> {
    if path.len() > 0 && path[0] == '/' {
        path
    } else if directory.len() == 0 || directory.last() == '/' {
        directory + path
    } else {
        directory + "/"@ + path
    }
}

/// A path in which a leading `~/` stands for the home directory.
pub open spec fn expanded_path(path: Seq<char>, home: Option<Seq<char>>) -> Result<
    Seq<char>,
    error::Failure,
> {
    if "~/"@.is_prefix_of(path) {
        match home {
            Some(home) => Ok(path_below(home, path.skip(2))),
            None => Err(error::Failure::HomeNotSet),
        }
    } else {
        Ok(path)
    }
}

/// Replaces a leading `~/` by the home directory, which must then be known.
pub fn expand_home(path: &str, home: Option<&str>) -> (r: Result<String, LampError>)
    ensures
        match (r, expanded_path(path@, text::opt_str(home))) {
            (Ok(p), Ok(expected)) => p@ == expected,
            (Err(e), Err(failure)) => e@ == failure,
            _ => false,
        },
{
    if !starts_with(path, "~/") {
        return Ok(path.to_owned());
    }
    proof {
        reveal_strlit("~/");
    }
    let home = match home {
        Some(home) => home,
        None => return Err(LampError::HomeNotSet),
    };
    let chars = chars_of(path);
    let suffix = vstd::slice::slice_subrange(chars.as_slice(), 2, chars.len());
    assert(suffix@ =~= path@.skip(2));
    let rest = string_of(suffix);
    if suffix.len() > 0 && suffix[0] == '/' {
        return Ok(rest);
    }
    let directory = chars_of(home);
    let mut out = home.to_owned();
    if directory.len() > 0 && directory[directory.len() - 1] != '/' {
        out.append("/");
    }
    out.append(rest.as_str());
    Ok(out)
}

// ------------------------------------------------------------------- settings

/// The settings before the configuration file is read.
pub open spec fn default_settings() -> Map<Seq<char>, Seq<char>> {
    Map::<Seq<char>, Seq<char>>::empty().insert("ADDRESS"@, ""@).insert(
        "NAME_PREFIX"@,
        "KS"@,
    ).insert("SERVICE_UUID"@, "0000fff0-0000-1000-8000-00805f9b34fb"@).insert(
        "CHARACTERISTIC_UUID"@,
        "0000ae01-0000-1000-8000-00805f9b34fb"@,
    ).insert("STATE_PATH"@, "~/.local/state/keepsmile-lamp/device-path"@).insert(
        "LAMP_STATE_PATH"@,
        "~/.local/state/keepsmile-lamp/lamp-state"@,
    ).insert("SCAN_SECONDS"@, "25"@).insert("CACHED_CONNECT_CALL_SECONDS"@, "5"@).insert(
        "CONNECT_CALL_SECONDS"@,
        "12"@,
    ).insert("CONNECT_SECONDS"@, "45"@).insert("CONNECT_ATTEMPTS"@, "3"@).insert(
        "WARM_WHITE"@,
        "100"@,
    ).insert("COOL_WHITE"@, "0"@).insert("BRIGHTNESS"@, "100"@)
}

/// The settings after entries that each set the value of a key.
pub open spec fn with_entries(
    settings: Map<Seq<char>, Seq<char>>,
    entries: Seq<(Seq<char>, Seq<char>)>,
) -> Map<Seq<char>, Seq<char>>
    decreases entries.len(),
{
    if entries.len() == 0 {
        settings
    } else {
        with_entries(settings, entries.drop_last()).insert(entries.last().0, entries.last().1)
    }
}

/// The settings that the text of a configuration file gives; there may be none.
pub open spec fn settings_of(file: Option<Seq<char>>) -> Map<Seq<char>, Seq<char>> {
    match file {
        Some(file) => with_entries(default_settings(), text::text_entries(file)),
        None => default_settings(),
    }
}

/// The configuration that settings give, or the failure of the first setting,
/// in the order of the fields, that cannot be used.
pub open spec fn config_from(
    settings: Map<Seq<char>, Seq<char>>,
    home: Option<Seq<char>>,
) -> Result<ConfigView, error::Failure> {
    let seconds = |key: Seq<char>| number::config_number(settings[key], key, u64::MAX as nat);
    let byte = |key: Seq<char>| number::config_number(settings[key], key, u8::MAX as nat);
    let count = |key: Seq<char>| number::config_number(settings[key], key, u32::MAX as nat);
    match expanded_path(settings["STATE_PATH"@], home) {
        Err(failure) => Err(failure),
        Ok(state_path) => match expanded_path(settings["LAMP_STATE_PATH"@], home) {
            Err(failure) => Err(failure),
            Ok(lamp_state_path) => match seconds("SCAN_SECONDS"@) {
                Err(failure) => Err(failure),
                Ok(scan) => match seconds("CACHED_CONNECT_CALL_SECONDS"@) {
                    Err(failure) => Err(failure),
                    Ok(cached_call) => match seconds("CONNECT_CALL_SECONDS"@) {
                        Err(failure) => Err(failure),
                        Ok(call) => match seconds("CONNECT_SECONDS"@) {
                            Err(failure) => Err(failure),
                            Ok(connect) => match count("CONNECT_ATTEMPTS"@) {
                                Err(failure) => Err(failure),
                                Ok(attempts) => match byte("WARM_WHITE"@) {
                                    Err(failure) => Err(failure),
                                    Ok(warm) => match byte("COOL_WHITE"@) {
                                        Err(failure) => Err(failure),
                                        Ok(cool) => match byte("BRIGHTNESS"@) {
                                            Err(failure) => Err(failure),
                                            Ok(brightness) => Ok(
                                                ConfigView {
                                                    address: text::uppercase(settings["ADDRESS"@]),
                                                    name_prefix: settings["NAME_PREFIX"@],
                                                    service_uuid: text::lowercase(
                                                        settings["SERVICE_UUID"@],
                                                    ),
                                                    characteristic_uuid: text::lowercase(
                                                        settings["CHARACTERISTIC_UUID"@],
                                                    ),
                                                    state_path,
                                                    lamp_state_path,
                                                    scan_seconds: scan as u64,
                                                    cached_connect_call_seconds: cached_call as u64,
                                                    connect_call_seconds: call as u64,
                                                    connect_seconds: connect as u64,
                                                    connect_attempts: attempts as u32,
                                                    warm_white: number::percent(
                                                        warm as int,
                                                    ) as u8,
                                                    cool_white: number::percent(
                                                        cool as int,
                                                    ) as u8,
                                                    brightness: number::percent(
                                                        brightness as int,
                                                    ) as u8,
                                                    verbose: false,
                                                },
                                            ),
                                        },
                                    },
                                },
                            },
                        },
                    },
                },
            },
        },
    }
}

fn set(settings: &mut TextMap, key: &str, value: &str)
    requires
        old(settings).well_formed(),
    ensures
        final(settings).well_formed(),
        final(settings)@ == old(settings)@.insert(key@, value@),
{
    settings.insert(key.to_owned(), value.to_owned());
}

fn defaults() -> (r: TextMap)
    ensures
        r.well_formed(),
        r@ == default_settings(),
{
    let mut settings = TextMap::new();
    set(&mut settings, "ADDRESS", "");
    set(&mut settings, "NAME_PREFIX", "KS");
    set(&mut settings, "SERVICE_UUID", "0000fff0-0000-1000-8000-00805f9b34fb");
    set(&mut settings, "CHARACTERISTIC_UUID", "0000ae01-0000-1000-8000-00805f9b34fb");
    set(&mut settings, "STATE_PATH", "~/.local/state/keepsmile-lamp/device-path");
    set(&mut settings, "LAMP_STATE_PATH", "~/.local/state/keepsmile-lamp/lamp-state");
    set(&mut settings, "SCAN_SECONDS", "25");
    set(&mut settings, "CACHED_CONNECT_CALL_SECONDS", "5");
    set(&mut settings, "CONNECT_CALL_SECONDS", "12");
    set(&mut settings, "CONNECT_SECONDS", "45");
    set(&mut settings, "CONNECT_ATTEMPTS", "3");
    set(&mut settings, "WARM_WHITE", "100");
    set(&mut settings, "COOL_WHITE", "0");
    set(&mut settings, "BRIGHTNESS", "100");
    settings
}

proof fn lemma_with_entries_keeps_keys(
    settings: Map<Seq<char>, Seq<char>>,
    entries: Seq<(Seq<char>, Seq<char>)>,
)
    ensures
        settings.dom().subset_of(with_entries(settings, entries).dom()),
    decreases entries.len(),
{
    if entries.len() > 0 {
        lemma_with_entries_keeps_keys(settings, entries.drop_last());
    }
}

fn read_settings(file: Option<&str>) -> (r: TextMap)
    ensures
        r.well_formed(),
        r@ == settings_of(text::opt_str(file)),
        default_settings().dom().subset_of(r@.dom()),
{
    let mut settings = defaults();
    let file = match file {
        Some(file) => file,
        None => return settings,
    };
    let entries = parse_entries(file);
    let ghost all = text::pairs(entries@);
    let mut i: usize = 0;
    assert(all.take(0).len() == 0);
    while i < entries.len()
        invariant
            i <= entries.len(),
            all == text::pairs(entries@),
            settings.well_formed(),
            settings@ == with_entries(default_settings(), all.take(i as int)),
        decreases entries.len() - i,
    {
        let ghost now = all.take(i as int + 1);
        assert(now.drop_last() =~= all.take(i as int));
        assert(now.last() == (entries@[i as int].0@, entries@[i as int].1@));
        set(&mut settings, entries[i].0.as_str(), entries[i].1.as_str());
        i += 1;
    }
    assert(all.take(i as int) =~= all);
    proof {
        lemma_with_entries_keeps_keys(default_settings(), all);
    }
    settings
}

fn setting<'a>(settings: &'a TextMap, key: &str) -> (r: &'a str)
    requires
        settings.well_formed(),
        settings@.dom().contains(key@),
    ensures
        r@ == settings@[key@],
{
    match settings.get(key) {
        Some(value) => value.as_str(),
        None => "",
    }
}

impl Config {
    /// The configuration that the text of a configuration file gives, if there
    /// is such a file, or the first setting that cannot be used.
    pub fn load(file: Option<&str>, home: Option<&str>) -> (r: Result<Config, LampError>)
        ensures
            match (r, config_from(settings_of(text::opt_str(file)), text::opt_str(home))) {
                (Ok(config), Ok(expected)) => config@ == expected && config_ok(config@),
                (Err(e), Err(failure)) => e@ == failure,
                _ => false,
            },
    {
        let s = read_settings(file);
        let state_path = match expand_home(setting(&s, "STATE_PATH"), home) {
            Ok(path) => path,
            Err(e) => return Err(e),
        };
        let lamp_state_path = match expand_home(setting(&s, "LAMP_STATE_PATH"), home) {
            Ok(path) => path,
            Err(e) => return Err(e),
        };
        let scan_seconds = match parse_u64(setting(&s, "SCAN_SECONDS"), "SCAN_SECONDS") {
            Ok(n) => n,
            Err(e) => return Err(e),
        };
        let cached_connect_call_seconds = match parse_u64(
            setting(&s, "CACHED_CONNECT_CALL_SECONDS"),
            "CACHED_CONNECT_CALL_SECONDS",
        ) {
            Ok(n) => n,
            Err(e) => return Err(e),
        };
        let connect_call_seconds = match parse_u64(
            setting(&s, "CONNECT_CALL_SECONDS"),
            "CONNECT_CALL_SECONDS",
        ) {
            Ok(n) => n,
            Err(e) => return Err(e),
        };
        let connect_seconds = match parse_u64(setting(&s, "CONNECT_SECONDS"), "CONNECT_SECONDS") {
            Ok(n) => n,
            Err(e) => return Err(e),
        };
        let connect_attempts = match parse_u32(
            setting(&s, "CONNECT_ATTEMPTS"),
            "CONNECT_ATTEMPTS",
        ) {
            Ok(n) => n,
            Err(e) => return Err(e),
        };
        let warm_white = match parse_percent(setting(&s, "WARM_WHITE"), "WARM_WHITE") {
            Ok(n) => n,
            Err(e) => return Err(e),
        };
        let cool_white = match parse_percent(setting(&s, "COOL_WHITE"), "COOL_WHITE") {
            Ok(n) => n,
            Err(e) => return Err(e),
        };
        let brightness = match parse_percent(setting(&s, "BRIGHTNESS"), "BRIGHTNESS") {
            Ok(n) => n,
            Err(e) => return Err(e),
        };
        Ok(
            Config {
                address: to_uppercase(setting(&s, "ADDRESS")),
                name_prefix: setting(&s, "NAME_PREFIX").to_owned(),
                service_uuid: to_lowercase(setting(&s, "SERVICE_UUID")),
                characteristic_uuid: to_lowercase(setting(&s, "CHARACTERISTIC_UUID")),
                state_path,
                lamp_state_path,
                scan_seconds,
                cached_connect_call_seconds,
                connect_call_seconds,
                connect_seconds,
                connect_attempts,
                warm_white,
                cool_white,
                brightness,
                verbose: false,
            },
        )
    }

    /// The configuration with the options of one invocation: an address stands
    /// above the configured one, in upper case.
    pub fn with_options(self, address: Option<&str>, verbose: bool) -> (r: Config)
        ensures
            r@ == (ConfigView {
                address: match text::opt_str(address) {
                    Some(address) => text::uppercase(address),
                    None => self@.address,
                },
                verbose,
                ..self@
            }),
    {
        let mut config = self;
        match address {
            Some(address) => {
                config.address = to_uppercase(address);
            },
            None => {},
        }
        config.verbose = verbose;
        config
    }
}

// ---------------------------------------------------------------------- laws

/// Of several lines for one key the last one counts.
pub proof fn law_last_entry_counts(
    settings: Map<Seq<char>, Seq<char>>,
    entries: Seq<(Seq<char>, Seq<char>)>,
    i: int,
)
    requires
        0 <= i < entries.len(),
        forall|j: int| i < j < entries.len() ==> (#[trigger] entries[j]).0 != entries[i].0,
    ensures
        with_entries(settings, entries)[entries[i].0] == entries[i].1,
    decreases entries.len(),
{
    if i < entries.len() - 1 {
        let before = entries.drop_last();
        assert(before[i] == entries[i]);
        assert(entries[entries.len() - 1].0 != entries[i].0);
        assert forall|j: int| i < j < before.len() implies (#[trigger] before[j]).0
            != before[i].0 by {
            assert(before[j] == entries[j]);
        }
        law_last_entry_counts(settings, before, i);
        lemma_with_entries_has_key(settings, before, i);
    }
}

proof fn lemma_with_entries_has_key(
    settings: Map<Seq<char>, Seq<char>>,
    entries: Seq<(Seq<char>, Seq<char>)>,
    i: int,
)
    requires
        0 <= i < entries.len(),
    ensures
        with_entries(settings, entries).dom().contains(entries[i].0),
    decreases entries.len(),
{
    if i < entries.len() - 1 {
        assert(entries.drop_last()[i] == entries[i]);
        lemma_with_entries_has_key(settings, entries.drop_last(), i);
    }
}

/// A key that no line sets keeps the value that it had.
pub proof fn law_unset_keys_keep_their_value(
    settings: Map<Seq<char>, Seq<char>>,
    entries: Seq<(Seq<char>, Seq<char>)>,
    key: Seq<char>,
)
    requires
        settings.dom().contains(key),
        forall|i: int| 0 <= i < entries.len() ==> (#[trigger] entries[i]).0 != key,
    ensures
        with_entries(settings, entries)[key] == settings[key],
    decreases entries.len(),
{
    if entries.len() > 0 {
        let before = entries.drop_last();
        assert(entries[entries.len() - 1].0 != key);
        assert forall|i: int| 0 <= i < before.len() implies (#[trigger] before[i]).0 != key by {
            assert(before[i] == entries[i]);
        }
        lemma_with_entries_keeps_keys(settings, before);
        law_unset_keys_keep_their_value(settings, before, key);
    }
}

proof fn lemma_setting_names_differ()
    ensures
        "ADDRESS"@.len() == 7,
        "NAME_PREFIX"@.len() == 11,
        "SERVICE_UUID"@.len() == 12,
        "CHARACTERISTIC_UUID"@.len() == 19,
        "STATE_PATH"@.len() == 10,
        "LAMP_STATE_PATH"@.len() == 15,
        "SCAN_SECONDS"@.len() == 12,
        "CACHED_CONNECT_CALL_SECONDS"@.len() == 27,
        "CONNECT_CALL_SECONDS"@.len() == 20,
        "CONNECT_SECONDS"@.len() == 15,
        "CONNECT_ATTEMPTS"@.len() == 16,
        "WARM_WHITE"@.len() == 10,
        "COOL_WHITE"@.len() == 10,
        "BRIGHTNESS"@.len() == 10,
        "SERVICE_UUID"@[1] != "SCAN_SECONDS"@[1],
        "LAMP_STATE_PATH"@[0] != "CONNECT_SECONDS"@[0],
        "STATE_PATH"@[0] == 'S',
        "WARM_WHITE"@[0] == 'W',
        "COOL_WHITE"@[0] == 'C',
        "BRIGHTNESS"@[0] == 'B',
{
    reveal_strlit("ADDRESS");
    reveal_strlit("NAME_PREFIX");
    reveal_strlit("SERVICE_UUID");
    reveal_strlit("CHARACTERISTIC_UUID");
    reveal_strlit("STATE_PATH");
    reveal_strlit("LAMP_STATE_PATH");
    reveal_strlit("SCAN_SECONDS");
    reveal_strlit("CACHED_CONNECT_CALL_SECONDS");
    reveal_strlit("CONNECT_CALL_SECONDS");
    reveal_strlit("CONNECT_SECONDS");
    reveal_strlit("CONNECT_ATTEMPTS");
    reveal_strlit("WARM_WHITE");
    reveal_strlit("COOL_WHITE");
    reveal_strlit("BRIGHTNESS");
}

proof fn lemma_default_numbers()
    ensures
        "25"@ == number::decimal(25),
        "5"@ == number::decimal(5),
        "12"@ == number::decimal(12),
        "45"@ == number::decimal(45),
        "3"@ == number::decimal(3),
        "100"@ == number::decimal(100),
        "0"@ == number::decimal(0),
{
    reveal_strlit("25");
    reveal_strlit("5");
    reveal_strlit("12");
    reveal_strlit("45");
    reveal_strlit("3");
    reveal_strlit("100");
    reveal_strlit("0");
    reveal_with_fuel(number::decimal, 3);
    assert("25"@ =~= number::decimal(25));
    assert("5"@ =~= number::decimal(5));
    assert("12"@ =~= number::decimal(12));
    assert("45"@ =~= number::decimal(45));
    assert("3"@ =~= number::decimal(3));
    assert("100"@ =~= number::decimal(100));
    assert("0"@ =~= number::decimal(0));
}

/// Without a configuration file, and with a home directory, the configuration
/// has the default values.
pub proof fn law_default_config(home: Seq<char>)
    ensures
        config_from(settings_of(None), Some(home)) == Ok::<ConfigView, error::Failure>(
            ConfigView {
                address: Seq::empty(),
                name_prefix: "KS"@,
                service_uuid: "0000fff0-0000-1000-8000-00805f9b34fb"@,
                characteristic_uuid: "0000ae01-0000-1000-8000-00805f9b34fb"@,
                state_path: path_below(home, ".local/state/keepsmile-lamp/device-path"@),
                lamp_state_path: path_below(home, ".local/state/keepsmile-lamp/lamp-state"@),
                scan_seconds: 25,
                cached_connect_call_seconds: 5,
                connect_call_seconds: 12,
                connect_seconds: 45,
                connect_attempts: 3,
                warm_white: 100,
                cool_white: 0,
                brightness: 100,
                verbose: false,
            },
        ),
{
    lemma_setting_names_differ();
    lemma_default_numbers();
    let s = default_settings();
    assert(s["ADDRESS"@] == ""@);
    assert(s["NAME_PREFIX"@] == "KS"@);
    assert(s["SERVICE_UUID"@] == "0000fff0-0000-1000-8000-00805f9b34fb"@);
    assert(s["CHARACTERISTIC_UUID"@] == "0000ae01-0000-1000-8000-00805f9b34fb"@);
    assert(s["STATE_PATH"@] == "~/.local/state/keepsmile-lamp/device-path"@);
    assert(s["LAMP_STATE_PATH"@] == "~/.local/state/keepsmile-lamp/lamp-state"@);
    number::law_decimal_round_trip(25, u64::MAX as nat);
    number::law_decimal_round_trip(5, u64::MAX as nat);
    number::law_decimal_round_trip(12, u64::MAX as nat);
    number::law_decimal_round_trip(45, u64::MAX as nat);
    number::law_decimal_round_trip(3, u32::MAX as nat);
    number::law_decimal_round_trip(100, u8::MAX as nat);
    number::law_decimal_round_trip(0, u8::MAX as nat);
    reveal_strlit("");
    reveal_strlit("~/");
    reveal_strlit("~/.local/state/keepsmile-lamp/device-path");
    reveal_strlit("~/.local/state/keepsmile-lamp/lamp-state");
    reveal_strlit(".local/state/keepsmile-lamp/device-path");
    reveal_strlit(".local/state/keepsmile-lamp/lamp-state");
    let device = "~/.local/state/keepsmile-lamp/device-path"@;
    let lamp = "~/.local/state/keepsmile-lamp/lamp-state"@;
    assert("~/"@ =~= device.subrange(0, 2));
    assert("~/"@ =~= lamp.subrange(0, 2));
    lemma_default_paths();
    lemma_default_uuids();
    assert(""@ =~= Seq::empty());
    assert(text::uppercase(""@) =~= Seq::empty());
}

proof fn lemma_default_uuids()
    ensures
        text::lowercase("0000fff0-0000-1000-8000-00805f9b34fb"@)
            == "0000fff0-0000-1000-8000-00805f9b34fb"@,
        text::lowercase("0000ae01-0000-1000-8000-00805f9b34fb"@)
            == "0000ae01-0000-1000-8000-00805f9b34fb"@,
{
    reveal_strlit("0000fff0-0000-1000-8000-00805f9b34fb");
    reveal_strlit("0000ae01-0000-1000-8000-00805f9b34fb");
    let tail = seq![
        '-', '0', '0', '0', '0', '-', '1', '0', '0', '0', '-', '8', '0', '0', '0', '-', '0', '0',
        '8', '0', '5', 'f', '9', 'b', '3', '4', 'f', 'b',
    ];
    let service = seq!['0', '0', '0', '0', 'f', 'f', 'f', '0'] + tail;
    let characteristic = seq!['0', '0', '0', '0', 'a', 'e', '0', '1'] + tail;
    assert("0000fff0-0000-1000-8000-00805f9b34fb"@ =~= service);
    assert("0000ae01-0000-1000-8000-00805f9b34fb"@ =~= characteristic);
    assert(text::lowercase(service) =~= service);
    assert(text::lowercase(characteristic) =~= characteristic);
}

proof fn lemma_default_paths()
    ensures
        "~/.local/state/keepsmile-lamp/device-path"@.skip(2)
            == ".local/state/keepsmile-lamp/device-path"@,
        "~/.local/state/keepsmile-lamp/lamp-state"@.skip(2)
            == ".local/state/keepsmile-lamp/lamp-state"@,
{
    reveal_strlit("~/.local/state/keepsmile-lamp/device-path");
    reveal_strlit("~/.local/state/keepsmile-lamp/lamp-state");
    reveal_strlit(".local/state/keepsmile-lamp/device-path");
    reveal_strlit(".local/state/keepsmile-lamp/lamp-state");
    let directory = seq![
        '.', 'l', 'o', 'c', 'a', 'l', '/', 's', 't', 'a', 't', 'e', '/', 'k', 'e', 'e', 'p', 's',
        'm', 'i', 'l', 'e', '-', 'l', 'a', 'm', 'p', '/',
    ];
    let device = directory + seq!['d', 'e', 'v', 'i', 'c', 'e', '-', 'p', 'a', 't', 'h'];
    let lamp = directory + seq!['l', 'a', 'm', 'p', '-', 's', 't', 'a', 't', 'e'];
    assert("~/.local/state/keepsmile-lamp/device-path"@.skip(2) =~= device);
    assert(".local/state/keepsmile-lamp/device-path"@ =~= device);
    assert("~/.local/state/keepsmile-lamp/lamp-state"@.skip(2) =~= lamp);
    assert(".local/state/keepsmile-lamp/lamp-state"@ =~= lamp);
}

} // verus!
