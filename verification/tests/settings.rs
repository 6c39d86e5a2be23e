use std::time::{SystemTime, UNIX_EPOCH};

use keepsmile_lamp::clock::{current_unix_seconds, unix_seconds};
use keepsmile_lamp::config::{expand_home, Config};
use keepsmile_lamp::error::{LampError, NumberError};
use keepsmile_lamp::number::{
    clamp_percent, decimal_text, parse_percent, parse_u32, parse_u64, signed_text,
};
use keepsmile_lamp::text::{
    eq_ignore_ascii_case, join, parse_entries, starts_with, text_at_most, to_lowercase,
    to_uppercase, trim_text,
};
use keepsmile_lamp::textmap::TextMap;

#[test]
fn defaults_hold_without_a_file() {
    let config = Config::load(None, Some("/home/me")).unwrap();
    assert_eq!(config.address, "");
    assert_eq!(config.name_prefix, "KS");
    assert_eq!(config.service_uuid, "0000fff0-0000-1000-8000-00805f9b34fb");
    assert_eq!(config.characteristic_uuid, "0000ae01-0000-1000-8000-00805f9b34fb");
    assert_eq!(config.state_path, "/home/me/.local/state/keepsmile-lamp/device-path");
    assert_eq!(config.lamp_state_path, "/home/me/.local/state/keepsmile-lamp/lamp-state");
    assert_eq!(config.scan_seconds, 25);
    assert_eq!(config.cached_connect_call_seconds, 5);
    assert_eq!(config.connect_call_seconds, 12);
    assert_eq!(config.connect_seconds, 45);
    assert_eq!(config.connect_attempts, 3);
    assert_eq!((config.warm_white, config.cool_white, config.brightness), (100, 0, 100));
    assert!(!config.verbose);
}

#[test]
fn a_file_overrides_the_defaults() {
    let file = "# lamp\nADDRESS=aa:bb:cc:dd:ee:ff\nNAME_PREFIX = Lamp \nSERVICE_UUID=FFF0\nCHARACTERISTIC_UUID=AE01\nSTATE_PATH=/var/d\nLAMP_STATE_PATH=rel/l\nWARM_WHITE=120\nCOOL_WHITE=7\nBRIGHTNESS=60\nSCAN_SECONDS=1\nCACHED_CONNECT_CALL_SECONDS=2\nCONNECT_CALL_SECONDS=3\nCONNECT_SECONDS=4\nCONNECT_ATTEMPTS=5\nno entry\nUNKNOWN=1\nBRIGHTNESS=61\n";
    let config = Config::load(Some(file), None).unwrap();
    assert_eq!(config.address, "AA:BB:CC:DD:EE:FF");
    assert_eq!(config.name_prefix, "Lamp");
    assert_eq!(config.service_uuid, "fff0");
    assert_eq!(config.characteristic_uuid, "ae01");
    assert_eq!(config.state_path, "/var/d");
    assert_eq!(config.lamp_state_path, "rel/l");
    assert_eq!((config.warm_white, config.cool_white, config.brightness), (100, 7, 61));
    assert_eq!(config.scan_seconds, 1);
    assert_eq!(config.cached_connect_call_seconds, 2);
    assert_eq!(config.connect_call_seconds, 3);
    assert_eq!(config.connect_seconds, 4);
    assert_eq!(config.connect_attempts, 5);
}

#[test]
fn options_stand_above_the_file() {
    let config = Config::load(Some("ADDRESS=a\n"), Some("/h")).unwrap();
    let config = config.with_options(Some("aé:1"), true);
    assert_eq!(config.address, "AÉ:1");
    assert!(config.verbose);
    let config = config.with_options(None, false);
    assert_eq!(config.address, "AÉ:1");
    assert!(!config.verbose);
}

#[test]
fn bad_settings_are_refused() {
    assert_eq!(Config::load(None, None), Err(LampError::HomeNotSet));
    let bad = |file: &str| Config::load(Some(file), Some("/h")).unwrap_err();
    assert_eq!(
        bad("SCAN_SECONDS=x"),
        LampError::BadNumber {
            key: "SCAN_SECONDS".to_string(),
            cause: NumberError::InvalidDigit,
        }
    );
    assert_eq!(
        bad("CONNECT_ATTEMPTS=4294967296"),
        LampError::BadNumber {
            key: "CONNECT_ATTEMPTS".to_string(),
            cause: NumberError::TooLarge,
        }
    );
    assert_eq!(
        bad("WARM_WHITE="),
        LampError::BadNumber {
            key: "WARM_WHITE".to_string(),
            cause: NumberError::Empty,
        }
    );
    assert_eq!(bad("WARM_WHITE=").cause(), Some("cannot parse integer from empty string"));
    assert_eq!(bad("BRIGHTNESS=256").message(), "parse BRIGHTNESS");
}

#[test]
fn home_is_expanded_in_front_only() {
    assert_eq!(expand_home("~/a/b", Some("/home/me")).unwrap(), "/home/me/a/b");
    assert_eq!(expand_home("~/a", Some("/home/me/")).unwrap(), "/home/me/a");
    assert_eq!(expand_home("~/a", Some("")).unwrap(), "a");
    assert_eq!(expand_home("~//etc", Some("/home/me")).unwrap(), "/etc");
    assert_eq!(expand_home("~/", Some("/home/me")).unwrap(), "/home/me/");
    assert_eq!(expand_home("~a", None).unwrap(), "~a");
    assert_eq!(expand_home("/x/~/a", None).unwrap(), "/x/~/a");
    assert_eq!(expand_home("~/a", None), Err(LampError::HomeNotSet));
}

#[test]
fn numbers_are_read_as_rust_reads_them() {
    assert_eq!(parse_u64("18446744073709551615", "K").unwrap(), u64::MAX);
    assert!(parse_u64("18446744073709551616", "K").is_err());
    assert_eq!(parse_u64("+007", "K").unwrap(), 7);
    for bad in ["", "+", "-1", " 1", "1 ", "1_0", "१"] {
        assert!(parse_u64(bad, "K").is_err());
        assert!(bad.parse::<u64>().is_err());
    }
    assert_eq!(parse_u32("4294967295", "K").unwrap(), u32::MAX);
    assert_eq!(parse_percent("101", "K").unwrap(), 100);
    assert_eq!(clamp_percent(99), 99);
    assert_eq!(clamp_percent(255), 100);
}

#[test]
fn numbers_are_written_as_rust_writes_them() {
    for n in [0, 7, 10, 12345, u64::MAX] {
        assert_eq!(decimal_text(n), n.to_string());
        assert_eq!(parse_u64(&decimal_text(n), "K").unwrap(), n);
    }
    for n in [0, -1, 42, i64::MIN, i64::MAX] {
        assert_eq!(signed_text(n), n.to_string());
    }
}

#[test]
fn entries_are_trimmed_lines_with_an_equals_sign() {
    let entries = parse_entries(" a = b = c \r\n#x=y\n\n=v\nk=\nplain\n\u{a0}u\u{3000}=1");
    let expected: Vec<(String, String)> = vec![
        ("a".to_string(), "b = c".to_string()),
        ("".to_string(), "v".to_string()),
        ("k".to_string(), "".to_string()),
        ("u".to_string(), "1".to_string()),
    ];
    assert_eq!(entries, expected);
    assert_eq!(parse_entries("a=1\nb=2\n").len(), 2);
}

#[test]
fn texts_change_case_as_rust_changes_it() {
    for s in ["", "aB9", "é", "ß", "İx", "ΑΣ", "ǆ"] {
        assert_eq!(to_uppercase(s), s.to_uppercase());
        assert_eq!(to_lowercase(s), s.to_lowercase());
    }
    assert!(eq_ignore_ascii_case("aB:é", "Ab:é"));
    assert!(!eq_ignore_ascii_case("é", "É"));
    assert!(!eq_ignore_ascii_case("a", "ab"));
}

#[test]
fn texts_are_compared_and_joined() {
    assert_eq!(trim_text("\t a b \u{2003}\n"), "a b");
    assert!(starts_with("abc", "ab"));
    assert!(starts_with("abc", ""));
    assert!(!starts_with("ab", "abc"));
    assert!(text_at_most("a", "a"));
    assert!(text_at_most("a", "ab"));
    assert!(!text_at_most("b", "ab"));
    assert!(text_at_most("Z", "a"));
    for (a, b) in [("é", "z"), ("\u{ffff}", "\u{10000}"), ("/a/b", "/a_b")] {
        assert_eq!(text_at_most(a, b), a <= b);
        assert_eq!(text_at_most(b, a), b <= a);
    }
    let parts = vec!["a".to_string(), "".to_string(), "b".to_string()];
    assert_eq!(join(&parts, ", "), "a, , b");
    assert_eq!(join(&[], ", "), "");
}

#[test]
fn a_map_keeps_the_last_value() {
    let mut map = TextMap::new();
    assert_eq!(map.get("a"), None);
    map.insert("a".to_string(), "1".to_string());
    map.insert("b".to_string(), "2".to_string());
    map.insert("a".to_string(), "3".to_string());
    assert_eq!(map.get("a"), Some(&"3".to_string()));
    assert_eq!(map.get("b"), Some(&"2".to_string()));
}

#[test]
fn the_clock_gives_seconds_since_the_epoch() {
    let seconds = || SystemTime::now().duration_since(UNIX_EPOCH).unwrap().as_secs();
    let before = seconds();
    let now = current_unix_seconds().unwrap();
    assert!(before <= now && now <= seconds());
    assert_eq!(unix_seconds(Some(7)), Ok(7));
    assert_eq!(
        unix_seconds(None).unwrap_err().message(),
        "system clock is before Unix epoch"
    );
}
