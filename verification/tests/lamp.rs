use keepsmile_lamp::cache::{
    brightness_only_commands, brightness_with_retries, cached_lamp_state_report,
    cached_state_for_command, non_empty, parse_cached_byte, parse_cached_lamp_state,
    parse_cached_percent, parse_switch_state, push_optional, push_optional_ref,
    read_cached_lamp_state, send_with_retries, serialize_cached_lamp_state, CachedLampState,
};
use keepsmile_lamp::command::{
    command_success_message, commands_for, has_splittable_colour, normalize_uuid,
    raw_write_with_retries, task_for, Command, RawPacket, Task,
};
use keepsmile_lamp::config::Config;
use keepsmile_lamp::error::{CachedField, LampError, NumberError};
use keepsmile_lamp::hex::{hex, parse_hex, splits_into_hex_pairs};
use keepsmile_lamp::packet::{
    bottom_command, cw_command, cw_temperature_label, get_state_command, live_floor_state_report,
    parse_live_floor_state, parse_rgb_value, rgb_command, rgb_value_command,
    splits_into_rgb_pairs, switch_state_from_packet, temp_command, top_command, SwitchState,
};

fn config() -> Config {
    Config::load(None, Some("/home/me")).unwrap()
}

#[test]
fn cached_lamp_state_round_trips() {
    let state = CachedLampState {
        updated_unix: Some(1_783_000_000),
        command: Some("rgb".to_string()),
        top: Some(SwitchState::On),
        bottom: Some(SwitchState::Off),
        mode: Some("rgb".to_string()),
        warm: None,
        cool: None,
        cw: None,
        brightness: Some(42),
        red: Some(1),
        green: Some(2),
        blue: Some(3),
    };

    let serialized = serialize_cached_lamp_state(&state);
    assert_eq!(parse_cached_lamp_state(&serialized), state);
}

#[test]
fn cached_percent_values_are_clamped() {
    let state = parse_cached_lamp_state("BRIGHTNESS=250\nWARM=101\nCOOL=99\n");

    assert_eq!(state.brightness, Some(100));
    assert_eq!(state.warm, Some(100));
    assert_eq!(state.cool, Some(99));
}

#[test]
fn live_floor_state_decodes_android_ks05_notification() {
    let state = parse_live_floor_state(&parse_hex("5f020201000000004932000f0ff5").unwrap())
        .expect("state notification should decode");

    assert!(!state.dynamic);
    assert!(state.rgb);
    assert_eq!(state.red, 0);
    assert_eq!(state.green, 0);
    assert_eq!(state.blue, 0);
    assert_eq!(state.cw, 0);
    assert_eq!(state.brightness, 0x49);
    assert_eq!(state.speed, 50);
    assert_eq!(state.model, -128);
    assert_eq!(state.top, SwitchState::Off);
    assert_eq!(state.bottom, SwitchState::Off);
}

#[test]
fn cw_command_sets_white_channel_without_using_raw_write() {
    assert_eq!(
        cw_command(0, 90),
        parse_hex("5a0002000000005a00a5").unwrap()
    );
    assert_eq!(
        cw_command(255, 90),
        parse_hex("5a0002000000ff5a00a5").unwrap()
    );
}

#[test]
fn rgb_value_accepts_hashless_hex() {
    assert_eq!(
        rgb_value_command("ff8800", 70).unwrap(),
        parse_hex("5a0001ff8800004600a5").unwrap()
    );
}

#[test]
fn rgb_value_accepts_hash_prefix() {
    assert_eq!(
        rgb_value_command("#010203", 42).unwrap(),
        parse_hex("5a0001010203002a00a5").unwrap()
    );
}

#[test]
fn rgb_value_rejects_non_rgb_hex() {
    assert!(rgb_value_command("ff00", 70).is_err());
}

#[test]
fn brightness_only_reuses_cached_cw_value() {
    let cached = parse_cached_lamp_state("MODE=cw\nCW=100\nTOP=on\nBOTTOM=off\n");
    let (commands, state) = brightness_only_commands(&cached, 50, None).unwrap();

    assert_eq!(
        commands,
        vec![top_command(SwitchState::On), cw_command(100, 50)]
    );
    assert_eq!(state.cw, Some(100));
    assert_eq!(state.brightness, Some(50));
}

#[test]
fn brightness_only_reuses_cached_rgb_value() {
    let cached = parse_cached_lamp_state("MODE=rgb\nRED=1\nGREEN=2\nBLUE=3\nTOP=on\n");
    let (commands, state) = brightness_only_commands(&cached, 50, None).unwrap();

    assert_eq!(
        commands,
        vec![top_command(SwitchState::On), rgb_command(1, 2, 3, 50)]
    );
    assert_eq!(state.red, Some(1));
    assert_eq!(state.green, Some(2));
    assert_eq!(state.blue, Some(3));
    assert_eq!(state.brightness, Some(50));
}

#[test]
fn cw_success_message_is_concise() {
    let command = Command::Cw {
        value: 100,
        brightness: 60,
    };

    assert_eq!(command_success_message(&command), "ok cw=100 brightness=60");
}

#[test]
fn packets_have_their_exact_bytes() {
    assert_eq!(top_command(SwitchState::On), vec![0x5B, 0xF0, 0x01, 0xB5]);
    assert_eq!(top_command(SwitchState::Off), vec![0x5B, 0x0F, 0x01, 0xB5]);
    assert_eq!(bottom_command(SwitchState::On), vec![0x5B, 0xF0, 0x02, 0xB5]);
    assert_eq!(bottom_command(SwitchState::Off), vec![0x5B, 0x0F, 0x02, 0xB5]);
    assert_eq!(temp_command(80, 20, 60), vec![0x5A, 2, 80, 20, 60, 0, 0xA5]);
    assert_eq!(
        rgb_command(1, 2, 3, 4),
        vec![0x5A, 0, 1, 1, 2, 3, 0, 4, 0, 0xA5]
    );
    assert_eq!(get_state_command(), vec![0x5F, 0x01, 0x00, 0xF5]);
}

#[test]
fn percentages_in_packets_are_clamped() {
    assert_eq!(temp_command(255, 101, 200), vec![0x5A, 2, 100, 100, 100, 0, 0xA5]);
    assert_eq!(cw_command(255, 255)[6..8], [255, 100]);
    assert_eq!(rgb_command(255, 254, 253, 101)[3..8], [255, 254, 253, 0, 100]);
}

#[test]
fn hex_reads_what_it_writes() {
    let all: Vec<u8> = (0..=255).collect();
    let digits = hex(&all);
    assert_eq!(digits.len(), 512);
    assert_eq!(&digits[..8], "00010203");
    assert_eq!(&digits[504..], "fcfdfeff");
    assert_eq!(parse_hex(&digits).unwrap(), all);
    assert_eq!(parse_hex(&digits.to_uppercase()).unwrap(), all);
}

#[test]
fn hex_leaves_out_white_space_and_colons() {
    assert_eq!(parse_hex("5f:01 00\tF5\n").unwrap(), vec![0x5F, 1, 0, 0xF5]);
    assert_eq!(parse_hex("").unwrap(), Vec::<u8>::new());
    assert_eq!(parse_hex("+f0A").unwrap(), vec![15, 10]);
}

#[test]
fn hex_errors_name_the_piece() {
    assert_eq!(parse_hex("abc"), Err(LampError::OddHexLength));
    assert_eq!(
        parse_hex("00zz").unwrap_err(),
        LampError::BadHexByte { piece: "zz".to_string() }
    );
    assert_eq!(
        parse_hex("00zz").unwrap_err().message(),
        "parse hex byte zz"
    );
    assert_eq!(
        parse_hex("00zz").unwrap_err().cause(),
        Some("invalid digit found in string")
    );
    assert_eq!(
        parse_hex("é").unwrap_err(),
        LampError::BadHexByte { piece: "é".to_string() }
    );
}

#[test]
fn hex_that_cannot_be_cut_is_recognised() {
    assert!(splits_into_hex_pairs("00ff"));
    assert!(splits_into_hex_pairs("éé"));
    assert!(!splits_into_hex_pairs("aéb"));
    assert!(!splits_into_hex_pairs("😀"));
    assert!(splits_into_hex_pairs("zz😀"));
    assert!(!splits_into_rgb_pairs("#aéb"));
    assert!(splits_into_rgb_pairs("#ff8800"));
    assert!(!has_splittable_colour(&Command::Rgb {
        value: "aéb".to_string(),
        brightness: 1,
    }));
    assert!(has_splittable_colour(&Command::Off));
}

#[test]
fn rgb_values_are_read_with_and_without_hash() {
    assert_eq!(parse_rgb_value("ff8800").unwrap(), (255, 136, 0));
    assert_eq!(parse_rgb_value("#ff8800").unwrap(), (255, 136, 0));
    assert_eq!(parse_rgb_value("ff0011").unwrap(), parse_rgb_value("#FF0011").unwrap());
    assert_eq!(parse_rgb_value("ff880011"), Err(LampError::RgbLength));
    assert_eq!(
        parse_rgb_value("ff00").unwrap_err().message(),
        "rgb --value must be exactly 6 hex digits, like ff8800 or #ff8800"
    );
    assert!(parse_rgb_value("##ff8800").is_err());
    assert_eq!(parse_rgb_value("#aBcDeF").unwrap(), (0xab, 0xcd, 0xef));
}

#[test]
fn a_colour_is_exactly_six_digits() {
    for value in ["+f+8+0", "#+f+8+0", "ff:88:00", "ff 88 00", " ff8800", "ff8800\n", "", "#"] {
        assert_eq!(parse_rgb_value(value), Err(LampError::RgbLength));
        assert_eq!(rgb_value_command(value, 1), Err(LampError::RgbLength));
        let command = Command::Rgb { value: value.to_string(), brightness: 1 };
        assert_eq!(commands_for(&command, &config()), Err(LampError::RgbLength));
        assert_eq!(cached_state_for_command(&command, &config(), None, None), None);
    }
    assert_eq!(
        parse_rgb_value("ff88zz"),
        Err(LampError::BadHexByte { piece: "zz".to_string() })
    );
    assert_eq!(parse_rgb_value("ff880"), Err(LampError::OddHexLength));
}

#[test]
fn live_state_needs_thirteen_bytes_and_its_header() {
    let packet = parse_hex("5f0201010a141eff64781100f0").unwrap();
    let state = parse_live_floor_state(&packet).unwrap();
    assert!(state.dynamic);
    assert_eq!((state.red, state.green, state.blue), (10, 20, 30));
    assert_eq!(state.cw, 255);
    assert_eq!(state.brightness, 100);
    assert_eq!(state.speed, 0);
    assert_eq!(state.model, 17 - 128);
    assert_eq!(state.top, SwitchState::Off);
    assert_eq!(state.bottom, SwitchState::On);
    assert!(parse_live_floor_state(&packet[..12]).is_none());
    assert!(parse_live_floor_state(&parse_hex("5f0301010a141eff64781100f0").unwrap()).is_none());
    let mut longer = packet.clone();
    longer.push(0xAB);
    assert_eq!(parse_live_floor_state(&longer), Some(state));
    assert_eq!(switch_state_from_packet(0xF0), SwitchState::On);
    assert_eq!(switch_state_from_packet(0xF1), SwitchState::Off);
}

#[test]
fn live_state_report_shows_colours_only_under_the_flag() {
    let packet = parse_hex("5f0201010a141eff64321100f0").unwrap();
    let lines = live_floor_state_report(&parse_live_floor_state(&packet).unwrap());
    assert_eq!(
        lines,
        vec![
            "  decoded_floor_state=available",
            "  top=off",
            "  bottom=on",
            "  mode=rgb_or_cw",
            "  protocol_rgb_flag=true",
            "  cw=255",
            "  cw_temperature=warm",
            "  rgb=#0a141e",
            "  red=10",
            "  green=20",
            "  blue=30",
            "  brightness=100",
            "  dynamic=true",
            "  speed=50",
            "  model=-111",
            "  trust=live_ble_notification",
        ]
    );
    let plain = parse_hex("5f0202000a141e0064321100f0").unwrap();
    let lines = live_floor_state_report(&parse_live_floor_state(&plain).unwrap());
    assert_eq!(lines[3], "  mode=cw");
    assert_eq!(lines[6], "  cw_temperature=cold");
    assert_eq!(lines[7], "  brightness=100");
    assert_eq!(lines.len(), 12);
}

#[test]
fn white_channel_labels() {
    assert_eq!(cw_temperature_label(0), "cold");
    assert_eq!(cw_temperature_label(1), "cold_to_neutral");
    assert_eq!(cw_temperature_label(127), "cold_to_neutral");
    assert_eq!(cw_temperature_label(128), "neutral_to_warm");
    assert_eq!(cw_temperature_label(254), "neutral_to_warm");
    assert_eq!(cw_temperature_label(255), "warm");
}

#[test]
fn commands_become_packets() {
    let config = config();
    let on = top_command(SwitchState::On);
    assert_eq!(
        commands_for(&Command::Warm, &config).unwrap(),
        vec![
            on.clone(),
            temp_command(100, 0, 100),
            bottom_command(SwitchState::Off)
        ]
    );
    assert_eq!(
        commands_for(&Command::Temp { warm: 1, cool: 2, brightness: 3 }, &config).unwrap(),
        vec![on.clone(), temp_command(1, 2, 3)]
    );
    assert_eq!(
        commands_for(
            &Command::Rgb { value: "#010203".to_string(), brightness: 4 },
            &config
        )
        .unwrap(),
        vec![on.clone(), rgb_command(1, 2, 3, 4)]
    );
    assert!(commands_for(&Command::Rgb { value: "01".to_string(), brightness: 4 }, &config).is_err());
    assert_eq!(
        commands_for(&Command::Cw { value: 5, brightness: 6 }, &config).unwrap(),
        vec![on.clone(), cw_command(5, 6)]
    );
    assert_eq!(
        commands_for(&Command::Off, &config).unwrap(),
        vec![top_command(SwitchState::Off), bottom_command(SwitchState::Off)]
    );
    assert_eq!(
        commands_for(&Command::Top { state: SwitchState::On }, &config).unwrap(),
        vec![on]
    );
    assert_eq!(
        commands_for(&Command::Bottom { state: SwitchState::On }, &config).unwrap(),
        vec![bottom_command(SwitchState::On)]
    );
    assert!(commands_for(&Command::Disconnect, &config).unwrap().is_empty());
}

#[test]
fn success_messages() {
    let message = |command: Command| {
        let line = command_success_message(&command);
        assert!(!line.contains('\n'));
        line
    };
    assert_eq!(
        message(Command::Rgb { value: "ff8800".to_string(), brightness: 70 }),
        "ok rgb=#ff8800 brightness=70"
    );
    assert_eq!(
        message(Command::Rgb { value: "ff".to_string(), brightness: 170 }),
        "ok rgb=#000000 brightness=100"
    );
    assert_eq!(
        message(Command::Temp { warm: 150, cool: 2, brightness: 3 }),
        "ok temp warm=100 cool=2 brightness=3"
    );
    assert_eq!(message(Command::Warm), "ok warm");
    assert_eq!(message(Command::Off), "ok off");
    assert_eq!(message(Command::Top { state: SwitchState::On }), "ok top=on");
    assert_eq!(message(Command::Bottom { state: SwitchState::Off }), "ok bottom=off");
    assert_eq!(message(Command::Disconnect), "ok disconnected");
    assert_eq!(message(Command::State), "ok");
}

#[test]
fn uuids_are_normalised() {
    assert_eq!(normalize_uuid("AE01"), "0000ae01-0000-1000-8000-00805f9b34fb");
    let long = "0000ae01-0000-1000-8000-00805f9b34fb";
    assert_eq!(normalize_uuid(long), long);
    assert_eq!(normalize_uuid("AE0"), "ae0");
    assert_eq!(normalize_uuid("ÀÉ"), "0000àé-0000-1000-8000-00805f9b34fb");
}

#[test]
fn raw_packets() {
    assert_eq!(
        raw_write_with_retries("AE01", "5f 01 00 f5").unwrap(),
        RawPacket {
            uuid: "0000ae01-0000-1000-8000-00805f9b34fb".to_string(),
            bytes: vec![0x5F, 1, 0, 0xF5],
        }
    );
    assert_eq!(raw_write_with_retries("AE01", "5f0"), Err(LampError::OddHexLength));
}

#[test]
fn invocations_become_tasks() {
    assert_eq!(task_for(Some(&Command::Probe), Some(3)).unwrap(), Task::Probe);
    assert_eq!(task_for(Some(&Command::State), None).unwrap(), Task::State);
    assert_eq!(
        task_for(Some(&Command::Listen { seconds: 7 }), None).unwrap(),
        Task::Listen(7)
    );
    let raw = Command::RawWrite {
        uuid: "a".to_string(),
        hex: "b".to_string(),
        listen_seconds: 5,
    };
    assert_eq!(
        task_for(Some(&raw), None).unwrap(),
        Task::RawWrite { uuid: "a", hex: "b", listen_seconds: 5 }
    );
    assert_eq!(task_for(Some(&Command::Off), None).unwrap(), Task::Send(&Command::Off));
    assert_eq!(task_for(None, Some(50)).unwrap(), Task::Brightness(50));
    assert_eq!(
        task_for(None, None).unwrap_err().message(),
        "missing command; use --brightness <0-100> for brightness-only adjustment"
    );
}

#[test]
fn stored_state_is_written_line_by_line() {
    let state = CachedLampState {
        updated_unix: Some(12),
        command: Some("cw --value 100".to_string()),
        top: Some(SwitchState::On),
        cw: Some(100),
        ..CachedLampState::default()
    };
    assert_eq!(
        serialize_cached_lamp_state(&state),
        "UPDATED_UNIX=12\nCOMMAND=cw --value 100\nTOP=on\nCW=100\n"
    );
    assert_eq!(serialize_cached_lamp_state(&CachedLampState::default()), "\n");
    let mut lines = Vec::new();
    push_optional(&mut lines, "A", Some(7));
    push_optional(&mut lines, "B", None);
    push_optional_ref(&mut lines, "C", Some("x"));
    push_optional_ref(&mut lines, "D", None);
    assert_eq!(lines, vec!["A=7", "C=x"]);
}

#[test]
fn stored_state_is_read_leniently() {
    let state = parse_cached_lamp_state(
        "# comment\r\n\n  TOP = ON \r\nTOP\nBOTTOM=maybe\nMODE=\nCOMMAND = a=b \nCW=256\nRED=+7\nGREEN=-1\nUPDATED_UNIX=18446744073709551615\nOTHER=1\nCW=9\n",
    );
    assert_eq!(
        state,
        CachedLampState {
            updated_unix: Some(u64::MAX),
            command: Some("a=b".to_string()),
            top: Some(SwitchState::On),
            cw: Some(9),
            red: Some(7),
            ..CachedLampState::default()
        }
    );
    assert!(read_cached_lamp_state(None).is_empty());
    assert!(read_cached_lamp_state(Some("X=1")).is_empty());
    assert!(!read_cached_lamp_state(Some("TOP=off")).is_empty());
    assert_eq!(non_empty(""), None);
    assert_eq!(non_empty("a"), Some("a".to_string()));
    assert_eq!(parse_cached_byte("255"), Some(255));
    assert_eq!(parse_cached_byte("256"), None);
    assert_eq!(parse_cached_byte(""), None);
    assert_eq!(parse_cached_percent("255"), Some(100));
    assert_eq!(parse_switch_state("Off"), Some(SwitchState::Off));
    assert_eq!(parse_switch_state("oFF"), None);
}

#[test]
fn commands_change_the_stored_state() {
    let config = config();
    let stored = "TOP=off\nBOTTOM=on\nMODE=rgb\nRED=1\nGREEN=2\nBLUE=3\nBRIGHTNESS=9\n";
    let after = |command: Command| {
        cached_state_for_command(&command, &config, Some(stored), Some(77)).unwrap()
    };
    let base = || CachedLampState {
        updated_unix: Some(77),
        bottom: Some(SwitchState::On),
        ..CachedLampState::default()
    };
    assert_eq!(
        after(Command::Warm),
        CachedLampState {
            command: Some("warm".to_string()),
            top: Some(SwitchState::On),
            bottom: Some(SwitchState::Off),
            mode: Some("temp".to_string()),
            warm: Some(100),
            cool: Some(0),
            brightness: Some(100),
            ..base()
        }
    );
    assert_eq!(
        after(Command::Temp { warm: 200, cool: 3, brightness: 4 }),
        CachedLampState {
            command: Some("temp".to_string()),
            top: Some(SwitchState::On),
            mode: Some("temp".to_string()),
            warm: Some(100),
            cool: Some(3),
            brightness: Some(4),
            ..base()
        }
    );
    assert_eq!(
        after(Command::Rgb { value: "0a0b0c".to_string(), brightness: 200 }),
        CachedLampState {
            command: Some("rgb --value #0a0b0c".to_string()),
            top: Some(SwitchState::On),
            mode: Some("rgb".to_string()),
            red: Some(10),
            green: Some(11),
            blue: Some(12),
            brightness: Some(100),
            ..base()
        }
    );
    assert_eq!(
        after(Command::Cw { value: 200, brightness: 5 }),
        CachedLampState {
            command: Some("cw --value 200".to_string()),
            top: Some(SwitchState::On),
            mode: Some("cw".to_string()),
            cw: Some(200),
            brightness: Some(5),
            ..base()
        }
    );
    assert_eq!(
        after(Command::Off),
        CachedLampState {
            command: Some("off".to_string()),
            top: Some(SwitchState::Off),
            bottom: Some(SwitchState::Off),
            mode: Some("off".to_string()),
            brightness: Some(0),
            ..base()
        }
    );
    let kept = CachedLampState {
        mode: Some("rgb".to_string()),
        red: Some(1),
        green: Some(2),
        blue: Some(3),
        brightness: Some(9),
        ..base()
    };
    assert_eq!(
        after(Command::Bottom { state: SwitchState::Off }),
        CachedLampState {
            command: Some("bottom off".to_string()),
            top: Some(SwitchState::Off),
            bottom: Some(SwitchState::Off),
            ..kept
        }
    );
    let top = after(Command::Top { state: SwitchState::On });
    assert_eq!(top.command, Some("top on".to_string()));
    assert_eq!(top.top, Some(SwitchState::On));
    assert_eq!(top.red, Some(1));
    assert_eq!(
        cached_state_for_command(&Command::Disconnect, &config, Some(stored), Some(77)),
        None
    );
    assert_eq!(
        cached_state_for_command(
            &Command::Rgb { value: "0a".to_string(), brightness: 1 },
            &config,
            Some(stored),
            None
        ),
        None
    );
}

#[test]
fn a_commanded_state_is_read_back_from_its_text() {
    let command = Command::Cw { value: 100, brightness: 60 };
    let state = cached_state_for_command(&command, &config(), None, Some(5)).unwrap();
    assert_eq!(parse_cached_lamp_state(&serialize_cached_lamp_state(&state)), state);
    let (_, dimmed) = brightness_only_commands(&state, 30, Some(6)).unwrap();
    assert_eq!(parse_cached_lamp_state(&serialize_cached_lamp_state(&dimmed)), dimmed);
    let (packets, brighter) = brightness_only_commands(&dimmed, 90, Some(7)).unwrap();
    assert_eq!(packets[1], cw_command(100, 90));
    assert_eq!(brighter.cw, Some(100));
}

#[test]
fn brightness_needs_a_mode_and_its_values() {
    let change = |stored: &str| brightness_with_retries(Some(stored), 140, Some(9));
    let job = change("MODE=temp\nWARM=80\nCOOL=20\nBOTTOM=on\n").unwrap();
    assert_eq!(
        job.commands,
        vec![top_command(SwitchState::On), temp_command(80, 20, 100)]
    );
    assert_eq!(
        job.state,
        Some(CachedLampState {
            updated_unix: Some(9),
            command: Some("brightness 100".to_string()),
            top: Some(SwitchState::On),
            bottom: Some(SwitchState::On),
            mode: Some("temp".to_string()),
            warm: Some(80),
            cool: Some(20),
            brightness: Some(100),
            ..CachedLampState::default()
        })
    );
    assert_eq!(job.message, "ok brightness=100");
    let missing = |stored: &str| change(stored).unwrap_err();
    assert_eq!(
        missing("MODE=cw"),
        LampError::CachedValueMissing { field: CachedField::Cw }
    );
    assert_eq!(missing("MODE=cw").message(), "cached cw mode is missing CW value");
    assert_eq!(missing("MODE=rgb").message(), "cached rgb mode is missing RED value");
    assert_eq!(missing("MODE=rgb\nRED=1").message(), "cached rgb mode is missing GREEN value");
    assert_eq!(
        missing("MODE=rgb\nRED=1\nGREEN=1").message(),
        "cached rgb mode is missing BLUE value"
    );
    assert_eq!(missing("MODE=temp").message(), "cached temp mode is missing WARM value");
    assert_eq!(missing("MODE=temp\nWARM=1").message(), "cached temp mode is missing COOL value");
    assert_eq!(missing("MODE=off"), LampError::NoCachedMode);
    assert_eq!(brightness_with_retries(None, 1, None), Err(LampError::NoCachedMode));
}

#[test]
fn sending_stores_a_state_and_says_so() {
    let config = config();
    let command = Command::Cw { value: 1, brightness: 2 };
    let packets = commands_for(&command, &config).unwrap();
    let job = send_with_retries(&config, &command, packets, None, Some(3));
    assert_eq!(job.commands, vec![top_command(SwitchState::On), cw_command(1, 2)]);
    assert_eq!(job.state.unwrap().command, Some("cw --value 1".to_string()));
    assert_eq!(job.message, "ok cw=1 brightness=2");
    let job = send_with_retries(&config, &Command::Disconnect, Vec::new(), None, Some(3));
    assert_eq!(job.state, None);
}

#[test]
fn stored_state_report() {
    let state = parse_cached_lamp_state(
        "UPDATED_UNIX=5\nCOMMAND=c\nTOP=on\nBOTTOM=off\nMODE=m\nWARM=1\nCOOL=2\nCW=128\nBRIGHTNESS=3\nRED=4\nGREEN=5\nBLUE=6\n",
    );
    let (lines, known) = cached_lamp_state_report(&state, "/p");
    assert!(known);
    assert_eq!(
        lines,
        vec![
            "cached_state source=last_successful_command path=/p",
            "  updated_unix=5",
            "  command=c",
            "  top=on",
            "  bottom=off",
            "  mode=m",
            "  warm=1",
            "  cool=2",
            "  cw=128",
            "  cw_temperature=neutral_to_warm",
            "  brightness=3",
            "  red=4",
            "  green=5",
            "  blue=6",
            "  trust=cached_not_live",
        ]
    );
    let (lines, known) = cached_lamp_state_report(&CachedLampState::default(), "/p");
    assert!(!known);
    assert_eq!(lines, vec!["cached_state unavailable"]);
}

#[test]
fn every_failure_has_its_sentence() {
    let message = |error: LampError| error.message();
    assert_eq!(message(LampError::HomeNotSet), "HOME is not set");
    let number = LampError::BadNumber {
        key: "K".to_string(),
        cause: NumberError::TooLarge,
    };
    assert_eq!(number.cause(), Some("number too large to fit in target type"));
    assert_eq!(message(number), "parse K");
    assert_eq!(
        message(LampError::OddHexLength),
        "hex string must contain an even number of digits"
    );
    assert_eq!(message(LampError::NoAttempts), "no attempts ran");
    assert_eq!(message(LampError::LampNotFound), "lamp not found during BLE scan");
    assert_eq!(message(LampError::NoAdapter), "no BlueZ adapter found");
    assert_eq!(
        message(LampError::NoWritableCharacteristic),
        "no writable GATT characteristic found"
    );
    assert_eq!(
        message(LampError::CharacteristicNotFound { uuid: "u".to_string() }),
        "GATT characteristic not found for UUID u"
    );
    assert_eq!(
        message(LampError::NoNotifyCharacteristics),
        "no notify or indicate GATT characteristics found"
    );
    assert_eq!(message(LampError::DeviceObjectMissing), "device object missing from BlueZ");
    assert_eq!(
        message(LampError::DeviceInterfaceMissing),
        "Device1 interface missing from BlueZ object"
    );
    assert_eq!(
        message(LampError::ConnectFailed { reason: "no".to_string() }),
        "connect failed: no"
    );
    assert_eq!(
        message(LampError::ServicesNotResolved),
        "connected lamp did not expose GATT services"
    );
    assert_eq!(
        message(LampError::NoCachedMode),
        "brightness-only adjustment needs cached rgb, cw, or temp state; run rgb/cw/temp once first"
    );
    assert_eq!(LampError::NoAdapter.cause(), None);
}
