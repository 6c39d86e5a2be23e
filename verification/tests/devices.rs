use keepsmile_lamp::bluez::{
    adapter_path, cached_device_path, device_matches, device_state_report, dump_gatt,
    find_characteristic, find_characteristic_by_uuid, find_lamp, has_gatt_objects, has_read_flag,
    has_write_flag, is_usable_device_path, listen_endpoints, notify_characteristics, prop_bool,
    prop_bytes, prop_display, prop_string, prop_string_vec, read_all_readable_characteristics,
    CharacteristicTarget, Interface, ManagedObject, PropItem, PropValue, Property, ReportStep,
};
use keepsmile_lamp::config::Config;
use keepsmile_lamp::error::LampError;
use keepsmile_lamp::search::stored_path_text;

fn config() -> Config {
    Config::load(Some("ADDRESS=aa:bb\n"), Some("/h")).unwrap()
}

fn nothing() -> PropValue {
    PropValue { text: None, int: None, uint: None, items: None }
}

fn text(name: &str, value: &str) -> Property {
    Property {
        name: name.to_string(),
        value: PropValue { text: Some(value.to_string()), ..nothing() },
    }
}

fn signed(name: &str, value: i64) -> Property {
    Property {
        name: name.to_string(),
        value: PropValue { int: Some(value), ..nothing() },
    }
}

fn unsigned(name: &str, value: u64) -> Property {
    Property {
        name: name.to_string(),
        value: PropValue { uint: Some(value), ..nothing() },
    }
}

fn list(name: &str, items: Vec<PropItem>) -> Property {
    Property {
        name: name.to_string(),
        value: PropValue { items: Some(items), ..nothing() },
    }
}

fn text_item(value: &str) -> PropItem {
    PropItem { text: Some(value.to_string()), int: None, uint: None }
}

fn texts(name: &str, values: &[&str]) -> Property {
    list(name, values.iter().map(|value| text_item(value)).collect())
}

fn object(path: &str, interface: &str, props: Vec<Property>) -> ManagedObject {
    ManagedObject {
        path: path.to_string(),
        interfaces: vec![Interface { name: interface.to_string(), props }],
    }
}

const DEVICE: &str = "org.bluez.Device1";
const CHARACTERISTIC: &str = "org.bluez.GattCharacteristic1";

fn characteristic(path: &str, uuid: &str, flags: &[&str]) -> ManagedObject {
    object(path, CHARACTERISTIC, vec![text("UUID", uuid), texts("Flags", flags)])
}

fn lamp_objects() -> Vec<ManagedObject> {
    vec![
        characteristic("/d/s/c3", "0000ae03-0000-1000-8000-00805f9b34fb", &["write", "read"]),
        object("/d", DEVICE, vec![text("Name", "ks-lamp")]),
        characteristic("/d/s/c2", "0000ae02-0000-1000-8000-00805f9b34fb", &["notify"]),
        characteristic("/d/s/c0", "AE04", &["indicate", "read"]),
        characteristic("/d2/s/c9", "0000ae01-0000-1000-8000-00805f9b34fb", &["write", "notify"]),
        object("/d/s", "org.bluez.GattService1", vec![text("UUID", "fff0"), signed("Primary", 1)]),
        object("/d/s/c2/desc", "org.bluez.GattDescriptor1", vec![]),
        object("/hci0", "org.bluez.Adapter1", vec![]),
    ]
}

#[test]
fn properties_are_read_by_kind() {
    let props = vec![
        text("A", "x"),
        signed("B", -3),
        unsigned("C", u64::MAX),
        signed("Z", 0),
        list(
            "L",
            vec![
                text_item("p"),
                PropItem { text: None, int: Some(-1), uint: None },
                text_item("q"),
            ],
        ),
        list(
            "N",
            vec![
                PropItem { text: None, int: Some(-2), uint: None },
                PropItem { text: None, int: Some(5), uint: Some(0x1_07) },
                PropItem { text: None, int: Some(-256), uint: None },
            ],
        ),
        list("E", vec![]),
        text("A", "second"),
    ];
    assert_eq!(prop_string(&props, "A"), Some("x"));
    assert_eq!(prop_string(&props, "B"), None);
    assert_eq!(prop_bool(&props, "B"), Some(true));
    assert_eq!(prop_bool(&props, "Z"), Some(false));
    assert_eq!(prop_bool(&props, "A"), None);
    assert_eq!(prop_display(&props, "A"), Some("x".to_string()));
    assert_eq!(prop_display(&props, "B"), Some("-3".to_string()));
    assert_eq!(prop_display(&props, "C"), Some("18446744073709551615".to_string()));
    assert_eq!(prop_display(&props, "L"), None);
    assert_eq!(prop_display(&props, "missing"), None);
    assert_eq!(prop_string_vec(&props, "L"), Some(vec!["p".to_string(), "q".to_string()]));
    assert_eq!(prop_string_vec(&props, "A"), None);
    assert_eq!(prop_bytes(&props, "N"), Some(vec![0xFE, 0x07, 0x00]));
    assert_eq!(prop_bytes(&props, "L"), None);
    assert_eq!(prop_bytes(&props, "E"), Some(vec![]));
    assert_eq!(prop_bytes(&props, "C"), None);
}

#[test]
fn the_lamp_is_known_by_address_name_or_service() {
    let config = config();
    assert!(device_matches(&[text("Address", "Aa:bB")], &config));
    assert!(!device_matches(&[text("Address", "Aa:bC")], &config));
    assert!(device_matches(&[text("Name", "ksLamp")], &config));
    assert!(device_matches(&[text("Alias", "KS05")], &config));
    assert!(!device_matches(&[text("Name", "other"), text("Alias", "KS05")], &config));
    assert!(device_matches(
        &[texts("UUIDs", &["x", "0000FFF0-0000-1000-8000-00805F9B34FB"])],
        &config
    ));
    assert!(!device_matches(&[texts("UUIDs", &["x"])], &config));
    let without = Config::load(None, Some("/h")).unwrap();
    assert!(!device_matches(&[text("Address", "")], &without));
    let accents = Config::load(Some("NAME_PREFIX=é\n"), Some("/h")).unwrap();
    assert!(device_matches(&[text("Name", "Étoile")], &accents));
}

#[test]
fn adapters_and_lamps_are_found() {
    let objects = lamp_objects();
    assert_eq!(adapter_path(&objects).unwrap(), "/hci0");
    assert_eq!(adapter_path(&objects[..3]), Err(LampError::NoAdapter));
    assert_eq!(find_lamp(&objects, &config()), Some("/d".to_string()));
    assert_eq!(find_lamp(&objects[2..], &config()), None);
}

#[test]
fn stored_paths_are_checked() {
    let config = config();
    let objects = lamp_objects();
    for usable in ["", "  \n", "/", "/d", " /org/bluez/hci0/dev_AA_BB\n", "/d\0!"] {
        assert!(is_usable_device_path(usable));
    }
    for unusable in ["d", "/d/", "//d", "/d e", "/dé", "\0", "/-"] {
        assert!(!is_usable_device_path(unusable));
    }
    assert_eq!(cached_device_path("/d\n", &objects, &config), Some("/d".to_string()));
    let stored = stored_path_text(&find_lamp(&objects, &config).unwrap());
    assert_eq!(cached_device_path(&stored, &objects, &config), Some("/d".to_string()));
    assert_eq!(cached_device_path("", &objects, &config), None);
    assert_eq!(cached_device_path("/gone", &objects, &config), None);
    assert_eq!(cached_device_path("/hci0", &objects, &config), None);
    let other = Config::load(Some("NAME_PREFIX=XX\n"), Some("/h")).unwrap();
    assert_eq!(cached_device_path("/d\n", &objects, &other), None);
}

#[test]
fn flags_say_what_can_be_done() {
    let can = |flag: &str| vec![texts("Flags", &["x", flag])];
    assert!(has_write_flag(&can("write")));
    assert!(has_write_flag(&can("write-without-response")));
    assert!(!has_write_flag(&can("Write")));
    assert!(has_read_flag(&can("read")));
    assert!(!has_read_flag(&can("write")));
    assert!(!has_read_flag(&[]));
}

#[test]
fn packets_go_to_the_configured_characteristic_or_the_first() {
    let mut objects = lamp_objects();
    assert_eq!(
        find_characteristic(&objects, "/d", &config()).unwrap(),
        CharacteristicTarget { path: "/d/s/c3".to_string(), can_read: true }
    );
    objects.push(characteristic(
        "/d/s/c8",
        "0000AE01-0000-1000-8000-00805f9b34fb",
        &["write-without-response"],
    ));
    assert_eq!(
        find_characteristic(&objects, "/d", &config()).unwrap(),
        CharacteristicTarget { path: "/d/s/c8".to_string(), can_read: false }
    );
    assert_eq!(
        find_characteristic(&objects, "/none", &config()),
        Err(LampError::NoWritableCharacteristic)
    );
}

#[test]
fn characteristics_are_found_by_uuid() {
    let objects = lamp_objects();
    let wanted = "0000ae04-0000-1000-8000-00805f9b34fb";
    assert_eq!(find_characteristic_by_uuid(&objects, "/d", wanted).unwrap(), "/d/s/c0");
    assert_eq!(
        find_characteristic_by_uuid(&objects, "/d", "ae04"),
        Err(LampError::CharacteristicNotFound { uuid: "ae04".to_string() })
    );
    assert!(has_gatt_objects(&objects, "/d"));
    assert!(!has_gatt_objects(&objects, "/d/s/c2"));
}

#[test]
fn notifying_characteristics_are_sorted() {
    let mut objects = lamp_objects();
    assert_eq!(notify_characteristics(&objects, "/d"), vec!["/d/s/c0", "/d/s/c2"]);
    objects.reverse();
    assert_eq!(listen_endpoints(&objects, "/d").unwrap(), vec!["/d/s/c0", "/d/s/c2"]);
    assert_eq!(
        listen_endpoints(&objects, "/hci0"),
        Err(LampError::NoNotifyCharacteristics)
    );
}

fn line(s: &str) -> ReportStep {
    ReportStep::Line(s.to_string())
}

#[test]
fn endpoints_are_listed_in_order() {
    let mut objects = lamp_objects();
    let expected = vec![
        line("service /d/s uuid=fff0 primary=true"),
        line("char /d/s/c0 uuid=AE04 flags=indicate,read"),
        ReportStep::Read("/d/s/c0".to_string()),
        line("char /d/s/c2 uuid=0000ae02-0000-1000-8000-00805f9b34fb flags=notify"),
        line("desc /d/s/c2/desc uuid=unknown flags="),
        line("char /d/s/c3 uuid=0000ae03-0000-1000-8000-00805f9b34fb flags=write,read"),
        ReportStep::Read("/d/s/c3".to_string()),
    ];
    assert_eq!(dump_gatt(&objects, "/d"), expected);
    objects.reverse();
    assert_eq!(dump_gatt(&objects, "/d"), expected);
    assert_eq!(
        dump_gatt(&[object("/d/s", "org.bluez.GattService1", vec![])], "/d"),
        vec![line("service /d/s uuid=unknown primary=unknown")]
    );
}

#[test]
fn readable_characteristics_are_read_in_order() {
    let objects = lamp_objects();
    assert_eq!(
        read_all_readable_characteristics(&objects, "/d"),
        vec![
            ReportStep::Begin("read /d/s/c0 uuid=AE04 ".to_string()),
            ReportStep::Read("/d/s/c0".to_string()),
            ReportStep::Begin(
                "read /d/s/c3 uuid=0000ae03-0000-1000-8000-00805f9b34fb ".to_string()
            ),
            ReportStep::Read("/d/s/c3".to_string()),
        ]
    );
    assert_eq!(
        read_all_readable_characteristics(&objects, "/d2"),
        vec![line("  readable_gatt_values=none")]
    );
}

#[test]
fn the_device_is_reported() {
    let byte = |n: u64| PropItem { text: None, int: Some(n as i64), uint: Some(n) };
    let objects = vec![object(
        "/d",
        DEVICE,
        vec![
            signed("RSSI", -60),
            text("Alias", "lamp"),
            text("Address", "AA"),
            signed("Connected", 1),
            texts("UUIDs", &["u", "v"]),
            list("AdvertisingFlags", vec![byte(6), byte(255)]),
        ],
    )];
    assert_eq!(
        device_state_report(&objects, "/d").unwrap(),
        vec![
            "device /d",
            "  Address=AA",
            "  Alias=lamp",
            "  Connected=1",
            "  RSSI=-60",
            "  UUIDs=u,v",
            "  AdvertisingFlags=06ff",
        ]
    );
    assert_eq!(device_state_report(&objects, "/e"), Err(LampError::DeviceObjectMissing));
    let objects = lamp_objects();
    assert_eq!(
        device_state_report(&objects, "/hci0"),
        Err(LampError::DeviceInterfaceMissing)
    );
}
