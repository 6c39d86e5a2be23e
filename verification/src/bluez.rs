//! The objects that BlueZ manages, as plain values: their properties, which
//! device is the lamp, and which GATT characteristics it has.

use crate::command;
use crate::command::normalize_uuid;
use crate::config;
use crate::config::Config;
use crate::error;
use crate::error::{concat2, LampError};
use crate::hex;
use crate::number;
use crate::number::{decimal_text, signed_text};
use crate::packet;
use crate::packet::bool_str;
use crate::text;
use crate::text::{
    eq_ignore_ascii_case, find_char, join, same_text, starts_with, text_at_most, to_uppercase, trim_text,
};
use vstd::prelude::*;

verus! {

/// One element of a list property, in each form in which it can be read.
#[derive(Debug, PartialEq, Eq)]
pub struct PropItem {
    pub text: Option<String>,
    pub int: Option<i64>,
    pub uint: Option<u64>,
}

/// The value of a property, in each form in which it can be read.
#[derive(Debug, PartialEq, Eq)]
pub struct PropValue {
    pub text: Option<String>,
    pub int: Option<i64>,
    pub uint: Option<u64>,
    pub items: Option<Vec<PropItem>>,
}

/// A named property.
#[derive(Debug, PartialEq, Eq)]
pub struct Property {
    pub name: String,
    pub value: PropValue,
}

/// An interface of an object, with its properties.
#[derive(Debug, PartialEq, Eq)]
pub struct Interface {
    pub name: String,
    pub props: Vec<Property>,
}

/// An object that BlueZ manages.
#[derive(Debug, PartialEq, Eq)]
pub struct ManagedObject {
    pub path: String,
    pub interfaces: Vec<Interface>,
}

/// A characteristic that packets can be written to.
#[derive(Debug, PartialEq, Eq)]
pub struct CharacteristicTarget {
    pub path: String,
    pub can_read: bool,
}

// ----------------------------------------------------------------- properties

/// The first property of that name.
pub open spec fn prop(props: Seq<Property>, key: Seq<char>) -> Option<PropValue>
    decreases props.len(),
{
    if props.len() == 0 {
        None
    } else if props[0].name@ == key {
        Some(props[0].value)
    } else {
        prop(props.drop_first(), key)
    }
}

fn find_prop<'a>(props: &'a [Property], key: &str) -> (r: Option<&'a PropValue>)
    ensures
        match (r, prop(props@, key@)) {
            (Some(value), Some(expected)) => *value == expected,
            (None, None) => true,
            _ => false,
        },
{
    let mut i: usize = 0;
    assert(props@.skip(0) =~= props@);
    while i < props.len()
        invariant
            i <= props.len(),
            prop(props@, key@) == prop(props@.skip(i as int), key@),
        decreases props.len() - i,
    {
        assert(props@.skip(i as int)[0] == props@[i as int]);
        if same_text(props[i].name.as_str(), key) {
            return Some(&props[i].value);
        }
        assert(props@.skip(i as int).drop_first() =~= props@.skip(i as int + 1));
        i += 1;
    }
    None
}

/// A property read as text.
pub open spec fn prop_text(props: Seq<Property>, key: Seq<char>) -> Option<Seq<char>> {
    match prop(props, key) {
        Some(value) => text::opt_text(value.text),
        None => None,
    }
}

/// A property read as a truth value: a number other than zero.
pub open spec fn prop_flag(props: Seq<Property>, key: Seq<char>) -> Option<bool> {
    match prop(props, key) {
        Some(value) => match value.int {
            Some(n) => Some(n != 0),
            None => None,
        },
        None => None,
    }
}

/// A property as it is displayed: a text, else a signed number, else an
/// unsigned one.
pub open spec fn prop_shown(props: Seq<Property>, key: Seq<char>) -> Option<Seq<char>> {
    match prop(props, key) {
        Some(value) => match (value.text, value.int, value.uint) {
            (Some(s), _, _) => Some(s@),
            (None, Some(n), _) => Some(number::signed_decimal(n as int)),
            (None, None, Some(n)) => Some(number::decimal(n as nat)),
            _ => None,
        },
        None => None,
    }
}

/// The elements that can be read as text.
pub open spec fn item_texts(items: Seq<PropItem>) -> Seq<Seq<char>>
    decreases items.len(),
{
    if items.len() == 0 {
        Seq::empty()
    } else {
        let before = item_texts(items.drop_last());
        match items.last().text {
            Some(s) => before.push(s@),
            None => before,
        }
    }
}

/// A list property read as texts.
pub open spec fn prop_texts(props: Seq<Property>, key: Seq<char>) -> Option<Seq<Seq<char>>> {
    match prop(props, key) {
        Some(value) => match value.items {
            Some(items) => Some(item_texts(items@)),
            None => None,
        },
        None => None,
    }
}

/// A list property read as texts; there are none if it is missing.
pub open spec fn prop_texts_or_none(props: Seq<Property>, key: Seq<char>) -> Seq<Seq<char>> {
    match prop_texts(props, key) {
        Some(texts) => texts,
        None => Seq::empty(),
    }
}

/// The low byte of an element's number.
pub open spec fn item_byte(item: PropItem) -> Option<u8> {
    match (item.uint, item.int) {
        (Some(n), _) => Some((n % 256) as u8),
        (None, Some(n)) => Some((n as int % 256) as u8),
        (None, None) => None,
    }
}

/// The low bytes of the elements, if all of them are numbers.
pub open spec fn item_bytes(items: Seq<PropItem>) -> Option<Seq<u8>>
    decreases items.len(),
{
    if items.len() == 0 {
        Some(Seq::empty())
    } else {
        match (item_bytes(items.drop_last()), item_byte(items.last())) {
            (Some(before), Some(b)) => Some(before.push(b)),
            _ => None,
        }
    }
}

/// A list property read as bytes.
pub open spec fn prop_byte_list(props: Seq<Property>, key: Seq<char>) -> Option<Seq<u8>> {
    match prop(props, key) {
        Some(value) => match value.items {
            Some(items) => item_bytes(items@),
            None => None,
        },
        None => None,
    }
}

/// A property read as text.
pub fn prop_string<'a>(props: &'a [Property], key: &str) -> (r: Option<&'a str>)
    ensures
        text::opt_str(r) == prop_text(props@, key@),
{
    match find_prop(props, key) {
        Some(value) => match &value.text {
            Some(s) => Some(s.as_str()),
            None => None,
        },
        None => None,
    }
}

/// A property read as a truth value.
pub fn prop_bool(props: &[Property], key: &str) -> (r: Option<bool>)
    ensures
        r == prop_flag(props@, key@),
{
    match find_prop(props, key) {
        Some(value) => match value.int {
            Some(n) => Some(n != 0),
            None => None,
        },
        None => None,
    }
}

/// A property as it is displayed.
pub fn prop_display(props: &[Property], key: &str) -> (r: Option<String>)
    ensures
        text::opt_text(r) == prop_shown(props@, key@),
{
    let value = match find_prop(props, key) {
        Some(value) => value,
        None => return None,
    };
    match &value.text {
        Some(s) => return Some(s.as_str().to_owned()),
        None => {},
    }
    match value.int {
        Some(n) => return Some(signed_text(n)),
        None => {},
    }
    match value.uint {
        Some(n) => Some(decimal_text(n)),
        None => None,
    }
}

/// A list property read as texts. Elements that are no texts are left out.
pub fn prop_string_vec(props: &[Property], key: &str) -> (r: Option<Vec<String>>)
    ensures
        match (r, prop_texts(props@, key@)) {
            (Some(strings), Some(expected)) => text::texts(strings@) == expected,
            (None, None) => true,
            _ => false,
        },
{
    let items = match find_prop(props, key) {
        Some(value) => match &value.items {
            Some(items) => items,
            None => return None,
        },
        None => return None,
    };
    let mut out: Vec<String> = Vec::new();
    let mut i: usize = 0;
    assert(items@.take(0).len() == 0);
    assert(text::texts(out@) =~= Seq::empty());
    while i < items.len()
        invariant
            i <= items.len(),
            text::texts(out@) == item_texts(items@.take(i as int)),
        decreases items.len() - i,
    {
        let ghost now = items@.take(i as int + 1);
        assert(now.drop_last() =~= items@.take(i as int));
        let ghost before = text::texts(out@);
        match &items[i].text {
            Some(s) => {
                out.push(s.as_str().to_owned());
                assert(text::texts(out@) =~= before.push(s@));
            },
            None => {},
        }
        i += 1;
    }
    assert(items@.take(i as int) =~= items@);
    Some(out)
}

fn strings_or_none(props: &[Property], key: &str) -> (r: Vec<String>)
    ensures
        text::texts(r@) == prop_texts_or_none(props@, key@),
{
    match prop_string_vec(props, key) {
        Some(strings) => strings,
        None => {
            let none: Vec<String> = Vec::new();
            assert(text::texts(none@) =~= Seq::empty());
            none
        },
    }
}

fn low_byte(n: i64) -> (r: u8)
    ensures
        r == n as int % 256,
{
    if n >= 0 {
        (n as u64 % 256) as u8
    } else {
        let m = ((-(n as i128)) as u64 % 256) as u8;
        if m == 0 {
            0
        } else {
            255 - m + 1
        }
    }
}

/// A list property read as bytes.
pub fn prop_bytes(props: &[Property], key: &str) -> (r: Option<Vec<u8>>)
    ensures
        match (r, prop_byte_list(props@, key@)) {
            (Some(bytes), Some(expected)) => bytes@ == expected,
            (None, None) => true,
            _ => false,
        },
{
    let items = match find_prop(props, key) {
        Some(value) => match &value.items {
            Some(items) => items,
            None => return None,
        },
        None => return None,
    };
    let mut out: Vec<u8> = Vec::new();
    let mut i: usize = 0;
    assert(items@.take(0).len() == 0);
    assert(out@ =~= Seq::empty());
    while i < items.len()
        invariant
            i <= items.len(),
            prop_byte_list(props@, key@) == item_bytes(items@),
            item_bytes(items@.take(i as int)) == Some(out@),
        decreases items.len() - i,
    {
        let ghost now = items@.take(i as int + 1);
        assert(now.drop_last() =~= items@.take(i as int));
        assert(now.last() == items@[i as int]);
        let byte = match items[i].uint {
            Some(n) => (n % 256) as u8,
            None => match items[i].int {
                Some(n) => low_byte(n),
                None => {
                    proof {
                        lemma_item_bytes_stop(items@, i as int + 1);
                    }
                    return None;
                },
            },
        };
        out.push(byte);
        i += 1;
    }
    assert(items@.take(i as int) =~= items@);
    Some(out)
}

proof fn lemma_item_bytes_stop(items: Seq<PropItem>, n: int)
    requires
        0 <= n <= items.len(),
        item_bytes(items.take(n)) is None,
    ensures
        item_bytes(items) is None,
    decreases items.len(),
{
    if n == items.len() {
        assert(items.take(n) =~= items);
    } else {
        assert(items.drop_last().take(n) =~= items.take(n));
        lemma_item_bytes_stop(items.drop_last(), n);
    }
}

// --------------------------------------------------------------------- objects

/// The properties of the first interface of that name.
pub open spec fn interface(interfaces: Seq<Interface>, name: Seq<char>) -> Option<Seq<Property>>
    decreases interfaces.len(),
{
    if interfaces.len() == 0 {
        None
    } else if interfaces[0].name@ == name {
        Some(interfaces[0].props@)
    } else {
        interface(interfaces.drop_first(), name)
    }
}

/// The properties of an object under an interface.
pub open spec fn object_interface(object: ManagedObject, name: Seq<char>) -> Option<
    Seq<Property>,
> {
    interface(object.interfaces@, name)
}

fn find_interface<'a>(object: &'a ManagedObject, name: &str) -> (r: Option<&'a [Property]>)
    ensures
        match (r, object_interface(*object, name@)) {
            (Some(props), Some(expected)) => props@ == expected,
            (None, None) => true,
            _ => false,
        },
{
    let mut i: usize = 0;
    let ghost all = object.interfaces@;
    assert(all.skip(0) =~= all);
    while i < object.interfaces.len()
        invariant
            all == object.interfaces@,
            i <= all.len(),
            interface(all, name@) == interface(all.skip(i as int), name@),
        decreases all.len() - i,
    {
        assert(all.skip(i as int)[0] == all[i as int]);
        if same_text(object.interfaces[i].name.as_str(), name) {
            return Some(object.interfaces[i].props.as_slice());
        }
        assert(all.skip(i as int).drop_first() =~= all.skip(i as int + 1));
        i += 1;
    }
    None
}

/// The first object that satisfies a condition.
pub open spec fn first_object(
    objects: Seq<ManagedObject>,
    condition: spec_fn(ManagedObject) -> bool,
) -> Option<ManagedObject>
    decreases objects.len(),
{
    if objects.len() == 0 {
        None
    } else if condition(objects[0]) {
        Some(objects[0])
    } else {
        first_object(objects.drop_first(), condition)
    }
}

proof fn lemma_first_object(
    objects: Seq<ManagedObject>,
    condition: spec_fn(ManagedObject) -> bool,
    n: int,
)
    requires
        0 <= n <= objects.len(),
        forall|i: int| 0 <= i < n ==> !condition(#[trigger] objects[i]),
        n < objects.len() ==> condition(objects[n]),
    ensures
        first_object(objects, condition) == (if n < objects.len() {
            Some(objects[n])
        } else {
            None
        }),
    decreases objects.len(),
{
    if n > 0 {
        let rest = objects.drop_first();
        assert(!condition(objects[0]));
        assert forall|i: int| 0 <= i < n - 1 implies !condition(#[trigger] rest[i]) by {
            assert(rest[i] == objects[i + 1]);
        }
        lemma_first_object(rest, condition, n - 1);
    }
}

/// The condition that an object has a path.
pub open spec fn has_path(path: Seq<char>) -> spec_fn(ManagedObject) -> bool {
    |object: ManagedObject| object.path@ == path
}

/// The object at a path.
pub open spec fn object_at(objects: Seq<ManagedObject>, path: Seq<char>) -> Option<ManagedObject> {
    first_object(objects, has_path(path))
}

/// The first object that meets a condition is one of the objects and meets it.
pub proof fn lemma_first_object_index(
    objects: Seq<ManagedObject>,
    condition: spec_fn(ManagedObject) -> bool,
) -> (n: int)
    requires
        first_object(objects, condition) is Some,
    ensures
        0 <= n < objects.len(),
        condition(objects[n]),
        first_object(objects, condition) == Some(objects[n]),
    decreases objects.len(),
{
    if condition(objects[0]) {
        0
    } else {
        let rest = objects.drop_first();
        let n = lemma_first_object_index(rest, condition);
        assert(rest[n] == objects[n + 1]);
        n + 1
    }
}

/// The object at a path is one of the objects and has that path.
pub proof fn lemma_object_at_index(objects: Seq<ManagedObject>, path: Seq<char>) -> (n: int)
    requires
        object_at(objects, path) is Some,
    ensures
        0 <= n < objects.len(),
        objects[n].path@ == path,
        object_at(objects, path) == Some(objects[n]),
{
    lemma_first_object_index(objects, has_path(path))
}

/// The object at a path is the first that has it.
pub proof fn lemma_object_at(objects: Seq<ManagedObject>, path: Seq<char>, n: int)
    requires
        0 <= n < objects.len(),
        objects[n].path@ == path,
        forall|i: int| 0 <= i < n ==> (#[trigger] objects[i]).path@ != path,
    ensures
        object_at(objects, path) == Some(objects[n]),
{
    lemma_first_object(objects, has_path(path), n);
}

fn find_object<'a>(objects: &'a [ManagedObject], path: &str) -> (r: Option<&'a ManagedObject>)
    ensures
        match (r, object_at(objects@, path@)) {
            (Some(object), Some(expected)) => *object == expected,
            (None, None) => true,
            _ => false,
        },
{
    let ghost condition = has_path(path@);
    let mut i: usize = 0;
    while i < objects.len()
        invariant
            i <= objects.len(),
            condition == has_path(path@),
            forall|j: int| 0 <= j < i ==> !condition(#[trigger] objects@[j]),
        decreases objects.len() - i,
    {
        if same_text(objects[i].path.as_str(), path) {
            proof {
                lemma_first_object(objects@, condition, i as int);
            }
            return Some(&objects[i]);
        }
        i += 1;
    }
    proof {
        lemma_first_object(objects@, condition, i as int);
    }
    None
}

/// The path lies below the device.
pub open spec fn is_below(path: Seq<char>, device: Seq<char>) -> bool {
    (device + "/"@).is_prefix_of(path)
}

fn below(path: &str, device: &str) -> (r: bool)
    ensures
        r == is_below(path@, device@),
{
    starts_with(path, concat2(device, "/").as_str())
}

// ---------------------------------------------------------------- the adapter

/// The object is a Bluetooth adapter.
pub open spec fn is_adapter(object: ManagedObject) -> bool {
    object_interface(object, "org.bluez.Adapter1"@) is Some
}

/// The path of the first Bluetooth adapter.
pub fn adapter_path(objects: &[ManagedObject]) -> (r: Result<String, LampError>)
    ensures
        match (r, first_object(objects@, |object: ManagedObject| is_adapter(object))) {
            (Ok(path), Some(object)) => path@ == object.path@,
            (Err(e), None) => e@ == error::Failure::NoAdapter,
            _ => false,
        },
{
    let ghost condition = |object: ManagedObject| is_adapter(object);
    let mut i: usize = 0;
    while i < objects.len()
        invariant
            i <= objects.len(),
            condition == (|object: ManagedObject| is_adapter(object)),
            forall|j: int| 0 <= j < i ==> !condition(#[trigger] objects@[j]),
        decreases objects.len() - i,
    {
        if find_interface(&objects[i], "org.bluez.Adapter1").is_some() {
            proof {
                lemma_first_object(objects@, condition, i as int);
            }
            return Ok(objects[i].path.clone());
        }
        i += 1;
    }
    proof {
        lemma_first_object(objects@, condition, i as int);
    }
    Err(LampError::NoAdapter)
}

// ----------------------------------------------------------------- the device

/// The device's address is the configured one, in any case.
pub open spec fn address_matches(device: Seq<Property>, config: config::ConfigView) -> bool {
    match prop_text(device, "Address"@) {
        Some(address) => config.address.len() > 0 && text::same_ignoring_ascii_case(
            address,
            config.address,
        ),
        None => false,
    }
}

/// The device's name, or else its alias.
pub open spec fn device_name(device: Seq<Property>) -> Option<Seq<char>> {
    match prop_text(device, "Name"@) {
        Some(name) => Some(name),
        None => prop_text(device, "Alias"@),
    }
}

/// The device's name begins with the configured prefix, in any case.
pub open spec fn name_matches(device: Seq<Property>, config: config::ConfigView) -> bool {
    match device_name(device) {
        Some(name) => text::uppercase(config.name_prefix).is_prefix_of(text::uppercase(name)),
        None => false,
    }
}

/// The device offers the configured service, in any case.
pub open spec fn service_matches(device: Seq<Property>, config: config::ConfigView) -> bool {
    exists|i: int|
        0 <= i < prop_texts_or_none(device, "UUIDs"@).len() && text::same_ignoring_ascii_case(
            #[trigger] prop_texts_or_none(device, "UUIDs"@)[i],
            config.service_uuid,
        )
}

/// The device is the lamp: by its address, its name or a service.
pub open spec fn is_lamp(device: Seq<Property>, config: config::ConfigView) -> bool {
    address_matches(device, config) || name_matches(device, config) || service_matches(
        device,
        config,
    )
}

fn any_same_ignoring_case(strings: &[String], wanted: &str) -> (r: bool)
    ensures
        r == exists|i: int|
            0 <= i < text::texts(strings@).len() && text::same_ignoring_ascii_case(
                #[trigger] text::texts(strings@)[i],
                wanted@,
            ),
{
    let ghost all = text::texts(strings@);
    let mut i: usize = 0;
    while i < strings.len()
        invariant
            all == text::texts(strings@),
            i <= strings.len(),
            forall|j: int|
                0 <= j < i ==> !text::same_ignoring_ascii_case(#[trigger] all[j], wanted@),
        decreases strings.len() - i,
    {
        assert(all[i as int] == strings@[i as int]@);
        if eq_ignore_ascii_case(strings[i].as_str(), wanted) {
            return true;
        }
        i += 1;
    }
    false
}

/// Whether a device is the lamp.
pub fn device_matches(device: &[Property], config: &Config) -> (r: bool)
    ensures
        r == is_lamp(device@, config@),
{
    match prop_string(device, "Address") {
        Some(address) => {
            if !config.address.as_str().is_empty() && eq_ignore_ascii_case(
                address,
                config.address.as_str(),
            ) {
                return true;
            }
        },
        None => {},
    }
    let name = match prop_string(device, "Name") {
        Some(name) => Some(name),
        None => prop_string(device, "Alias"),
    };
    match name {
        Some(name) => {
            let name = to_uppercase(name);
            let prefix = to_uppercase(config.name_prefix.as_str());
            if starts_with(name.as_str(), prefix.as_str()) {
                return true;
            }
        },
        None => {},
    }
    let uuids = strings_or_none(device, "UUIDs");
    any_same_ignoring_case(uuids.as_slice(), config.service_uuid.as_str())
}

/// The object is a device, and the lamp.
pub open spec fn is_lamp_object(object: ManagedObject, config: config::ConfigView) -> bool {
    match object_interface(object, "org.bluez.Device1"@) {
        Some(device) => is_lamp(device, config),
        None => false,
    }
}

fn lamp_object(object: &ManagedObject, config: &Config) -> (r: bool)
    ensures
        r == is_lamp_object(*object, config@),
{
    match find_interface(object, "org.bluez.Device1") {
        Some(device) => device_matches(device, config),
        None => false,
    }
}

/// The path of the first object that is the lamp.
pub fn find_lamp(objects: &[ManagedObject], config: &Config) -> (r: Option<String>)
    ensures
        match (
            r,
            first_object(objects@, |object: ManagedObject| is_lamp_object(object, config@)),
        ) {
            (Some(path), Some(object)) => path@ == object.path@,
            (None, None) => true,
            _ => false,
        },
{
    let ghost view = config@;
    let ghost condition = |object: ManagedObject| is_lamp_object(object, view);
    let mut i: usize = 0;
    while i < objects.len()
        invariant
            i <= objects.len(),
            view == config@,
            condition == (|object: ManagedObject| is_lamp_object(object, view)),
            forall|j: int| 0 <= j < i ==> !condition(#[trigger] objects@[j]),
        decreases objects.len() - i,
    {
        if lamp_object(&objects[i], config) {
            proof {
                lemma_first_object(objects@, condition, i as int);
            }
            return Some(objects[i].path.clone());
        }
        i += 1;
    }
    proof {
        lemma_first_object(objects@, condition, i as int);
    }
    None
}

// ------------------------------------------------------------ the stored path

/// The longest text that `dbus` is asked about, in characters.
const MAX_PATH_CHARS: usize = 0x1000_0000;

/// A character of an element of a D-Bus object path.
pub open spec fn is_path_char(c: char) -> bool {
    '0' <= c <= '9' || 'A' <= c <= 'Z' || 'a' <= c <= 'z' || c == '_'
}

/// A D-Bus object path: it begins with `/`, its elements are not empty, and it
/// ends in `/` only if it is the root.
pub open spec fn is_object_path(s: Seq<char>) -> bool {
    &&& s.len() > 0
    &&& s[0] == '/'
    &&& forall|i: int| 0 <= i < s.len() ==> is_path_char(#[trigger] s[i]) || s[i] == '/'
    &&& forall|i: int| 0 < i < s.len() && #[trigger] s[i] == '/' ==> s[i - 1] != '/'
    &&& s.len() > 1 ==> s.last() != '/'
}

/// The text up to the first null character.
pub open spec fn until_null(s: Seq<char>) -> Seq<char> {
    s.take(text::first_index(s, '\0'))
}

/// `dbus::Path::new` accepts a text exactly if the part of it before the first
/// null character is a D-Bus object path. The length is limited because that
/// check counts bytes in a C `int`.
#[verifier::external_body]
fn is_dbus_path(path: &str) -> (r: bool)
    requires
        path@.len() <= MAX_PATH_CHARS,
    ensures
        r == is_object_path(until_null(path@)),
{
    dbus::Path::new(path).is_ok()
}

/// A stored path is blank or can be used as a D-Bus object path.
pub open spec fn is_usable_path(raw: Seq<char>) -> bool {
    let path = text::trim(raw);
    path.len() == 0 || is_object_path(until_null(path))
}

/// Whether characters are a D-Bus object path.
fn object_path(chars: &[char]) -> (r: bool)
    ensures
        r == is_object_path(chars@),
{
    if chars.len() == 0 || chars[0] != '/' {
        return false;
    }
    let mut i: usize = 1;
    while i < chars.len()
        invariant
            1 <= i <= chars.len(),
            chars@[0] == '/',
            forall|j: int| 0 <= j < i ==> is_path_char(#[trigger] chars@[j]) || chars@[j] == '/',
            forall|j: int| 0 < j < i && #[trigger] chars@[j] == '/' ==> chars@[j - 1] != '/',
        decreases chars.len() - i,
    {
        let c = chars[i];
        assert(chars@[i as int] == c);
        if c == '/' {
            if chars[i - 1] == '/' {
                return false;
            }
        } else if !(('0' <= c && c <= '9') || ('A' <= c && c <= 'Z') || ('a' <= c && c <= 'z') || c
            == '_') {
            return false;
        }
        i += 1;
    }
    chars.len() == 1 || chars[chars.len() - 1] != '/'
}

/// Whether a stored path is blank or can be used as a D-Bus object path.
pub fn is_usable_device_path(raw: &str) -> (r: bool)
    ensures
        r == is_usable_path(raw@),
{
    let path = trim_text(raw);
    let chars = text::chars_of(path.as_str());
    if chars.len() == 0 {
        true
    } else if chars.len() <= MAX_PATH_CHARS {
        is_dbus_path(path.as_str())
    } else {
        let n = find_char(chars.as_slice(), '\0');
        let until = vstd::slice::slice_subrange(chars.as_slice(), 0, n);
        assert(until@ =~= until_null(path@));
        object_path(until)
    }
}

/// The stored path, if there is still an object at it and that is the lamp.
pub open spec fn stored_lamp(
    raw: Seq<char>,
    objects: Seq<ManagedObject>,
    config: config::ConfigView,
) -> Option<Seq<char>> {
    let path = text::trim(raw);
    if path.len() == 0 {
        None
    } else {
        match object_at(objects, path) {
            Some(object) => if is_lamp_object(object, config) {
                Some(path)
            } else {
                None
            },
            None => None,
        }
    }
}

/// The stored path, if there is still an object at it and that is the lamp.
pub fn cached_device_path(raw: &str, objects: &[ManagedObject], config: &Config) -> (r: Option<
    String,
>)
    requires
        is_usable_path(raw@),
    ensures
        text::opt_text(r) == stored_lamp(raw@, objects@, config@),
{
    let path = trim_text(raw);
    if path.as_str().is_empty() {
        return None;
    }
    match find_object(objects, path.as_str()) {
        Some(object) => if lamp_object(object, config) {
            Some(path)
        } else {
            None
        },
        None => None,
    }
}

// ------------------------------------------------------------ characteristics

fn contains_text(strings: &[String], wanted: &str) -> (r: bool)
    ensures
        r == text::texts(strings@).contains(wanted@),
{
    let ghost all = text::texts(strings@);
    let mut i: usize = 0;
    while i < strings.len()
        invariant
            all == text::texts(strings@),
            i <= strings.len(),
            forall|j: int| 0 <= j < i ==> #[trigger] all[j] != wanted@,
        decreases strings.len() - i,
    {
        assert(all[i as int] == strings@[i as int]@);
        if same_text(strings[i].as_str(), wanted) {
            return true;
        }
        i += 1;
    }
    false
}

/// The flags of a characteristic.
pub open spec fn flags(characteristic: Seq<Property>) -> Seq<Seq<char>> {
    prop_texts_or_none(characteristic, "Flags"@)
}

/// The characteristic can be written, with or without a response.
pub open spec fn is_writable(characteristic: Seq<Property>) -> bool {
    flags(characteristic).contains("write"@) || flags(characteristic).contains("write-without-response"@)
}

/// The characteristic can be read.
pub open spec fn is_readable(characteristic: Seq<Property>) -> bool {
    flags(characteristic).contains("read"@)
}

/// The characteristic sends notifications or indications.
pub open spec fn is_notifying(characteristic: Seq<Property>) -> bool {
    flags(characteristic).contains("notify"@) || flags(characteristic).contains("indicate"@)
}

/// Whether a characteristic can be written.
pub fn has_write_flag(characteristic: &[Property]) -> (r: bool)
    ensures
        r == is_writable(characteristic@),
{
    let flags = strings_or_none(characteristic, "Flags");
    contains_text(flags.as_slice(), "write") || contains_text(
        flags.as_slice(),
        "write-without-response",
    )
}

/// Whether a characteristic can be read.
pub fn has_read_flag(characteristic: &[Property]) -> (r: bool)
    ensures
        r == is_readable(characteristic@),
{
    let flags = strings_or_none(characteristic, "Flags");
    contains_text(flags.as_slice(), "read")
}

fn has_notify_flag(characteristic: &[Property]) -> (r: bool)
    ensures
        r == is_notifying(characteristic@),
{
    let flags = strings_or_none(characteristic, "Flags");
    contains_text(flags.as_slice(), "notify") || contains_text(flags.as_slice(), "indicate")
}

/// The properties of a characteristic of the device.
pub open spec fn characteristic_of(object: ManagedObject, device: Seq<char>) -> Option<
    Seq<Property>,
> {
    if is_below(object.path@, device) {
        object_interface(object, "org.bluez.GattCharacteristic1"@)
    } else {
        None
    }
}

fn find_characteristic_props<'a>(object: &'a ManagedObject, device: &str) -> (r: Option<
    &'a [Property],
>)
    ensures
        match (r, characteristic_of(*object, device@)) {
            (Some(props), Some(expected)) => props@ == expected,
            (None, None) => true,
            _ => false,
        },
{
    if below(object.path.as_str(), device) {
        find_interface(object, "org.bluez.GattCharacteristic1")
    } else {
        None
    }
}

/// A characteristic of the device that can be written.
pub open spec fn is_write_target(object: ManagedObject, device: Seq<char>) -> bool {
    match characteristic_of(object, device) {
        Some(characteristic) => is_writable(characteristic),
        None => false,
    }
}

/// A characteristic of the device that can be written and has the configured
/// UUID, in any case.
pub open spec fn is_configured_target(
    object: ManagedObject,
    device: Seq<char>,
    config: config::ConfigView,
) -> bool {
    is_write_target(object, device) && match prop_text(
        characteristic_of(object, device)->Some_0,
        "UUID"@,
    ) {
        Some(uuid) => text::same_ignoring_ascii_case(uuid, config.characteristic_uuid),
        None => false,
    }
}

/// The characteristic that packets are written to: the first writable one with
/// the configured UUID, or else the first writable one.
pub open spec fn write_target(
    objects: Seq<ManagedObject>,
    device: Seq<char>,
    config: config::ConfigView,
) -> Option<ManagedObject> {
    match first_object(
        objects,
        |object: ManagedObject| is_configured_target(object, device, config),
    ) {
        Some(object) => Some(object),
        None => first_object(objects, |object: ManagedObject| is_write_target(object, device)),
    }
}

/// The characteristic that packets are written to.
pub fn find_characteristic(objects: &[ManagedObject], device: &str, config: &Config) -> (r: Result<
    CharacteristicTarget,
    LampError,
>)
    ensures
        match (r, write_target(objects@, device@, config@)) {
            (Ok(target), Some(object)) => target.path@ == object.path@ && target.can_read
                == is_readable(characteristic_of(object, device@)->Some_0),
            (Err(e), None) => e@ == error::Failure::NoWritableCharacteristic,
            _ => false,
        },
{
    let ghost view = config@;
    let ghost device_text = device@;
    let ghost configured = |object: ManagedObject| is_configured_target(object, device_text, view);
    let ghost writable = |object: ManagedObject| is_write_target(object, device_text);
    let mut fallback: Option<CharacteristicTarget> = None;
    let ghost mut at: int = 0;
    let mut i: usize = 0;
    while i < objects.len()
        invariant
            i <= objects.len(),
            view == config@,
            device_text == device@,
            configured == (|object: ManagedObject|
                is_configured_target(object, device_text, view)),
            writable == (|object: ManagedObject| is_write_target(object, device_text)),
            forall|j: int| 0 <= j < i ==> !configured(#[trigger] objects@[j]),
            match fallback {
                Some(target) => {
                    &&& 0 <= at < i
                    &&& forall|j: int| 0 <= j < at ==> !writable(#[trigger] objects@[j])
                    &&& writable(objects@[at])
                    &&& target.path@ == objects@[at].path@
                    &&& target.can_read == is_readable(
                        characteristic_of(objects@[at], device_text)->Some_0,
                    )
                },
                None => forall|j: int| 0 <= j < i ==> !writable(#[trigger] objects@[j]),
            },
        decreases objects.len() - i,
    {
        match find_characteristic_props(&objects[i], device) {
            Some(characteristic) => {
                if has_write_flag(characteristic) {
                    let target = CharacteristicTarget {
                        path: objects[i].path.clone(),
                        can_read: has_read_flag(characteristic),
                    };
                    let wanted = match prop_string(characteristic, "UUID") {
                        Some(uuid) => eq_ignore_ascii_case(
                            uuid,
                            config.characteristic_uuid.as_str(),
                        ),
                        None => false,
                    };
                    if wanted {
                        proof {
                            lemma_first_object(objects@, configured, i as int);
                        }
                        return Ok(target);
                    }
                    if fallback.is_none() {
                        fallback = Some(target);
                        proof {
                            at = i as int;
                        }
                    }
                }
            },
            None => {},
        }
        i += 1;
    }
    proof {
        lemma_first_object(objects@, configured, i as int);
        if fallback is Some {
            lemma_first_object(objects@, writable, at);
        } else {
            lemma_first_object(objects@, writable, i as int);
        }
    }
    match fallback {
        Some(target) => Ok(target),
        None => Err(LampError::NoWritableCharacteristic),
    }
}

/// A characteristic of the device whose UUID has that long form.
pub open spec fn has_uuid(object: ManagedObject, device: Seq<char>, uuid: Seq<char>) -> bool {
    match characteristic_of(object, device) {
        Some(characteristic) => match prop_text(characteristic, "UUID"@) {
            Some(candidate) => command::normalized_uuid(candidate) == uuid,
            None => false,
        },
        None => false,
    }
}

/// The path of the first characteristic of the device whose UUID has that long
/// form.
pub fn find_characteristic_by_uuid(objects: &[ManagedObject], device: &str, uuid: &str) -> (r:
    Result<String, LampError>)
    ensures
        match (
            r,
            first_object(objects@, |object: ManagedObject| has_uuid(object, device@, uuid@)),
        ) {
            (Ok(path), Some(object)) => path@ == object.path@,
            (Err(e), None) => e@ == (error::Failure::CharacteristicNotFound { uuid: uuid@ }),
            _ => false,
        },
{
    let ghost condition = |object: ManagedObject| has_uuid(object, device@, uuid@);
    let mut i: usize = 0;
    while i < objects.len()
        invariant
            i <= objects.len(),
            condition == (|object: ManagedObject| has_uuid(object, device@, uuid@)),
            forall|j: int| 0 <= j < i ==> !condition(#[trigger] objects@[j]),
        decreases objects.len() - i,
    {
        let found = match find_characteristic_props(&objects[i], device) {
            Some(characteristic) => match prop_string(characteristic, "UUID") {
                Some(candidate) => same_text(normalize_uuid(candidate).as_str(), uuid),
                None => false,
            },
            None => false,
        };
        if found {
            proof {
                lemma_first_object(objects@, condition, i as int);
            }
            return Ok(objects[i].path.clone());
        }
        i += 1;
    }
    proof {
        lemma_first_object(objects@, condition, i as int);
    }
    Err(LampError::CharacteristicNotFound { uuid: uuid.to_owned() })
}

/// Whether the device has any characteristic.
pub fn has_gatt_objects(objects: &[ManagedObject], device: &str) -> (r: bool)
    ensures
        r == exists|i: int|
            0 <= i < objects@.len() && characteristic_of(#[trigger] objects@[i], device@) is Some,
{
    let mut i: usize = 0;
    while i < objects.len()
        invariant
            i <= objects.len(),
            forall|j: int|
                0 <= j < i ==> characteristic_of(#[trigger] objects@[j], device@) is None,
        decreases objects.len() - i,
    {
        if find_characteristic_props(&objects[i], device).is_some() {
            return true;
        }
        i += 1;
    }
    false
}

// ------------------------------------------------------------------- listings

/// The objects in the order of their paths, with one more put into its place:
/// after those whose paths do not come after its own.
pub open spec fn insert_by_path(objects: Seq<ManagedObject>, object: ManagedObject) -> Seq<
    ManagedObject,
>
    decreases objects.len(),
{
    if objects.len() == 0 || text::text_le(objects.last().path@, object.path@) {
        objects.push(object)
    } else {
        insert_by_path(objects.drop_last(), object).push(objects.last())
    }
}

/// The objects in the order of their paths.
pub open spec fn sort_by_path(objects: Seq<ManagedObject>) -> Seq<ManagedObject>
    decreases objects.len(),
{
    if objects.len() == 0 {
        Seq::empty()
    } else {
        insert_by_path(sort_by_path(objects.drop_last()), objects.last())
    }
}

/// The objects below a device, in the order of their paths.
pub open spec fn objects_below(objects: Seq<ManagedObject>, device: Seq<char>) -> Seq<
    ManagedObject,
> {
    sort_by_path(objects.filter(|object: ManagedObject| is_below(object.path@, device)))
}

/// The objects that are referred to.
pub open spec fn referents(objects: Seq<&ManagedObject>) -> Seq<ManagedObject> {
    objects.map_values(|object: &ManagedObject| *object)
}

proof fn lemma_insert_by_path(objects: Seq<ManagedObject>, object: ManagedObject, n: int)
    requires
        0 <= n <= objects.len(),
        n > 0 ==> text::text_le(objects[n - 1].path@, object.path@),
        forall|i: int|
            n <= i < objects.len() ==> !text::text_le(
                (#[trigger] objects[i]).path@,
                object.path@,
            ),
    ensures
        insert_by_path(objects, object) == objects.insert(n, object),
    decreases objects.len(),
{
    if n == objects.len() {
        assert(objects.insert(n, object) =~= objects.push(object));
    } else {
        let before = objects.drop_last();
        assert(!text::text_le(objects[objects.len() - 1].path@, object.path@));
        assert forall|i: int| n <= i < before.len() implies !text::text_le(
            (#[trigger] before[i]).path@,
            object.path@,
        ) by {
            assert(before[i] == objects[i]);
        }
        lemma_insert_by_path(before, object, n);
        assert(before.insert(n, object).push(objects.last()) =~= objects.insert(n, object));
    }
}

fn insert_object<'a>(objects: &mut Vec<&'a ManagedObject>, object: &'a ManagedObject)
    ensures
        referents(final(objects)@) == insert_by_path(referents(old(objects)@), *object),
{
    let ghost before = referents(objects@);
    let mut n: usize = objects.len();
    while n > 0 && !text_at_most(objects[n - 1].path.as_str(), object.path.as_str())
        invariant
            before == referents(objects@),
            n <= objects.len(),
            forall|i: int|
                n <= i < before.len() ==> !text::text_le(
                    (#[trigger] before[i]).path@,
                    object.path@,
                ),
        decreases n,
    {
        assert(before[n - 1] == *objects@[n - 1]);
        n -= 1;
    }
    assert(n > 0 ==> before[n - 1] == *objects@[n - 1]);
    proof {
        lemma_insert_by_path(before, *object, n as int);
    }
    objects.insert(n, object);
    assert(referents(objects@) =~= before.insert(n as int, *object));
}

fn sorted_below<'a>(objects: &'a [ManagedObject], device: &str) -> (r: Vec<&'a ManagedObject>)
    ensures
        referents(r@) == objects_below(objects@, device@),
{
    let ghost condition = |object: ManagedObject| is_below(object.path@, device@);
    let mut out: Vec<&'a ManagedObject> = Vec::new();
    let mut i: usize = 0;
    reveal(Seq::filter);
    assert(objects@.take(0).filter(condition).len() == 0);
    assert(referents(out@) =~= Seq::empty());
    while i < objects.len()
        invariant
            i <= objects.len(),
            condition == (|object: ManagedObject| is_below(object.path@, device@)),
            referents(out@) == sort_by_path(objects@.take(i as int).filter(condition)),
        decreases objects.len() - i,
    {
        reveal(Seq::filter);
        let ghost now = objects@.take(i as int + 1);
        let ghost earlier = objects@.take(i as int);
        assert(now.drop_last() =~= earlier);
        assert(now.last() == objects@[i as int]);
        if below(objects[i].path.as_str(), device) {
            insert_object(&mut out, &objects[i]);
            assert(now.filter(condition).drop_last() =~= earlier.filter(condition));
        }
        i += 1;
    }
    assert(objects@.take(i as int) =~= objects@);
    out
}

/// The paths of the characteristics that send notifications, in the order of
/// the objects.
pub open spec fn notifying_paths(objects: Seq<ManagedObject>, device: Seq<char>) -> Seq<Seq<char>>
    decreases objects.len(),
{
    if objects.len() == 0 {
        Seq::empty()
    } else {
        let before = notifying_paths(objects.drop_last(), device);
        match characteristic_of(objects.last(), device) {
            Some(characteristic) => if is_notifying(characteristic) {
                before.push(objects.last().path@)
            } else {
                before
            },
            None => before,
        }
    }
}

/// The paths of the characteristics of the device that send notifications, in
/// the order of their paths.
pub fn notify_characteristics(objects: &[ManagedObject], device: &str) -> (r: Vec<String>)
    ensures
        text::texts(r@) == notifying_paths(objects_below(objects@, device@), device@),
{
    let sorted = sorted_below(objects, device);
    let ghost all = referents(sorted@);
    let mut out: Vec<String> = Vec::new();
    let mut i: usize = 0;
    assert(all.take(0).len() == 0);
    assert(text::texts(out@) =~= Seq::empty());
    while i < sorted.len()
        invariant
            all == referents(sorted@),
            i <= sorted.len(),
            text::texts(out@) == notifying_paths(all.take(i as int), device@),
        decreases sorted.len() - i,
    {
        let ghost now = all.take(i as int + 1);
        assert(now.drop_last() =~= all.take(i as int));
        assert(now.last() == *sorted@[i as int]);
        let ghost before = text::texts(out@);
        match find_characteristic_props(sorted[i], device) {
            Some(characteristic) => {
                if has_notify_flag(characteristic) {
                    out.push(sorted[i].path.clone());
                    assert(text::texts(out@) =~= before.push(now.last().path@));
                }
            },
            None => {},
        }
        i += 1;
    }
    assert(all.take(i as int) =~= all);
    out
}

/// The same paths, if there are any to listen to.
pub fn listen_endpoints(objects: &[ManagedObject], device: &str) -> (r: Result<
    Vec<String>,
    LampError,
>)
    ensures
        ({
            let paths = notifying_paths(objects_below(objects@, device@), device@);
            match r {
                Ok(endpoints) => paths.len() > 0 && text::texts(endpoints@) == paths,
                Err(e) => paths.len() == 0 && e@ == error::Failure::NoNotifyCharacteristics,
            }
        }),
{
    let paths = notify_characteristics(objects, device);
    assert(text::texts(paths@).len() == paths.len());
    if paths.len() == 0 {
        return Err(LampError::NoNotifyCharacteristics);
    }
    Ok(paths)
}

// --------------------------------------------------------------------- reports

/// One step of a report.
#[derive(Debug, PartialEq, Eq)]
pub enum ReportStep {
    /// Print a line.
    Line(String),
    /// Print the beginning of a line.
    Begin(String),
    /// Read the characteristic at a path and print its value.
    Read(String),
}

/// A `ReportStep` with its string as a character sequence.
#[verifier::ext_equal]
pub ghost enum Step {
    Line(Seq<char>),
    Begin(Seq<char>),
    Read(Seq<char>),
}

impl View for ReportStep {
    type V = Step;

    open spec fn view(&self) -> Step {
        match *self {
            ReportStep::Line(s) => Step::Line(s@),
            ReportStep::Begin(s) => Step::Begin(s@),
            ReportStep::Read(s) => Step::Read(s@),
        }
    }
}

/// The steps of a report.
pub open spec fn steps(report: Seq<ReportStep>) -> Seq<Step> {
    report.map_values(|step: ReportStep| step@)
}

/// A text, or `unknown`.
pub open spec fn or_unknown(s: Option<Seq<char>>) -> Seq<char> {
    match s {
        Some(s) => s,
        None => "unknown"@,
    }
}

fn text_or_unknown<'a>(s: Option<&'a str>) -> (r: &'a str)
    ensures
        r@ == or_unknown(text::opt_str(s)),
{
    match s {
        Some(s) => s,
        None => "unknown",
    }
}

/// The report of a service.
pub open spec fn service_steps(object: ManagedObject) -> Seq<Step> {
    match object_interface(object, "org.bluez.GattService1"@) {
        Some(service) => seq![
            Step::Line(
                "service "@ + object.path@ + " uuid="@ + or_unknown(prop_text(service, "UUID"@))
                    + " primary="@ + or_unknown(
                    match prop_flag(service, "Primary"@) {
                        Some(primary) => Some(packet::bool_text(primary)),
                        None => None,
                    },
                ),
            ),
        ],
        None => Seq::empty(),
    }
}

/// The line for something with a UUID and flags.
pub open spec fn flagged_line(kind: Seq<char>, path: Seq<char>, props: Seq<Property>) -> Seq<char> {
    kind + path + " uuid="@ + or_unknown(prop_text(props, "UUID"@)) + " flags="@ + text::joined(
        flags(props),
        ","@,
    )
}

/// The report of a characteristic, which is read if it can be.
pub open spec fn characteristic_steps(object: ManagedObject) -> Seq<Step> {
    match object_interface(object, "org.bluez.GattCharacteristic1"@) {
        Some(characteristic) => seq![
            Step::Line(flagged_line("char "@, object.path@, characteristic)),
        ] + (if is_readable(characteristic) {
            seq![Step::Read(object.path@)]
        } else {
            Seq::empty()
        }),
        None => Seq::empty(),
    }
}

/// The report of a descriptor.
pub open spec fn descriptor_steps(object: ManagedObject) -> Seq<Step> {
    match object_interface(object, "org.bluez.GattDescriptor1"@) {
        Some(descriptor) => seq![Step::Line(flagged_line("desc "@, object.path@, descriptor))],
        None => Seq::empty(),
    }
}

/// The report of the GATT objects, in their order.
pub open spec fn gatt_steps(objects: Seq<ManagedObject>) -> Seq<Step>
    decreases objects.len(),
{
    if objects.len() == 0 {
        Seq::empty()
    } else {
        gatt_steps(objects.drop_last()) + service_steps(objects.last()) + characteristic_steps(
            objects.last(),
        ) + descriptor_steps(objects.last())
    }
}

fn flagged(kind: &str, path: &str, props: &[Property]) -> (r: String)
    ensures
        r@ == flagged_line(kind@, path@, props@),
{
    let mut out = concat2(kind, path);
    out.append(" uuid=");
    out.append(text_or_unknown(prop_string(props, "UUID")));
    out.append(" flags=");
    let flags = strings_or_none(props, "Flags");
    out.append(join(flags.as_slice(), ",").as_str());
    out
}

fn push_service(report: &mut Vec<ReportStep>, object: &ManagedObject)
    ensures
        steps(final(report)@) == steps(old(report)@) + service_steps(*object),
{
    let ghost expected = steps(report@) + service_steps(*object);
    match find_interface(object, "org.bluez.GattService1") {
        Some(service) => {
            let mut line = concat2("service ", object.path.as_str());
            line.append(" uuid=");
            line.append(text_or_unknown(prop_string(service, "UUID")));
            line.append(" primary=");
            let primary = match prop_bool(service, "Primary") {
                Some(primary) => Some(bool_str(primary)),
                None => None,
            };
            line.append(text_or_unknown(primary));
            report.push(ReportStep::Line(line));
        },
        None => {},
    }
    assert(steps(report@) =~= expected);
}

fn push_characteristic(report: &mut Vec<ReportStep>, object: &ManagedObject)
    ensures
        steps(final(report)@) == steps(old(report)@) + characteristic_steps(*object),
{
    let ghost expected = steps(report@) + characteristic_steps(*object);
    match find_interface(object, "org.bluez.GattCharacteristic1") {
        Some(characteristic) => {
            let line = flagged("char ", object.path.as_str(), characteristic);
            report.push(ReportStep::Line(line));
            if has_read_flag(characteristic) {
                report.push(ReportStep::Read(object.path.clone()));
            }
        },
        None => {},
    }
    assert(steps(report@) =~= expected);
}

fn push_descriptor(report: &mut Vec<ReportStep>, object: &ManagedObject)
    ensures
        steps(final(report)@) == steps(old(report)@) + descriptor_steps(*object),
{
    let ghost expected = steps(report@) + descriptor_steps(*object);
    match find_interface(object, "org.bluez.GattDescriptor1") {
        Some(descriptor) => {
            let line = flagged("desc ", object.path.as_str(), descriptor);
            report.push(ReportStep::Line(line));
        },
        None => {},
    }
    assert(steps(report@) =~= expected);
}

/// The report of the GATT objects of the device, in the order of their paths.
pub fn dump_gatt(objects: &[ManagedObject], device: &str) -> (r: Vec<ReportStep>)
    ensures
        steps(r@) == gatt_steps(objects_below(objects@, device@)),
{
    let sorted = sorted_below(objects, device);
    let ghost all = referents(sorted@);
    let mut report: Vec<ReportStep> = Vec::new();
    let mut i: usize = 0;
    assert(all.take(0).len() == 0);
    assert(steps(report@) =~= Seq::empty());
    while i < sorted.len()
        invariant
            all == referents(sorted@),
            i <= sorted.len(),
            steps(report@) == gatt_steps(all.take(i as int)),
        decreases sorted.len() - i,
    {
        let ghost now = all.take(i as int + 1);
        assert(now.drop_last() =~= all.take(i as int));
        assert(now.last() == *sorted@[i as int]);
        push_service(&mut report, sorted[i]);
        push_characteristic(&mut report, sorted[i]);
        push_descriptor(&mut report, sorted[i]);
        i += 1;
    }
    assert(all.take(i as int) =~= all);
    report
}

/// The steps that read a characteristic, if it can be read.
pub open spec fn read_steps(object: ManagedObject) -> Seq<Step> {
    match object_interface(object, "org.bluez.GattCharacteristic1"@) {
        Some(characteristic) => if is_readable(characteristic) {
            seq![
                Step::Begin(
                    "read "@ + object.path@ + " uuid="@ + or_unknown(
                        prop_text(characteristic, "UUID"@),
                    ) + " "@,
                ),
                Step::Read(object.path@),
            ]
        } else {
            Seq::empty()
        },
        None => Seq::empty(),
    }
}

/// The steps that read all characteristics that can be read, in their order.
pub open spec fn all_read_steps(objects: Seq<ManagedObject>) -> Seq<Step>
    decreases objects.len(),
{
    if objects.len() == 0 {
        Seq::empty()
    } else {
        all_read_steps(objects.drop_last()) + read_steps(objects.last())
    }
}

fn push_reading(report: &mut Vec<ReportStep>, object: &ManagedObject)
    ensures
        steps(final(report)@) == steps(old(report)@) + read_steps(*object),
{
    let ghost expected = steps(report@) + read_steps(*object);
    match find_interface(object, "org.bluez.GattCharacteristic1") {
        Some(characteristic) => {
            if has_read_flag(characteristic) {
                let mut begin = concat2("read ", object.path.as_str());
                begin.append(" uuid=");
                begin.append(text_or_unknown(prop_string(characteristic, "UUID")));
                begin.append(" ");
                report.push(ReportStep::Begin(begin));
                report.push(ReportStep::Read(object.path.clone()));
            }
        },
        None => {},
    }
    assert(steps(report@) =~= expected);
}

/// The steps that read every characteristic of the device that can be read, in
/// the order of their paths, or a line that says that there is none.
pub fn read_all_readable_characteristics(objects: &[ManagedObject], device: &str) -> (r: Vec<
    ReportStep,
>)
    ensures
        steps(r@) == ({
            let readings = all_read_steps(objects_below(objects@, device@));
            if readings.len() == 0 {
                seq![Step::Line("  readable_gatt_values=none"@)]
            } else {
                readings
            }
        }),
{
    let sorted = sorted_below(objects, device);
    let ghost all = referents(sorted@);
    let mut report: Vec<ReportStep> = Vec::new();
    let mut i: usize = 0;
    assert(all.take(0).len() == 0);
    assert(steps(report@) =~= Seq::empty());
    while i < sorted.len()
        invariant
            all == referents(sorted@),
            i <= sorted.len(),
            steps(report@) == all_read_steps(all.take(i as int)),
        decreases sorted.len() - i,
    {
        let ghost now = all.take(i as int + 1);
        assert(now.drop_last() =~= all.take(i as int));
        assert(now.last() == *sorted@[i as int]);
        push_reading(&mut report, sorted[i]);
        i += 1;
    }
    assert(all.take(i as int) =~= all);
    assert(steps(report@).len() == report.len());
    if report.len() == 0 {
        report.push(ReportStep::Line("  readable_gatt_values=none".to_owned()));
        assert(steps(report@) =~= seq![Step::Line("  readable_gatt_values=none"@)]);
    }
    report
}

// ------------------------------------------------------------ the device report

/// The line for a property, if it can be displayed.
pub open spec fn property_line(device: Seq<Property>, key: Seq<char>) -> Seq<Seq<char>> {
    match prop_shown(device, key) {
        Some(value) => seq!["  "@ + key + "="@ + value],
        None => Seq::empty(),
    }
}

/// The lines that report a device.
pub open spec fn device_lines(path: Seq<char>, device: Seq<Property>) -> Seq<Seq<char>> {
    seq!["device "@ + path] + property_line(device, "Address"@) + property_line(
        device,
        "AddressType"@,
    ) + property_line(device, "Name"@) + property_line(device, "Alias"@) + property_line(
        device,
        "Connected"@,
    ) + property_line(device, "ServicesResolved"@) + property_line(device, "RSSI"@)
        + property_line(device, "TxPower"@) + (match prop_texts(device, "UUIDs"@) {
        Some(uuids) => seq!["  UUIDs="@ + text::joined(uuids, ","@)],
        None => Seq::empty(),
    }) + (match prop_byte_list(device, "AdvertisingFlags"@) {
        Some(bytes) => seq!["  AdvertisingFlags="@ + hex::hex_text(bytes)],
        None => Seq::empty(),
    })
}

fn push_property(lines: &mut Vec<String>, device: &[Property], key: &str)
    ensures
        text::texts(final(lines)@) == text::texts(old(lines)@) + property_line(device@, key@),
{
    let ghost expected = text::texts(lines@) + property_line(device@, key@);
    match prop_display(device, key) {
        Some(value) => {
            let mut line = concat2("  ", key);
            line.append("=");
            line.append(value.as_str());
            lines.push(line);
        },
        None => {},
    }
    assert(text::texts(lines@) =~= expected);
}

/// The lines that report the device at a path.
pub fn device_state_report(objects: &[ManagedObject], path: &str) -> (r: Result<
    Vec<String>,
    LampError,
>)
    ensures
        match (r, object_at(objects@, path@)) {
            (Err(e), None) => e@ == error::Failure::DeviceObjectMissing,
            (Err(e), Some(object)) => object_interface(object, "org.bluez.Device1"@) is None && e@
                == error::Failure::DeviceInterfaceMissing,
            (Ok(lines), Some(object)) => match object_interface(object, "org.bluez.Device1"@) {
                Some(device) => text::texts(lines@) == device_lines(path@, device),
                None => false,
            },
            _ => false,
        },
{
    let object = match find_object(objects, path) {
        Some(object) => object,
        None => return Err(LampError::DeviceObjectMissing),
    };
    let device = match find_interface(object, "org.bluez.Device1") {
        Some(device) => device,
        None => return Err(LampError::DeviceInterfaceMissing),
    };
    let mut lines: Vec<String> = Vec::new();
    lines.push(concat2("device ", path));
    assert(text::texts(lines@) =~= seq!["device "@ + path@]);
    push_property(&mut lines, device, "Address");
    push_property(&mut lines, device, "AddressType");
    push_property(&mut lines, device, "Name");
    push_property(&mut lines, device, "Alias");
    push_property(&mut lines, device, "Connected");
    push_property(&mut lines, device, "ServicesResolved");
    push_property(&mut lines, device, "RSSI");
    push_property(&mut lines, device, "TxPower");
    let ghost before = text::texts(lines@);
    match prop_string_vec(device, "UUIDs") {
        Some(uuids) => {
            lines.push(concat2("  UUIDs=", join(uuids.as_slice(), ",").as_str()));
        },
        None => {},
    }
    assert(text::texts(lines@) =~= before + (match prop_texts(device@, "UUIDs"@) {
        Some(uuids) => seq!["  UUIDs="@ + text::joined(uuids, ","@)],
        None => Seq::empty(),
    }));
    let ghost before = text::texts(lines@);
    match prop_bytes(device, "AdvertisingFlags") {
        Some(bytes) => {
            lines.push(concat2("  AdvertisingFlags=", hex::hex(bytes.as_slice()).as_str()));
        },
        None => {},
    }
    assert(text::texts(lines@) =~= before + (match prop_byte_list(device@, "AdvertisingFlags"@) {
        Some(bytes) => seq!["  AdvertisingFlags="@ + hex::hex_text(bytes)],
        None => Seq::empty(),
    }));
    Ok(lines)
}

} // verus!
