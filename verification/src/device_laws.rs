//! What holds of devices and characteristics property by property: by which
//! signs the lamp is known, which flags count, which characteristic is chosen,
//! and what is reported of each.

use crate::bluez;
use crate::bluez::{Interface, ManagedObject, PropItem, Property};
use crate::cache;
use crate::config;
use crate::hex;
use crate::number;
use crate::packet_laws;
use crate::record_laws;
use crate::text;
use crate::text_laws;
use vstd::prelude::*;

verus! {

// ----------------------------------------------------------------- properties

/// A property is found by its name, and of several the first counts. What it is
/// read as is what it can be read as.
pub proof fn law_properties_are_found_by_name(props: Seq<Property>, i: int, key: Seq<char>)
    requires
        0 <= i < props.len(),
        props[i].name@ == key,
        forall|j: int| 0 <= j < i ==> (#[trigger] props[j]).name@ != key,
    ensures
        bluez::prop(props, key) == Some(props[i].value),
        bluez::prop_text(props, key) == text::opt_text(props[i].value.text),
        props[i].value.int is None ==> bluez::prop_flag(props, key) is None,
        props[i].value.int matches Some(n) ==> bluez::prop_flag(props, key) == Some(n != 0),
    decreases i,
{
    if i > 0 {
        let rest = props.drop_first();
        assert(props[0].name@ != key);
        assert forall|j: int| 0 <= j < i - 1 implies (#[trigger] rest[j]).name@ != key by {
            assert(rest[j] == props[j + 1]);
        }
        law_properties_are_found_by_name(rest, i - 1, key);
    }
}

/// A property that is not there is not found.
pub proof fn law_missing_properties(props: Seq<Property>, key: Seq<char>)
    requires
        forall|j: int| 0 <= j < props.len() ==> (#[trigger] props[j]).name@ != key,
    ensures
        bluez::prop(props, key) is None,
        bluez::prop_text(props, key) is None,
        bluez::prop_flag(props, key) is None,
        bluez::prop_shown(props, key) is None,
        bluez::prop_texts(props, key) is None,
        bluez::prop_texts_or_none(props, key).len() == 0,
        bluez::prop_byte_list(props, key) is None,
    decreases props.len(),
{
    if props.len() > 0 {
        let rest = props.drop_first();
        assert forall|j: int| 0 <= j < rest.len() implies (#[trigger] rest[j]).name@ != key by {
            assert(rest[j] == props[j + 1]);
        }
        assert(props[0].name@ != key);
        law_missing_properties(rest, key);
    }
}

/// A property under another name changes nothing, wherever it stands.
pub proof fn law_other_properties_do_not_matter(
    before: Seq<Property>,
    other: Property,
    after: Seq<Property>,
    key: Seq<char>,
)
    requires
        other.name@ != key,
    ensures
        bluez::prop(before + seq![other] + after, key) == bluez::prop(before + after, key),
    decreases before.len(),
{
    let with = before + seq![other] + after;
    let without = before + after;
    if before.len() > 0 {
        let rest = before.drop_first();
        assert(with[0] == before[0] && without[0] == before[0]);
        assert(with.drop_first() =~= rest + seq![other] + after);
        assert(without.drop_first() =~= rest + after);
        law_other_properties_do_not_matter(rest, other, after, key);
    } else {
        assert(with[0] == other);
        assert(with.drop_first() =~= without);
    }
}

/// A property is displayed as a text if it is one, else by the digits of its
/// number.
pub proof fn law_displayed_properties(props: Seq<Property>, key: Seq<char>)
    ensures
        bluez::prop(props, key) matches Some(value) ==> {
            &&& value.text matches Some(s) ==> bluez::prop_shown(props, key) == Some(s@)
            &&& value.text is None && value.int is Some && value.int->0 >= 0
                ==> bluez::prop_shown(props, key) is Some && number::digits_value(
                bluez::prop_shown(props, key)->0,
            ) == value.int->0 && number::all_digits(bluez::prop_shown(props, key)->0)
            &&& value.text is None && value.int is Some && value.int->0 < 0 ==> bluez::prop_shown(
                props,
                key,
            ) is Some && packet_laws::tells(
                bluez::prop_shown(props, key)->0,
                seq!['-'],
                (-value.int->0) as nat,
            )
            &&& value.text is None && value.int is None && value.uint is Some ==> bluez::prop_shown(
                props,
                key,
            ) is Some && number::digits_value(bluez::prop_shown(props, key)->0) == value.uint->0
                && number::all_digits(bluez::prop_shown(props, key)->0)
            &&& value.text is None && value.int is None && value.uint is None ==> bluez::prop_shown(
                props,
                key,
            ) is None
        },
{
    if bluez::prop(props, key) is Some {
        let value = bluez::prop(props, key)->0;
        if value.int is Some {
            let n = value.int->0;
            if n >= 0 {
                number::lemma_decimal(n as nat);
            } else {
                packet_laws::lemma_tells(seq!['-'], (-n) as nat);
            }
        }
        if value.uint is Some {
            number::lemma_decimal(value.uint->0 as nat);
        }
    }
}

/// The texts of a list are those of its elements, in their order, without the
/// elements that are none. Its bytes are the low bytes of its elements, and there
/// are none if one of them is no number.
pub proof fn law_lists(items: Seq<PropItem>, item: PropItem)
    ensures
        bluez::item_texts(Seq::empty()).len() == 0,
        item.text matches Some(s) ==> bluez::item_texts(items.push(item)) == bluez::item_texts(
            items,
        ).push(s@),
        item.text is None ==> bluez::item_texts(items.push(item)) == bluez::item_texts(items),
        bluez::item_bytes(Seq::empty()) == Some(Seq::<u8>::empty()),
        item.uint is None && item.int is None ==> bluez::item_bytes(items.push(item)) is None,
        bluez::item_bytes(items) is None ==> bluez::item_bytes(items.push(item)) is None,
        bluez::item_bytes(items) is Some && item.uint is Some ==> bluez::item_bytes(
            items.push(item),
        ) == Some(bluez::item_bytes(items)->0.push((item.uint->0 as int % 256) as u8)),
        bluez::item_bytes(items) is Some && item.uint is None && item.int is Some
            ==> bluez::item_bytes(items.push(item)) == Some(
            bluez::item_bytes(items)->0.push((item.int->0 as int % 256) as u8),
        ),
{
    assert(items.push(item).drop_last() =~= items);
}

/// A list is read from the elements of its property.
pub proof fn law_list_properties(props: Seq<Property>, key: Seq<char>)
    ensures
        bluez::prop(props, key) matches Some(value) ==> {
            &&& value.items matches Some(items) ==> bluez::prop_texts(props, key) == Some(
                bluez::item_texts(items@),
            ) && bluez::prop_texts_or_none(props, key) == bluez::item_texts(items@)
                && bluez::prop_byte_list(props, key) == bluez::item_bytes(items@)
            &&& value.items is None ==> bluez::prop_texts(props, key) is None
                && bluez::prop_texts_or_none(props, key).len() == 0 && bluez::prop_byte_list(
                props,
                key,
            ) is None
        },
{
}

/// An interface is found by its name, and of several the first counts.
pub proof fn law_interfaces_are_found_by_name(
    object: ManagedObject,
    interfaces: Seq<Interface>,
    i: int,
    name: Seq<char>,
)
    requires
        0 <= i < interfaces.len(),
        interfaces[i].name@ == name,
        forall|j: int| 0 <= j < i ==> (#[trigger] interfaces[j]).name@ != name,
    ensures
        bluez::interface(interfaces, name) == Some(interfaces[i].props@),
        object.interfaces@ == interfaces ==> bluez::object_interface(object, name) == Some(
            interfaces[i].props@,
        ),
    decreases i,
{
    if i > 0 {
        let rest = interfaces.drop_first();
        assert(interfaces[0].name@ != name);
        assert forall|j: int| 0 <= j < i - 1 implies (#[trigger] rest[j]).name@ != name by {
            assert(rest[j] == interfaces[j + 1]);
        }
        law_interfaces_are_found_by_name(object, rest, i - 1, name);
    }
}

/// An interface that is not there is not found.
pub proof fn law_missing_interfaces(interfaces: Seq<Interface>, name: Seq<char>)
    requires
        forall|j: int| 0 <= j < interfaces.len() ==> (#[trigger] interfaces[j]).name@ != name,
    ensures
        bluez::interface(interfaces, name) is None,
    decreases interfaces.len(),
{
    if interfaces.len() > 0 {
        let rest = interfaces.drop_first();
        assert(interfaces[0].name@ != name);
        assert forall|j: int| 0 <= j < rest.len() implies (#[trigger] rest[j]).name@ != name by {
            assert(rest[j] == interfaces[j + 1]);
        }
        law_missing_interfaces(rest, name);
    }
}

// --------------------------------------------------------------------- choice

/// Of the objects that meet a condition the first is chosen. If none is chosen,
/// none meets it.
pub proof fn law_the_first_is_chosen(
    objects: Seq<ManagedObject>,
    condition: spec_fn(ManagedObject) -> bool,
)
    ensures
        match bluez::first_object(objects, condition) {
            Some(object) => exists|n: int|
                0 <= n < objects.len() && #[trigger] objects[n] == object && condition(object) && (
                forall|j: int| 0 <= j < n ==> !condition(#[trigger] objects[j])),
            None => forall|j: int| 0 <= j < objects.len() ==> !condition(#[trigger] objects[j]),
        },
    decreases objects.len(),
{
    if objects.len() > 0 {
        let rest = objects.drop_first();
        law_the_first_is_chosen(rest, condition);
        if condition(objects[0]) {
            assert(objects[0] == bluez::first_object(objects, condition)->0);
        } else if bluez::first_object(objects, condition) is Some {
            let object = bluez::first_object(objects, condition)->0;
            let n = choose|n: int|
                0 <= n < rest.len() && #[trigger] rest[n] == object && condition(object) && (
                forall|j: int| 0 <= j < n ==> !condition(#[trigger] rest[j]));
            assert(objects[n + 1] == rest[n]);
            assert forall|j: int| 0 <= j < n + 1 implies !condition(#[trigger] objects[j]) by {
                if j > 0 {
                    assert(objects[j] == rest[j - 1]);
                }
            }
        } else {
            assert forall|j: int| 0 <= j < objects.len() implies !condition(
                #[trigger] objects[j],
            ) by {
                if j > 0 {
                    assert(objects[j] == rest[j - 1]);
                }
            }
        }
    }
}

/// An adapter is what has the adapter's interface, and a lamp is a device that is
/// known as one.
pub proof fn law_adapters_and_lamps(object: ManagedObject, config: config::ConfigView)
    ensures
        bluez::is_adapter(object) <==> bluez::interface(
            object.interfaces@,
            "org.bluez.Adapter1"@,
        ) is Some,
        bluez::is_lamp_object(object, config) <==> bluez::interface(
            object.interfaces@,
            "org.bluez.Device1"@,
        ) is Some && bluez::is_lamp(
            bluez::interface(object.interfaces@, "org.bluez.Device1"@)->0,
            config,
        ),
{
}

// ------------------------------------------------------------------- the signs

/// A device whose address is the configured one, in any case, is the lamp,
/// whatever its other properties are.
pub proof fn law_an_address_suffices(
    device: Seq<Property>,
    config: config::ConfigView,
    address: Seq<char>,
)
    requires
        bluez::prop_text(device, "Address"@) == Some(address),
        config.address.len() > 0,
        text::same_ignoring_ascii_case(address, config.address),
    ensures
        bluez::is_lamp(device, config),
{
}

/// A device whose name, or else whose alias, begins with the configured prefix,
/// in any case, is the lamp, whatever its other properties are.
pub proof fn law_a_name_suffices(
    device: Seq<Property>,
    config: config::ConfigView,
    name: Seq<char>,
)
    requires
        bluez::prop_text(device, "Name"@) == Some(name) || (bluez::prop_text(device, "Name"@)
            is None && bluez::prop_text(device, "Alias"@) == Some(name)),
        text::uppercase(config.name_prefix).is_prefix_of(text::uppercase(name)),
    ensures
        bluez::is_lamp(device, config),
{
}

/// For names of ASCII: letter by letter, in either case.
pub proof fn law_an_ascii_name_suffices(
    device: Seq<Property>,
    config: config::ConfigView,
    name: Seq<char>,
)
    requires
        bluez::prop_text(device, "Name"@) == Some(name) || (bluez::prop_text(device, "Name"@)
            is None && bluez::prop_text(device, "Alias"@) == Some(name)),
        forall|i: int| 0 <= i < name.len() ==> (#[trigger] name[i] as u32) < 128,
        forall|i: int|
            0 <= i < config.name_prefix.len() ==> (#[trigger] config.name_prefix[i] as u32) < 128,
        name.len() >= config.name_prefix.len(),
        forall|i: int|
            #![trigger name[i]]
            0 <= i < config.name_prefix.len() ==> name[i] == config.name_prefix[i] || ('a'
                <= name[i] <= 'z' && config.name_prefix[i] as int == name[i] as int - 32) || ('A'
                <= name[i] <= 'Z' && config.name_prefix[i] as int == name[i] as int + 32),
    ensures
        bluez::is_lamp(device, config),
{
    let prefix = config.name_prefix;
    let upper = text::uppercase(name);
    let upper_prefix = text::uppercase(prefix);
    assert(text::all_ascii(name) && text::all_ascii(prefix));
    assert(upper.len() == name.len() && upper_prefix.len() == prefix.len());
    assert forall|i: int| 0 <= i < prefix.len() implies #[trigger] upper_prefix[i] == upper[i] by {
        text_laws::law_ascii_case(name, i);
        text_laws::law_ascii_case(prefix, i);
        assert(name[i] == name[i]);
    }
    assert(upper_prefix =~= upper.subrange(0, upper_prefix.len() as int));
    law_a_name_suffices(device, config, name);
}

/// A device that offers the configured service, in any case, is the lamp,
/// whatever its other properties are.
pub proof fn law_a_service_suffices(
    device: Seq<Property>,
    config: config::ConfigView,
    uuids: Seq<Seq<char>>,
    i: int,
)
    requires
        bluez::prop_texts(device, "UUIDs"@) == Some(uuids),
        0 <= i < uuids.len(),
        text::same_ignoring_ascii_case(uuids[i], config.service_uuid),
    ensures
        bluez::is_lamp(device, config),
{
    assert(text::same_ignoring_ascii_case(
        bluez::prop_texts_or_none(device, "UUIDs"@)[i],
        config.service_uuid,
    ));
}

/// A device is the lamp only by one of the three signs.
pub proof fn law_a_lamp_has_a_sign(device: Seq<Property>, config: config::ConfigView)
    requires
        bluez::is_lamp(device, config),
    ensures
        ({
            let address = bluez::prop_text(device, "Address"@);
            let name = bluez::prop_text(device, "Name"@);
            let alias = bluez::prop_text(device, "Alias"@);
            let uuids = bluez::prop_texts(device, "UUIDs"@);
            let prefix = text::uppercase(config.name_prefix);
            ||| address is Some && config.address.len() > 0 && text::same_ignoring_ascii_case(
                address->0,
                config.address,
            )
            ||| name is Some && prefix.is_prefix_of(text::uppercase(name->0))
            ||| name is None && alias is Some && prefix.is_prefix_of(text::uppercase(alias->0))
            ||| uuids is Some && exists|i: int|
                0 <= i < uuids->0.len() && text::same_ignoring_ascii_case(
                    #[trigger] uuids->0[i],
                    config.service_uuid,
                )
        }),
{
    let uuids = bluez::prop_texts(device, "UUIDs"@);
    if !bluez::address_matches(device, config) && !bluez::name_matches(device, config) {
        let i = choose|i: int|
            0 <= i < bluez::prop_texts_or_none(device, "UUIDs"@).len()
                && text::same_ignoring_ascii_case(
                #[trigger] bluez::prop_texts_or_none(device, "UUIDs"@)[i],
                config.service_uuid,
            );
        assert(uuids is Some);
        assert(text::same_ignoring_ascii_case(uuids->0[i], config.service_uuid));
    }
}

/// An address never hides a lamp: a device that is known by its name or by its
/// service is known with any address, wherever it stands among the properties,
/// and without one.
pub proof fn law_an_address_hides_nothing(
    before: Seq<Property>,
    address: Property,
    after: Seq<Property>,
    config: config::ConfigView,
)
    requires
        address.name@ == "Address"@,
        bluez::is_lamp(before + after, config),
        config.address.len() == 0 || bluez::prop_text(before + after, "Address"@) is None
            || !text::same_ignoring_ascii_case(
            bluez::prop_text(before + after, "Address"@)->0,
            config.address,
        ),
    ensures
        bluez::is_lamp(before + seq![address] + after, config),
{
    let with = before + seq![address] + after;
    let without = before + after;
    reveal_strlit("Address");
    reveal_strlit("Name");
    reveal_strlit("Alias");
    reveal_strlit("UUIDs");
    assert("Address"@.len() == 7 && "Name"@.len() == 4 && "Alias"@.len() == 5 && "UUIDs"@.len()
        == 5);
    law_other_properties_do_not_matter(before, address, after, "Name"@);
    law_other_properties_do_not_matter(before, address, after, "Alias"@);
    law_other_properties_do_not_matter(before, address, after, "UUIDs"@);
    assert(bluez::prop_text(with, "Name"@) == bluez::prop_text(without, "Name"@));
    assert(bluez::prop_text(with, "Alias"@) == bluez::prop_text(without, "Alias"@));
    assert(bluez::prop_texts(with, "UUIDs"@) == bluez::prop_texts(without, "UUIDs"@));
    law_a_lamp_has_a_sign(without, config);
    let name = bluez::prop_text(without, "Name"@);
    let alias = bluez::prop_text(without, "Alias"@);
    let uuids = bluez::prop_texts(without, "UUIDs"@);
    let prefix = text::uppercase(config.name_prefix);
    if name is Some && prefix.is_prefix_of(text::uppercase(name->0)) {
        law_a_name_suffices(with, config, name->0);
    } else if name is None && alias is Some && prefix.is_prefix_of(text::uppercase(alias->0)) {
        law_a_name_suffices(with, config, alias->0);
    } else {
        let i = choose|i: int|
            0 <= i < uuids->0.len() && text::same_ignoring_ascii_case(
                #[trigger] uuids->0[i],
                config.service_uuid,
            );
        law_a_service_suffices(with, config, uuids->0, i);
    }
}

// ------------------------------------------------------------- characteristics

/// One flag suffices, wherever it stands among the flags.
pub proof fn law_flags(characteristic: Seq<Property>, flags: Seq<Seq<char>>, i: int)
    requires
        bluez::prop_texts(characteristic, "Flags"@) == Some(flags),
        0 <= i < flags.len(),
    ensures
        flags[i] == "write"@ ==> bluez::is_writable(characteristic),
        flags[i] == "write-without-response"@ ==> bluez::is_writable(characteristic),
        flags[i] == "read"@ ==> bluez::is_readable(characteristic),
        flags[i] == "notify"@ ==> bluez::is_notifying(characteristic),
        flags[i] == "indicate"@ ==> bluez::is_notifying(characteristic),
{
    assert(bluez::flags(characteristic) == flags);
    assert(flags.contains(flags[i]));
}

/// What can be done has a flag that says so.
pub proof fn law_no_flag_no_use(characteristic: Seq<Property>, flags: Seq<Seq<char>>)
    requires
        bluez::prop_texts(characteristic, "Flags"@) == Some(flags),
    ensures
        bluez::is_writable(characteristic) ==> exists|i: int|
            0 <= i < flags.len() && (#[trigger] flags[i] == "write"@ || flags[i]
                == "write-without-response"@),
        bluez::is_readable(characteristic) ==> exists|i: int|
            0 <= i < flags.len() && #[trigger] flags[i] == "read"@,
        bluez::is_notifying(characteristic) ==> exists|i: int|
            0 <= i < flags.len() && (#[trigger] flags[i] == "notify"@ || flags[i]
                == "indicate"@),
{
}

/// A path lies below a device exactly if it is the device's path, a `/` and more
/// or nothing.
pub proof fn law_what_lies_below(device: Seq<char>, path: Seq<char>, rest: Seq<char>)
    ensures
        bluez::is_below(device + "/"@ + rest, device),
        bluez::is_below(path, device) ==> path.len() > device.len() && path[device.len() as int]
            == '/' && path.take(device.len() as int) == device,
        !bluez::is_below(device, device),
{
    reveal_strlit("/");
    let base = device + "/"@;
    assert("/"@.len() == 1 && "/"@[0] == '/');
    assert(base =~= (base + rest).subrange(0, base.len() as int));
    if bluez::is_below(path, device) {
        assert(base =~= path.subrange(0, base.len() as int));
        assert forall|i: int| 0 <= i < base.len() implies path[i] == base[i] by {
            assert(path.subrange(0, base.len() as int)[i] == path[i]);
        }
        assert(path.take(device.len() as int) =~= device);
    }
}

/// Packets are written to a characteristic of the device that can be written. If
/// one of these has the configured UUID, in any case, the first such is chosen,
/// else the first of them. If none is chosen, there is none.
pub proof fn law_where_packets_are_written(
    objects: Seq<ManagedObject>,
    device: Seq<char>,
    config: config::ConfigView,
)
    ensures
        match bluez::write_target(objects, device, config) {
            Some(object) => exists|n: int|
                0 <= n < objects.len() && #[trigger] objects[n] == object && is_best(
                    objects,
                    n,
                    device,
                    config,
                ),
            None => forall|j: int|
                0 <= j < objects.len() ==> !is_writable_below(#[trigger] objects[j], device),
        },
{
    let configured = |object: ManagedObject| bluez::is_configured_target(object, device, config);
    let writable = |object: ManagedObject| bluez::is_write_target(object, device);
    law_the_first_is_chosen(objects, configured);
    law_the_first_is_chosen(objects, writable);
    let by_uuid = bluez::first_object(objects, configured);
    let by_flag = bluez::first_object(objects, writable);
    assert(bluez::write_target(objects, device, config) == (match by_uuid {
        Some(object) => Some(object),
        None => by_flag,
    }));
    assert forall|object: ManagedObject| #[trigger]
        configured(object) == is_configured(object, device, config) by {}
    assert forall|object: ManagedObject| #[trigger]
        writable(object) == is_writable_below(object, device) by {}
    if by_uuid is Some {
        let n = choose|n: int|
            0 <= n < objects.len() && #[trigger] objects[n] == by_uuid->0 && configured(by_uuid->0)
                && (forall|j: int| 0 <= j < n ==> !configured(#[trigger] objects[j]));
        assert forall|j: int| 0 <= j < n implies !is_configured(
            #[trigger] objects[j],
            device,
            config,
        ) by {
            assert(!configured(objects[j]));
        }
        assert(is_best(objects, n, device, config));
    } else {
        assert forall|j: int| 0 <= j < objects.len() implies !is_configured(
            #[trigger] objects[j],
            device,
            config,
        ) by {
            assert(!configured(objects[j]));
        }
        if by_flag is Some {
            let n = choose|n: int|
                0 <= n < objects.len() && #[trigger] objects[n] == by_flag->0 && writable(
                    by_flag->0,
                ) && (forall|j: int| 0 <= j < n ==> !writable(#[trigger] objects[j]));
            assert forall|j: int| 0 <= j < n implies !is_writable_below(
                #[trigger] objects[j],
                device,
            ) by {
                assert(!writable(objects[j]));
            }
            assert(is_best(objects, n, device, config));
        } else {
            assert forall|j: int| 0 <= j < objects.len() implies !is_writable_below(
                #[trigger] objects[j],
                device,
            ) by {
                assert(!writable(objects[j]));
            }
        }
    }
}

/// The object can be written, and either it is the first that has the configured
/// UUID as well, or none has that and it is the first that can be written.
pub open spec fn is_best(
    objects: Seq<ManagedObject>,
    n: int,
    device: Seq<char>,
    config: config::ConfigView,
) -> bool {
    &&& is_writable_below(objects[n], device)
    &&& if is_configured(objects[n], device, config) {
        forall|j: int| 0 <= j < n ==> !is_configured(#[trigger] objects[j], device, config)
    } else {
        &&& forall|j: int|
            0 <= j < objects.len() ==> !is_configured(#[trigger] objects[j], device, config)
        &&& forall|j: int| 0 <= j < n ==> !is_writable_below(#[trigger] objects[j], device)
    }
}

/// The object is a characteristic below the device that can be written.
pub open spec fn is_writable_below(object: ManagedObject, device: Seq<char>) -> bool {
    bluez::is_below(object.path@, device) && writable_characteristic(object) is Some
}

/// The properties of a characteristic that can be written.
pub open spec fn writable_characteristic(object: ManagedObject) -> Option<Seq<Property>> {
    match bluez::interface(object.interfaces@, "org.bluez.GattCharacteristic1"@) {
        Some(props) => if bluez::is_writable(props) {
            Some(props)
        } else {
            None
        },
        None => None,
    }
}

/// The object is a characteristic below the device that can be written and has
/// the configured UUID.
pub open spec fn is_configured(
    object: ManagedObject,
    device: Seq<char>,
    config: config::ConfigView,
) -> bool {
    &&& bluez::is_below(object.path@, device)
    &&& writable_characteristic(object) matches Some(props) && bluez::prop_text(
        props,
        "UUID"@,
    ) matches Some(uuid) && text::same_ignoring_ascii_case(uuid, config.characteristic_uuid)
}

/// A characteristic has a UUID exactly if the long form of its own is that one,
/// and it is one of the device's.
pub proof fn law_uuids_of_characteristics(
    object: ManagedObject,
    device: Seq<char>,
    uuid: Seq<char>,
)
    ensures
        bluez::has_uuid(object, device, uuid) <==> bluez::is_below(object.path@, device)
            && bluez::interface(object.interfaces@, "org.bluez.GattCharacteristic1"@) is Some
            && bluez::prop_text(
            bluez::interface(object.interfaces@, "org.bluez.GattCharacteristic1"@)->0,
            "UUID"@,
        ) is Some && crate::command::normalized_uuid(
            bluez::prop_text(
                bluez::interface(object.interfaces@, "org.bluez.GattCharacteristic1"@)->0,
                "UUID"@,
            )->0,
        ) == uuid,
{
}

/// A path is listened to exactly if it is that of a characteristic of the device
/// that sends notifications.
pub proof fn law_what_is_listened_to(
    objects: Seq<ManagedObject>,
    device: Seq<char>,
    path: Seq<char>,
)
    ensures
        bluez::notifying_paths(objects, device).contains(path) <==> exists|i: int|
            0 <= i < objects.len() && (#[trigger] objects[i]).path@ == path && bluez::is_below(
                path,
                device,
            ) && bluez::interface(
                objects[i].interfaces@,
                "org.bluez.GattCharacteristic1"@,
            ) is Some && bluez::is_notifying(
                bluez::interface(objects[i].interfaces@, "org.bluez.GattCharacteristic1"@)->0,
            ),
    decreases objects.len(),
{
    let paths = bluez::notifying_paths(objects, device);
    if objects.len() > 0 {
        let rest = objects.drop_last();
        let last = objects.last();
        let before = bluez::notifying_paths(rest, device);
        law_what_is_listened_to(rest, device, path);
        if before.contains(path) {
            let i = before.index_of(path);
            assert(paths[i] == path);
            let j = choose|j: int|
                0 <= j < rest.len() && (#[trigger] rest[j]).path@ == path && bluez::is_below(
                    path,
                    device,
                ) && bluez::interface(
                    rest[j].interfaces@,
                    "org.bluez.GattCharacteristic1"@,
                ) is Some && bluez::is_notifying(
                    bluez::interface(rest[j].interfaces@, "org.bluez.GattCharacteristic1"@)->0,
                );
            assert(objects[j] == rest[j]);
        } else if paths.contains(path) {
            let i = paths.index_of(path);
            if i < before.len() {
                assert(before[i] == path);
            }
            assert(objects[objects.len() - 1].path@ == path);
        } else if paths.len() > before.len() {
            assert(paths[before.len() as int] == last.path@);
        }
        assert forall|i: int|
            0 <= i < objects.len() && (#[trigger] objects[i]).path@ == path && bluez::is_below(
                path,
                device,
            ) && bluez::interface(
                objects[i].interfaces@,
                "org.bluez.GattCharacteristic1"@,
            ) is Some && bluez::is_notifying(
                bluez::interface(objects[i].interfaces@, "org.bluez.GattCharacteristic1"@)->0,
            ) implies paths.contains(path) by {
            if i < rest.len() {
                assert(rest[i] == objects[i]);
            } else {
                assert(paths[before.len() as int] == path);
            }
        }
    }
}

/// They are listened to in the order of the objects, one after the other.
pub proof fn law_listening_follows_the_objects(
    objects: Seq<ManagedObject>,
    object: ManagedObject,
    device: Seq<char>,
)
    ensures
        ({
            let before = bluez::notifying_paths(objects, device);
            let after = bluez::notifying_paths(objects.push(object), device);
            let props = bluez::interface(object.interfaces@, "org.bluez.GattCharacteristic1"@);
            if bluez::is_below(object.path@, device) && props is Some && bluez::is_notifying(
                props->0,
            ) {
                after == before.push(object.path@)
            } else {
                after == before
            }
        }),
{
    assert(objects.push(object).drop_last() =~= objects);
}

// --------------------------------------------------------------------- reports

/// What the report says of a service.
pub proof fn law_services_are_listed(object: ManagedObject, service: Seq<Property>)
    requires
        bluez::object_interface(object, "org.bluez.GattService1"@) == Some(service),
    ensures
        ({
            let uuid = match bluez::prop_text(service, "UUID"@) {
                Some(uuid) => uuid,
                None => "unknown"@,
            };
            let primary = match bluez::prop_flag(service, "Primary"@) {
                Some(primary) => if primary {
                    "true"@
                } else {
                    "false"@
                },
                None => "unknown"@,
            };
            bluez::service_steps(object) == seq![
                bluez::Step::Line(
                    "service "@ + object.path@ + " uuid="@ + uuid + " primary="@ + primary,
                ),
            ]
        }),
{
}

/// What the report says of a characteristic, which is read exactly if one of its
/// flags says that it can be, and of a descriptor.
pub proof fn law_characteristics_are_listed(object: ManagedObject, props: Seq<Property>)
    ensures
        ({
            let uuid = match bluez::prop_text(props, "UUID"@) {
                Some(uuid) => uuid,
                None => "unknown"@,
            };
            let flags = match bluez::prop_texts(props, "Flags"@) {
                Some(flags) => flags,
                None => Seq::empty(),
            };
            let rest = object.path@ + (" uuid="@ + uuid + " flags="@ + text::joined(flags, ","@));
            &&& bluez::object_interface(object, "org.bluez.GattCharacteristic1"@) == Some(props)
                && flags.contains("read"@) ==> bluez::characteristic_steps(object) == seq![
                bluez::Step::Line("char "@ + rest),
                bluez::Step::Read(object.path@),
            ]
            &&& bluez::object_interface(object, "org.bluez.GattCharacteristic1"@) == Some(props)
                && !flags.contains("read"@) ==> bluez::characteristic_steps(object) == seq![
                bluez::Step::Line("char "@ + rest),
            ]
            &&& bluez::object_interface(object, "org.bluez.GattDescriptor1"@) == Some(props)
                ==> bluez::descriptor_steps(object) == seq![bluez::Step::Line("desc "@ + rest)]
            &&& bluez::object_interface(object, "org.bluez.GattCharacteristic1"@) == Some(props)
                && flags.contains("read"@) ==> bluez::read_steps(object) == seq![
                bluez::Step::Begin("read "@ + object.path@ + " uuid="@ + uuid + " "@),
                bluez::Step::Read(object.path@),
            ]
            &&& bluez::object_interface(object, "org.bluez.GattCharacteristic1"@) == Some(props)
                && !flags.contains("read"@) ==> bluez::read_steps(object).len() == 0
        }),
{
    let uuid = match bluez::prop_text(props, "UUID"@) {
        Some(uuid) => uuid,
        None => "unknown"@,
    };
    let flags = match bluez::prop_texts(props, "Flags"@) {
        Some(flags) => flags,
        None => Seq::empty(),
    };
    let tail = " uuid="@ + uuid + " flags="@ + text::joined(flags, ","@);
    assert(bluez::flags(props) == flags);
    assert("char "@ + (object.path@ + tail) =~= bluez::flagged_line(
        "char "@,
        object.path@,
        props,
    ));
    assert("desc "@ + (object.path@ + tail) =~= bluez::flagged_line(
        "desc "@,
        object.path@,
        props,
    ));
    if bluez::object_interface(object, "org.bluez.GattCharacteristic1"@) == Some(props) {
        if flags.contains("read"@) {
            assert(bluez::characteristic_steps(object) =~= seq![
                bluez::Step::Line("char "@ + (object.path@ + tail)),
                bluez::Step::Read(object.path@),
            ]);
        } else {
            assert(bluez::characteristic_steps(object) =~= seq![
                bluez::Step::Line("char "@ + (object.path@ + tail)),
            ]);
        }
    }
}

/// An object that is none of these is not listed, and of an object that is, the
/// service comes before the characteristic and that before the descriptor. The
/// objects are listed one after the other.
pub proof fn law_listings_follow_the_objects(
    objects: Seq<ManagedObject>,
    object: ManagedObject,
)
    ensures
        bluez::gatt_steps(Seq::empty()).len() == 0,
        bluez::all_read_steps(Seq::empty()).len() == 0,
        bluez::gatt_steps(objects.push(object)) == bluez::gatt_steps(objects)
            + bluez::service_steps(object) + bluez::characteristic_steps(object)
            + bluez::descriptor_steps(object),
        bluez::all_read_steps(objects.push(object)) == bluez::all_read_steps(objects)
            + bluez::read_steps(object),
        bluez::object_interface(object, "org.bluez.GattService1"@) is None ==> bluez::service_steps(
            object,
        ).len() == 0,
        bluez::object_interface(object, "org.bluez.GattCharacteristic1"@) is None
            ==> bluez::characteristic_steps(object).len() == 0 && bluez::read_steps(object).len()
            == 0,
        bluez::object_interface(object, "org.bluez.GattDescriptor1"@) is None
            ==> bluez::descriptor_steps(object).len() == 0,
{
    assert(objects.push(object).drop_last() =~= objects);
}

#[verifier::opaque]
spec fn device_report(path: Seq<char>, device: Seq<Property>) -> Seq<Seq<char>> {
    let l1 = seq!["device "@ + path];
    let l2 = record_laws::with_line(l1, "  Address="@, bluez::prop_shown(device, "Address"@));
    let l3 = record_laws::with_line(
        l2,
        "  AddressType="@,
        bluez::prop_shown(device, "AddressType"@),
    );
    let l4 = record_laws::with_line(l3, "  Name="@, bluez::prop_shown(device, "Name"@));
    let l5 = record_laws::with_line(l4, "  Alias="@, bluez::prop_shown(device, "Alias"@));
    let l6 = record_laws::with_line(l5, "  Connected="@, bluez::prop_shown(device, "Connected"@));
    let l7 = record_laws::with_line(
        l6,
        "  ServicesResolved="@,
        bluez::prop_shown(device, "ServicesResolved"@),
    );
    let l8 = record_laws::with_line(l7, "  RSSI="@, bluez::prop_shown(device, "RSSI"@));
    let l9 = record_laws::with_line(l8, "  TxPower="@, bluez::prop_shown(device, "TxPower"@));
    let l10 = record_laws::with_line(l9, "  UUIDs="@, joined_uuids(device));
    record_laws::with_line(l10, "  AdvertisingFlags="@, hex_flags(device))
}

/// The services of a device, as they are reported.
pub open spec fn joined_uuids(device: Seq<Property>) -> Option<Seq<char>> {
    match bluez::prop_texts(device, "UUIDs"@) {
        Some(uuids) => Some(text::joined(uuids, ","@)),
        None => None,
    }
}

/// The advertising flags of a device, as they are reported.
pub open spec fn hex_flags(device: Seq<Property>) -> Option<Seq<char>> {
    match bluez::prop_byte_list(device, "AdvertisingFlags"@) {
        Some(bytes) => Some(hex::hex_text(bytes)),
        None => None,
    }
}

proof fn lemma_labels()
    ensures
        "  "@ + "Address"@ + "="@ == "  Address="@,
        "  "@ + "AddressType"@ + "="@ == "  AddressType="@,
        "  "@ + "Name"@ + "="@ == "  Name="@,
        "  "@ + "Alias"@ + "="@ == "  Alias="@,
        "  "@ + "Connected"@ + "="@ == "  Connected="@,
        "  "@ + "ServicesResolved"@ + "="@ == "  ServicesResolved="@,
        "  "@ + "RSSI"@ + "="@ == "  RSSI="@,
        "  "@ + "TxPower"@ + "="@ == "  TxPower="@,
{
    reveal_strlit("  ");
    reveal_strlit("=");
    reveal_strlit("Address");
    reveal_strlit("AddressType");
    reveal_strlit("Name");
    reveal_strlit("Alias");
    reveal_strlit("Connected");
    reveal_strlit("ServicesResolved");
    reveal_strlit("RSSI");
    reveal_strlit("TxPower");
    reveal_strlit("  Address=");
    reveal_strlit("  AddressType=");
    reveal_strlit("  Name=");
    reveal_strlit("  Alias=");
    reveal_strlit("  Connected=");
    reveal_strlit("  ServicesResolved=");
    reveal_strlit("  RSSI=");
    reveal_strlit("  TxPower=");
    assert("  "@ + "Address"@ + "="@ =~= "  Address="@);
    assert("  "@ + "AddressType"@ + "="@ =~= "  AddressType="@);
    assert("  "@ + "Name"@ + "="@ =~= "  Name="@);
    assert("  "@ + "Alias"@ + "="@ =~= "  Alias="@);
    assert("  "@ + "Connected"@ + "="@ =~= "  Connected="@);
    assert("  "@ + "ServicesResolved"@ + "="@ =~= "  ServicesResolved="@);
    assert("  "@ + "RSSI"@ + "="@ =~= "  RSSI="@);
    assert("  "@ + "TxPower"@ + "="@ =~= "  TxPower="@);
}

proof fn lemma_property_line(device: Seq<Property>, key: Seq<char>)
    ensures
        bluez::property_line(device, key) == cache::opt_line(
            "  "@ + key + "="@,
            bluez::prop_shown(device, key),
        ),
{
}

proof fn lemma_device_report(path: Seq<char>, device: Seq<Property>)
    ensures
        bluez::device_lines(path, device) == device_report(path, device),
{
    lemma_labels();
    lemma_property_line(device, "Address"@);
    lemma_property_line(device, "AddressType"@);
    lemma_property_line(device, "Name"@);
    lemma_property_line(device, "Alias"@);
    lemma_property_line(device, "Connected"@);
    lemma_property_line(device, "ServicesResolved"@);
    lemma_property_line(device, "RSSI"@);
    lemma_property_line(device, "TxPower"@);
    reveal(record_laws::with_line);
    reveal(device_report);
}

/// The report of a device says each of its properties that can be displayed, the
/// services separated by commas, and the advertising flags in hexadecimal.
pub proof fn law_the_device_is_reported(path: Seq<char>, device: Seq<Property>)
    ensures
        ({
            let lines = bluez::device_lines(path, device);
            let has = |line: Seq<char>| record_laws::has_line(lines, line);
            &&& has("device "@ + path)
            &&& bluez::prop_shown(device, "Address"@) matches Some(s) ==> has("  Address="@ + s)
            &&& bluez::prop_shown(device, "AddressType"@) matches Some(s) ==> has(
                "  AddressType="@ + s,
            )
            &&& bluez::prop_shown(device, "Name"@) matches Some(s) ==> has("  Name="@ + s)
            &&& bluez::prop_shown(device, "Alias"@) matches Some(s) ==> has("  Alias="@ + s)
            &&& bluez::prop_shown(device, "Connected"@) matches Some(s) ==> has("  Connected="@ + s)
            &&& bluez::prop_shown(device, "ServicesResolved"@) matches Some(s) ==> has(
                "  ServicesResolved="@ + s,
            )
            &&& bluez::prop_shown(device, "RSSI"@) matches Some(s) ==> has("  RSSI="@ + s)
            &&& bluez::prop_shown(device, "TxPower"@) matches Some(s) ==> has("  TxPower="@ + s)
            &&& bluez::prop_texts(device, "UUIDs"@) matches Some(uuids) ==> has(
                "  UUIDs="@ + text::joined(uuids, ","@),
            )
            &&& bluez::prop_byte_list(device, "AdvertisingFlags"@) matches Some(bytes) ==> has(
                "  AdvertisingFlags="@ + hex::hex_text(bytes),
            )
        }),
{
    lemma_device_report(path, device);
    lemma_report_has(path, device);
}

proof fn lemma_report_has(path: Seq<char>, device: Seq<Property>)
    ensures
        ({
            let lines = device_report(path, device);
            let has = |line: Seq<char>| record_laws::has_line(lines, line);
            &&& has("device "@ + path)
            &&& bluez::prop_shown(device, "Address"@) matches Some(s) ==> has("  Address="@ + s)
            &&& bluez::prop_shown(device, "AddressType"@) matches Some(s) ==> has(
                "  AddressType="@ + s,
            )
            &&& bluez::prop_shown(device, "Name"@) matches Some(s) ==> has("  Name="@ + s)
            &&& bluez::prop_shown(device, "Alias"@) matches Some(s) ==> has("  Alias="@ + s)
            &&& bluez::prop_shown(device, "Connected"@) matches Some(s) ==> has("  Connected="@ + s)
            &&& bluez::prop_shown(device, "ServicesResolved"@) matches Some(s) ==> has(
                "  ServicesResolved="@ + s,
            )
            &&& bluez::prop_shown(device, "RSSI"@) matches Some(s) ==> has("  RSSI="@ + s)
            &&& bluez::prop_shown(device, "TxPower"@) matches Some(s) ==> has("  TxPower="@ + s)
            &&& joined_uuids(device) matches Some(s) ==> has("  UUIDs="@ + s)
            &&& hex_flags(device) matches Some(s) ==> has("  AdvertisingFlags="@ + s)
        }),
{
    reveal(device_report);
    let l1 = seq!["device "@ + path];
    assert(record_laws::has_line(l1, "device "@ + path)) by {
        reveal(record_laws::has_line);
        assert(l1[0] == "device "@ + path);
    }
    record_laws::lemma_with_line(l1, "  Address="@, bluez::prop_shown(device, "Address"@));
    let l2 = record_laws::with_line(l1, "  Address="@, bluez::prop_shown(device, "Address"@));
    record_laws::lemma_with_line(l2, "  AddressType="@, bluez::prop_shown(device, "AddressType"@));
    let l3 = record_laws::with_line(
        l2,
        "  AddressType="@,
        bluez::prop_shown(device, "AddressType"@),
    );
    record_laws::lemma_with_line(l3, "  Name="@, bluez::prop_shown(device, "Name"@));
    let l4 = record_laws::with_line(l3, "  Name="@, bluez::prop_shown(device, "Name"@));
    record_laws::lemma_with_line(l4, "  Alias="@, bluez::prop_shown(device, "Alias"@));
    let l5 = record_laws::with_line(l4, "  Alias="@, bluez::prop_shown(device, "Alias"@));
    record_laws::lemma_with_line(l5, "  Connected="@, bluez::prop_shown(device, "Connected"@));
    let l6 = record_laws::with_line(l5, "  Connected="@, bluez::prop_shown(device, "Connected"@));
    record_laws::lemma_with_line(
        l6,
        "  ServicesResolved="@,
        bluez::prop_shown(device, "ServicesResolved"@),
    );
    let l7 = record_laws::with_line(
        l6,
        "  ServicesResolved="@,
        bluez::prop_shown(device, "ServicesResolved"@),
    );
    record_laws::lemma_with_line(l7, "  RSSI="@, bluez::prop_shown(device, "RSSI"@));
    let l8 = record_laws::with_line(l7, "  RSSI="@, bluez::prop_shown(device, "RSSI"@));
    record_laws::lemma_with_line(l8, "  TxPower="@, bluez::prop_shown(device, "TxPower"@));
    let l9 = record_laws::with_line(l8, "  TxPower="@, bluez::prop_shown(device, "TxPower"@));
    record_laws::lemma_with_line(l9, "  UUIDs="@, joined_uuids(device));
    let l10 = record_laws::with_line(l9, "  UUIDs="@, joined_uuids(device));
    record_laws::lemma_with_line(l10, "  AdvertisingFlags="@, hex_flags(device));
}

// ----------------------------------------------------------------- object paths

/// What makes a text an object path: the root is one, one more element makes
/// another, and a text that does not begin with `/`, ends in one, has two in a
/// row or holds any other character than letters, digits and `_` is none.
pub proof fn law_object_paths(path: Seq<char>, element: Seq<char>, i: int)
    ensures
        bluez::is_object_path(seq!['/']),
        !bluez::is_object_path(Seq::empty()),
        element.len() > 0 && (forall|j: int|
            0 <= j < element.len() ==> is_name_char(#[trigger] element[j]))
            ==> bluez::is_object_path(seq!['/'] + element),
        bluez::is_object_path(path) && path.len() > 1 && element.len() > 0 && (forall|j: int|
            0 <= j < element.len() ==> is_name_char(#[trigger] element[j]))
            ==> bluez::is_object_path(path + seq!['/'] + element),
        path.len() > 0 && path[0] != '/' ==> !bluez::is_object_path(path),
        path.len() > 1 && path.last() == '/' ==> !bluez::is_object_path(path),
        0 < i < path.len() && path[i] == '/' && path[i - 1] == '/' ==> !bluez::is_object_path(path),
        0 <= i < path.len() && !is_name_char(path[i]) && path[i] != '/' ==> !bluez::is_object_path(
            path,
        ),
{
    if element.len() > 0 && (forall|j: int|
        0 <= j < element.len() ==> is_name_char(#[trigger] element[j])) {
        let root = seq!['/'] + element;
        assert forall|j: int| 0 <= j < root.len() implies bluez::is_path_char(#[trigger] root[j])
            || root[j] == '/' by {
            if j > 0 {
                assert(is_name_char(element[j - 1]));
            }
        }
        assert forall|j: int| 0 < j < root.len() && #[trigger] root[j] == '/' implies root[j - 1]
            != '/' by {
            assert(is_name_char(element[j - 1]));
        }
        assert(is_name_char(element[element.len() - 1]));
        if bluez::is_object_path(path) && path.len() > 1 {
            let n = path.len();
            let all = path + seq!['/'] + element;
            assert forall|j: int| 0 <= j < all.len() implies bluez::is_path_char(#[trigger] all[j])
                || all[j] == '/' by {
                if j < n {
                    assert(all[j] == path[j]);
                } else if j > n {
                    assert(is_name_char(element[j - n - 1]));
                }
            }
            assert forall|j: int| 0 < j < all.len() && #[trigger] all[j] == '/' implies all[j - 1]
                != '/' by {
                if j < n {
                    assert(all[j] == path[j] && all[j - 1] == path[j - 1]);
                } else if j > n {
                    assert(is_name_char(element[j - n - 1]));
                } else {
                    assert(all[j - 1] == path.last());
                }
            }
        }
    }
}

/// A letter or digit of ASCII, or `_`.
pub open spec fn is_name_char(c: char) -> bool {
    'a' <= c <= 'z' || 'A' <= c <= 'Z' || '0' <= c <= '9' || c == '_'
}

/// A stored path can be used if there is nothing but white space, or an object
/// path between white space. Nothing is recalled of the first, and of the second
/// the object at that path, if it is the lamp. Any other text without a null
/// character cannot be used.
pub proof fn law_stored_paths(
    a: Seq<char>,
    path: Seq<char>,
    b: Seq<char>,
    objects: Seq<ManagedObject>,
    config: config::ConfigView,
)
    requires
        forall|i: int| 0 <= i < a.len() ==> text::is_space(#[trigger] a[i]),
        forall|i: int| 0 <= i < b.len() ==> text::is_space(#[trigger] b[i]),
        path.len() > 0 ==> !text::is_space(path[0]) && !text::is_space(path.last()),
        forall|i: int| 0 <= i < path.len() ==> path[i] != '\0',
    ensures
        bluez::is_usable_path(a + path + b) <==> path.len() == 0 || bluez::is_object_path(path),
        path.len() == 0 ==> bluez::stored_lamp(a + path + b, objects, config) is None,
        path.len() > 0 ==> bluez::stored_lamp(a + path + b, objects, config) == (
        match bluez::object_at(objects, path) {
            Some(object) => if bluez::is_lamp_object(object, config) {
                Some(path)
            } else {
                None
            },
            None => None,
        }),
{
    text_laws::law_trim(a, path, b);
    text::lemma_first_index_is(path, '\0', path.len() as int);
    assert(bluez::until_null(path) =~= path);
}

/// The object at a path is the first that has it.
pub proof fn law_objects_are_found_by_path(
    objects: Seq<ManagedObject>,
    path: Seq<char>,
    n: int,
)
    requires
        forall|i: int| 0 <= i < n ==> (#[trigger] objects[i]).path@ != path,
        0 <= n <= objects.len(),
    ensures
        n < objects.len() && objects[n].path@ == path ==> bluez::object_at(objects, path) == Some(
            objects[n],
        ),
        n == objects.len() ==> bluez::object_at(objects, path) is None,
{
    if n < objects.len() && objects[n].path@ == path {
        bluez::lemma_object_at(objects, path, n);
    }
    if n == objects.len() && bluez::object_at(objects, path) is Some {
        let k = bluez::lemma_object_at_index(objects, path);
        assert(objects[k].path@ == path);
    }
}

} // verus!
