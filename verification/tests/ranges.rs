use bluez_peripheral::handle::{AttributeType, Handle};
use bluez_peripheral::peripheral::Peripheral;
use bluez_peripheral::registry::AttributeRegistry;
use bluez_peripheral::types::{BDAddr, CharPropFlags, Characteristic, Error, NOTIFY, READ, UUID};

const DEVICE: &str = "/org/bluez/hci0/dev_AA_BB_CC_DD_EE_FF";

fn device() -> Peripheral {
    Peripheral::new(DEVICE, BDAddr { address: [0xFF, 0xEE, 0xDD, 0xCC, 0xBB, 0xAA] })
}

fn range(start: u16, end: u16, uuid: u16, bits: u8) -> Characteristic {
    Characteristic {
        start_handle: start,
        end_handle: end,
        value_handle: start,
        uuid: UUID::B16(uuid),
        properties: CharPropFlags::from_bits(bits),
    }
}

#[test]
fn parses_the_three_known_tags() {
    assert_eq!(
        Handle::parse("/org/bluez/hci0/dev_AA_BB_CC_DD_EE_FF/service000a"),
        Ok(Handle { typ: AttributeType::Service, handle: 0x000a })
    );
    assert_eq!(
        Handle::parse("/org/bluez/hci0/dev_AA_BB_CC_DD_EE_FF/service000a/char000C"),
        Ok(Handle { typ: AttributeType::Characteristic, handle: 0x000c })
    );
    assert_eq!(
        Handle::parse("/dev/service000a/char000c/descFFFE"),
        Ok(Handle { typ: AttributeType::Descriptor, handle: 0xfffe })
    );
}

#[test]
fn parses_an_unknown_tag_and_a_bare_handle() {
    assert_eq!(
        Handle::parse("/dev/include1234"),
        Ok(Handle { typ: AttributeType::Unknown, handle: 0x1234 })
    );
    assert_eq!(Handle::parse("01ff"), Ok(Handle { typ: AttributeType::Unknown, handle: 0x01ff }));
    assert_eq!(
        Handle::parse("/dev/Service0001"),
        Ok(Handle { typ: AttributeType::Unknown, handle: 1 })
    );
}

#[test]
fn refuses_paths_that_name_no_handle() {
    assert_eq!(Handle::parse(DEVICE), Err(Error::InvalidPath));
    assert_eq!(Handle::parse(""), Err(Error::InvalidPath));
    assert_eq!(Handle::parse("/dev/char12"), Err(Error::InvalidPath));
    assert_eq!(Handle::parse("/dev/char000g"), Err(Error::InvalidPath));
    assert_eq!(Handle::parse("/dev/char0001/"), Err(Error::InvalidPath));
    assert_eq!(Handle::parse("/dev/char+001"), Err(Error::InvalidPath));
    assert_eq!(Handle::parse("/dev/char00é1"), Err(Error::InvalidPath));
}

#[test]
fn handle_digits_are_most_significant_first() {
    assert_eq!(Handle::parse("/d/char1000").unwrap().handle, 4096);
    assert_eq!(Handle::parse("/d/char0100").unwrap().handle, 256);
    assert_eq!(Handle::parse("/d/char0010").unwrap().handle, 16);
    assert_eq!(Handle::parse("/d/char0001").unwrap().handle, 1);
    assert_eq!(Handle::parse("/d/charffff").unwrap().handle, 65535);
}

#[test]
fn empty_registry_builds_empty_set() {
    let mut p = device();
    assert_eq!(p.build_characteristic_ranges(), Ok(()));
    assert_eq!(p.characteristics(), vec![]);
    assert_eq!(AttributeRegistry::new().ranges(), vec![]);
}

#[test]
fn services_and_characteristics_get_their_ranges() {
    let mut p = device();
    for (path, uuid) in [
        ("/org/bluez/hci0/dev_AA_BB_CC_DD_EE_FF/service001e", 0x1803),
        ("/org/bluez/hci0/dev_AA_BB_CC_DD_EE_FF/service000a/char000b", 0x2a00),
        ("/org/bluez/hci0/dev_AA_BB_CC_DD_EE_FF/service000a", 0x1800),
        ("/org/bluez/hci0/dev_AA_BB_CC_DD_EE_FF/service0014/char0015", 0x2a05),
        ("/org/bluez/hci0/dev_AA_BB_CC_DD_EE_FF/service0014", 0x1801),
    ] {
        assert_eq!(p.add_attribute(path, UUID::B16(uuid), CharPropFlags::from_bits(READ)), Ok(()));
    }
    assert_eq!(p.characteristics(), vec![]);
    assert_eq!(p.build_characteristic_ranges(), Ok(()));
    assert_eq!(
        p.characteristics(),
        vec![
            range(10, 19, 0x1800, READ),
            range(11, 20, 0x2a00, READ),
            range(20, 29, 0x1801, READ),
            range(21, 65535, 0x2a05, READ),
            range(30, 65535, 0x1803, READ),
        ]
    );
}

#[test]
fn ranges_of_one_kind_do_not_overlap() {
    let mut p = device();
    for h in [0x0040u16, 0x0002, 0x0300, 0x0011, 0xffff] {
        let path = format!("{}/service0001/char{:04x}", DEVICE, h);
        assert_eq!(p.add_attribute(&path, UUID::B16(h), CharPropFlags::from_bits(NOTIFY)), Ok(()));
    }
    assert_eq!(p.build_characteristic_ranges(), Ok(()));
    let set = p.characteristics();
    assert_eq!(set.len(), 5);
    for pair in set.windows(2) {
        assert!(pair[0].start_handle < pair[1].start_handle);
        assert!(pair[0].end_handle < pair[1].start_handle);
        assert_eq!(pair[0].end_handle + 1, pair[1].start_handle);
    }
    assert_eq!(set[0], range(0x0002, 0x0010, 0x0002, NOTIFY));
    assert_eq!(set[4], range(0xffff, 0xffff, 0xffff, NOTIFY));
}

#[test]
fn descriptors_and_unknown_attributes_get_no_range() {
    let mut p = device();
    let flags = CharPropFlags::from_bits(0);
    assert_eq!(p.add_attribute("/d/service0001/char0002/desc0004", UUID::B16(0x2902), flags), Ok(()));
    assert_eq!(p.add_attribute("/d/service0001/other0003", UUID::B16(7), flags), Ok(()));
    assert_eq!(p.add_attribute("/d/service0001/char0002", UUID::B16(0x2a19), flags), Ok(()));
    assert_eq!(p.build_characteristic_ranges(), Ok(()));
    assert_eq!(p.characteristics(), vec![range(2, 65535, 0x2a19, 0)]);
}

#[test]
fn a_second_announcement_replaces_the_first() {
    let mut p = device();
    assert_eq!(
        p.add_attribute("/d/service0001/char0002", UUID::B16(1), CharPropFlags::from_bits(READ)),
        Ok(())
    );
    assert_eq!(
        p.add_attribute("/e/service0002", UUID::B128(9), CharPropFlags::from_bits(NOTIFY)),
        Ok(())
    );
    assert_eq!(p.build_characteristic_ranges(), Ok(()));
    assert_eq!(
        p.characteristics(),
        vec![Characteristic {
            start_handle: 2,
            end_handle: 65535,
            value_handle: 2,
            uuid: UUID::B128(9),
            properties: CharPropFlags::from_bits(NOTIFY),
        }]
    );
    let anchor = range(2, 2, 0, 0);
    assert_eq!(p.read(&anchor).unwrap().path, "/e/service0002");
}

#[test]
fn a_malformed_path_registers_nothing() {
    let mut p = device();
    assert_eq!(
        p.add_attribute(DEVICE, UUID::B16(1), CharPropFlags::from_bits(READ)),
        Err(Error::InvalidPath)
    );
    assert_eq!(p.build_characteristic_ranges(), Ok(()));
    assert_eq!(p.characteristics(), vec![]);
}

#[test]
fn registry_lookup_and_replacement() {
    let mut registry = AttributeRegistry::new();
    let flags = CharPropFlags::from_bits(READ);
    let first = Handle { typ: AttributeType::Characteristic, handle: 7 };
    assert_eq!(registry.insert("/a/char0007", first, UUID::B16(1), flags), None);
    assert!(registry.get(6).is_none());
    assert_eq!(registry.get(7).unwrap().path, "/a/char0007");
    let second = Handle { typ: AttributeType::Service, handle: 7 };
    let previous = registry.insert("/b/service0007", second, UUID::B16(2), flags).unwrap();
    assert_eq!(previous.path, "/a/char0007");
    assert_eq!(previous.handle, first);
    let kept = registry.get(7).unwrap();
    assert_eq!(kept.path, "/b/service0007");
    assert_eq!(kept.handle, second);
    assert_eq!(
        kept.characteristic,
        Characteristic {
            start_handle: 0,
            end_handle: 0,
            value_handle: 7,
            uuid: UUID::B16(2),
            properties: flags,
        }
    );
}

#[test]
fn registry_finds_the_least_matching_handle() {
    let mut registry = AttributeRegistry::new();
    let flags = CharPropFlags::from_bits(READ);
    for h in [9u16, 3, 12, 5, 7] {
        let handle = Handle { typ: AttributeType::Descriptor, handle: h };
        let uuid = if h == 3 || h == 9 { UUID::B16(1) } else { UUID::B16(2) };
        assert_eq!(registry.insert(&format!("/d/desc{:04x}", h), handle, uuid, flags), None);
    }
    assert_eq!(registry.find(UUID::B16(2), 0, 65535).unwrap().handle.handle, 5);
    assert_eq!(registry.find(UUID::B16(2), 6, 65535).unwrap().handle.handle, 7);
    assert_eq!(registry.find(UUID::B16(2), 8, 12).unwrap().handle.handle, 12);
    assert_eq!(registry.find(UUID::B16(1), 4, 9).unwrap().handle.handle, 9);
    assert!(registry.find(UUID::B16(1), 4, 8).is_none());
    assert!(registry.find(UUID::B16(3), 0, 65535).is_none());
    assert!(registry.find(UUID::B16(2), 13, 12).is_none());
}

#[test]
fn flags_contain_their_bits() {
    let flags = CharPropFlags::from_bits(READ | NOTIFY);
    assert!(flags.contains(READ));
    assert!(flags.contains(NOTIFY));
    assert!(flags.contains(READ | NOTIFY));
    assert!(!flags.contains(0x08));
    assert!(flags.contains(0));
}
