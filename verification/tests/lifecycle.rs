use bluez_peripheral::peripheral::{ChangeOutcome, Peripheral, ProxyTarget};
use bluez_peripheral::properties::{
    blob_fits, decode, find_value, manufacturer_blob, narrow, pair_items, ListItem,
    ManufacturerEntry, PeripheralProperties, Property, PropertyChanges, PropertyValue,
};
use bluez_peripheral::state::{
    await_connected, connect_after, select_range, ConnectStep, DiscoverStep, PeripheralState,
};
use bluez_peripheral::text::{chars_of, same_text, starts_with};
use bluez_peripheral::types::{
    AddressType, BDAddr, CharPropFlags, Characteristic, Error, TransportError, READ, UUID,
};

const DEVICE: &str = "/org/bluez/hci0/dev_AA_BB_CC_DD_EE_FF";

const ADDRESS: BDAddr = BDAddr { address: [0xFF, 0xEE, 0xDD, 0xCC, 0xBB, 0xAA] };

fn device() -> Peripheral {
    Peripheral::new(DEVICE, ADDRESS)
}

fn nothing() -> PropertyChanges {
    PropertyChanges {
        connected: None,
        name: None,
        services_resolved: None,
        manufacturer_data: None,
        address_type: None,
        rssi: None,
    }
}

fn unreadable() -> PropertyValue {
    PropertyValue { unsigned: None, signed: None, text: None, items: None }
}

fn id_item(id: u64) -> ListItem {
    ListItem { unsigned: Some(id), numbers: None }
}

fn payload_item(data: &[u64]) -> ListItem {
    ListItem { unsigned: None, numbers: Some(data.to_vec()) }
}

fn flag(key: &str, value: bool) -> Property {
    let n = if value { 1 } else { 0 };
    Property {
        key: key.to_string(),
        value: PropertyValue { unsigned: Some(n), signed: Some(n as i64), ..unreadable() },
    }
}

fn number(key: &str, value: i64) -> Property {
    Property {
        key: key.to_string(),
        value: PropertyValue { unsigned: Some(value as u64), signed: Some(value), ..unreadable() },
    }
}

fn text(key: &str, value: &str) -> Property {
    Property {
        key: key.to_string(),
        value: PropertyValue { text: Some(value.to_string()), ..unreadable() },
    }
}

fn dictionary(key: &str, entries: Vec<ManufacturerEntry>) -> Property {
    let mut items = Vec::new();
    for entry in entries {
        items.push(id_item(entry.id));
        items.push(payload_item(&entry.data));
    }
    Property { key: key.to_string(), value: PropertyValue { items: Some(items), ..unreadable() } }
}

fn garbled(key: &str) -> Property {
    Property { key: key.to_string(), value: unreadable() }
}

fn connected(value: bool) -> Vec<Property> {
    vec![flag("Connected", value)]
}

fn resolved(value: bool) -> Vec<Property> {
    vec![flag("ServicesResolved", value)]
}

fn failure(name: &str) -> TransportError {
    TransportError { name: Some(name.to_string()), message: Some("no".to_string()) }
}

fn anchor(start: u16, end: u16) -> Characteristic {
    Characteristic {
        start_handle: start,
        end_handle: end,
        value_handle: start,
        uuid: UUID::B16(0),
        properties: CharPropFlags::from_bits(0),
    }
}

fn target(path: &str) -> ProxyTarget {
    ProxyTarget { destination: "org.bluez".to_string(), path: path.to_string(), timeout_secs: 30 }
}

#[test]
fn a_new_peripheral_is_not_connected_and_knows_only_its_address() {
    let p = device();
    assert_eq!(p.address(), ADDRESS);
    assert_eq!(p.state(), PeripheralState::NotConnected);
    assert!(!p.is_connected());
    assert_eq!(p.characteristics(), vec![]);
    assert_eq!(p.listen_token(), None);
    assert_eq!(
        p.properties(),
        PeripheralProperties {
            address: ADDRESS,
            address_type: AddressType::Public,
            local_name: None,
            tx_power_level: None,
            manufacturer_data: None,
            discovery_count: 0,
        }
    );
    assert_eq!(p.proxy(), target(DEVICE));
    assert_eq!(AddressType::default(), AddressType::Public);
}

#[test]
fn connect_succeeds_at_once_when_already_connected() {
    let p = device();
    let step = p.connect(Err(failure("org.bluez.Error.AlreadyConnected")), 5);
    assert_eq!(step, ConnectStep::Finished(Ok(())));
}

#[test]
fn connect_fails_when_the_sink_reports_failure() {
    let p = device();
    let step = p.connect(Err(failure("org.bluez.Error.Failed")), 5);
    assert_eq!(step, ConnectStep::Finished(Err(Error::NotConnected)));
}

#[test]
fn connect_hands_on_any_other_failure() {
    let p = device();
    let e = failure("org.freedesktop.DBus.Error.NoReply");
    assert_eq!(
        p.connect(Err(e.clone()), 5),
        ConnectStep::Finished(Err(Error::Transport(e)))
    );
    let nameless = TransportError { name: None, message: None };
    assert_eq!(
        p.connect(Err(nameless.clone()), 5),
        ConnectStep::Finished(Err(Error::Transport(nameless)))
    );
}

#[test]
fn connect_waits_for_the_rest_of_its_budget() {
    let p = device();
    assert_eq!(p.connect(Ok(()), 0), ConnectStep::Wait(30_000_000_000));
    assert_eq!(p.connect(Ok(()), 1_500_000_000), ConnectStep::Wait(28_500_000_000));
    assert_eq!(p.await_connected(29_999_999_999), ConnectStep::Wait(1));
}

#[test]
fn connect_times_out_and_leaves_the_state() {
    let p = device();
    assert_eq!(p.await_connected(30_000_000_000), ConnectStep::Finished(Err(Error::TimedOut(30))));
    assert_eq!(p.connect(Ok(()), u64::MAX), ConnectStep::Finished(Err(Error::TimedOut(30))));
    assert_eq!(p.state(), PeripheralState::NotConnected);
}

#[test]
fn connect_returns_once_the_connection_is_reported() {
    let mut p = device();
    assert_eq!(p.connect(Ok(()), 10), ConnectStep::Wait(29_999_999_990));
    assert!(p.update_properties(&connected(true)));
    assert_eq!(p.state(), PeripheralState::Connected);
    assert_eq!(p.await_connected(20), ConnectStep::Finished(Ok(())));
    assert_eq!(p.await_connected(u64::MAX), ConnectStep::Finished(Ok(())));
    assert_eq!(p.connect(Ok(()), 0), ConnectStep::Finished(Ok(())));
}

#[test]
fn the_free_decisions_agree_with_the_methods() {
    assert_eq!(await_connected(PeripheralState::ServicesResolved, 0), ConnectStep::Finished(Ok(())));
    assert_eq!(
        connect_after(PeripheralState::Connected, Err(failure("org.bluez.Error.Failed")), 0),
        ConnectStep::Finished(Err(Error::NotConnected))
    );
    assert_eq!(connect_after(PeripheralState::NotConnected, Ok(()), 7), ConnectStep::Wait(29_999_999_993));
}

#[test]
fn the_state_follows_the_reports() {
    let mut p = device();
    assert!(p.update_properties(&connected(true)));
    assert_eq!(p.state(), PeripheralState::Connected);
    assert!(p.update_properties(&resolved(false)));
    assert_eq!(p.state(), PeripheralState::Connected);
    assert!(p.update_properties(&resolved(true)));
    assert_eq!(p.state(), PeripheralState::ServicesResolved);
    assert!(p.update_properties(&connected(true)));
    assert_eq!(p.state(), PeripheralState::ServicesResolved);
    assert!(p.is_connected());
    assert!(p.update_properties(&connected(false)));
    assert_eq!(p.state(), PeripheralState::NotConnected);
    assert!(!p.update_properties(&vec![]));
    assert_eq!(p.state(), PeripheralState::NotConnected);
    assert_eq!(p.properties().discovery_count, 6);
    assert_eq!(p.discovery_count(), 6);
}

#[test]
fn one_batch_reports_connection_first_and_services_second() {
    let mut p = device();
    let both = vec![flag("ServicesResolved", true), flag("Connected", false)];
    assert!(p.update_properties(&both));
    assert_eq!(p.state(), PeripheralState::ServicesResolved);
    assert_eq!(PeripheralState::Connected.on_connected(false), PeripheralState::NotConnected);
    assert_eq!(PeripheralState::NotConnected.on_connected(true), PeripheralState::Connected);
    assert_eq!(
        PeripheralState::Connected.on_services_resolved(true),
        PeripheralState::ServicesResolved
    );
    assert!(PeripheralState::NotConnected < PeripheralState::Connected);
    assert!(PeripheralState::Connected < PeripheralState::ServicesResolved);
}

#[test]
fn manufacturer_data_is_stored_with_a_little_endian_id() {
    let mut p = device();
    let batch = vec![dictionary(
        "ManufacturerData",
        vec![ManufacturerEntry { id: 0x1234, data: vec![0xAA, 0xBB] }],
    )];
    assert!(!p.update_properties(&batch));
    assert_eq!(p.properties().manufacturer_data, Some(vec![0x34, 0x12, 0xAA, 0xBB]));
}

#[test]
fn manufacturer_entries_are_concatenated_in_order() {
    let entries = vec![
        ManufacturerEntry { id: 0x004C, data: vec![1, 2, 3] },
        ManufacturerEntry { id: 0xFF00, data: vec![] },
        ManufacturerEntry { id: 0x0001, data: vec![9] },
    ];
    assert!(blob_fits(&entries));
    assert_eq!(manufacturer_blob(&entries), vec![0x4C, 0x00, 1, 2, 3, 0x00, 0xFF, 0x01, 0x00, 9]);
    assert_eq!(manufacturer_blob(&vec![]), Vec::<u8>::new());
    let wide = vec![ManufacturerEntry { id: 0x1_ABCD, data: vec![0x1FF, 256, u64::MAX] }];
    assert_eq!(manufacturer_blob(&wide), vec![0xCD, 0xAB, 0xFF, 0x00, 0xFF]);
}

#[test]
fn an_empty_manufacturer_report_stores_an_empty_blob() {
    let mut p = device();
    p.update_properties(&vec![dictionary("ManufacturerData", vec![])]);
    assert_eq!(p.properties().manufacturer_data, Some(vec![]));
    p.update_properties(&vec![garbled("ManufacturerData")]);
    assert_eq!(p.properties().manufacturer_data, Some(vec![]));
    assert_eq!(p.properties().discovery_count, 2);
}

#[test]
fn each_key_replaces_its_field() {
    let mut p = device();
    let batch = vec![
        number("RSSI", -60),
        text("Alias", "ignored"),
        text("Name", "Thermometer"),
        text("AddressType", "random"),
    ];
    assert!(!p.update_properties(&batch));
    assert_eq!(
        p.properties(),
        PeripheralProperties {
            address: ADDRESS,
            address_type: AddressType::Random,
            local_name: Some("Thermometer".to_string()),
            tx_power_level: Some(-60),
            manufacturer_data: None,
            discovery_count: 1,
        }
    );
    assert!(!p.apply(&nothing()));
    assert_eq!(p.properties().local_name, Some("Thermometer".to_string()));
    assert_eq!(p.properties().address_type, AddressType::Random);
    assert_eq!(p.properties().tx_power_level, Some(-60));
    assert_eq!(p.properties().discovery_count, 2);
}

#[test]
fn unreadable_values_fall_back() {
    let mut p = device();
    let first = vec![text("Name", "x"), text("AddressType", "random"), number("RSSI", 1)];
    p.update_properties(&first);
    let second = vec![number("Name", 5), text("AddressType", "static"), text("RSSI", "loud")];
    p.update_properties(&second);
    assert_eq!(p.properties().local_name, None);
    assert_eq!(p.properties().address_type, AddressType::Public);
    assert_eq!(p.properties().tx_power_level, None);
    p.update_properties(&first);
    p.update_properties(&vec![garbled("AddressType")]);
    assert_eq!(p.properties().address_type, AddressType::Public);
    assert_eq!(p.properties().local_name, Some("x".to_string()));
    let typed = PropertyChanges { name: Some(None), rssi: Some(Some(200)), ..nothing() };
    assert!(!p.apply(&typed));
    assert_eq!(p.properties().local_name, None);
    assert_eq!(p.properties().tx_power_level, Some(-56));
}

#[test]
fn address_types_by_name() {
    assert_eq!(AddressType::from_str("public"), Some(AddressType::Public));
    assert_eq!(AddressType::from_str("random"), Some(AddressType::Random));
    assert_eq!(AddressType::from_str("Random"), None);
    assert_eq!(AddressType::from_str(""), None);
}

#[test]
fn signal_strength_keeps_its_low_eight_bits() {
    assert_eq!(narrow(-60), -60);
    assert_eq!(narrow(0), 0);
    assert_eq!(narrow(127), 127);
    assert_eq!(narrow(128), -128);
    assert_eq!(narrow(200), -56);
    assert_eq!(narrow(256), 0);
    assert_eq!(narrow(-128), -128);
    assert_eq!(narrow(-129), 127);
    assert_eq!(narrow(i64::MAX), -1);
    assert_eq!(narrow(i64::MIN), 0);
    for v in [-70000i64, -300, -1, 5, 255, 1000, 123456789] {
        assert_eq!(narrow(v), v as i8);
    }
}

#[test]
fn discovery_fails_while_not_connected() {
    let p = device();
    assert_eq!(
        p.discover_characteristics_in_range(1, 0xFFFF),
        DiscoverStep::Finished(Err(Error::NotConnected))
    );
    assert_eq!(p.discover_characteristics(), DiscoverStep::Finished(Err(Error::NotConnected)));
}

#[test]
fn discovery_waits_until_services_are_resolved() {
    let mut p = device();
    for path in ["/d/service0001", "/d/service0001/char0002", "/d/service0001/char0004"] {
        assert_eq!(p.add_attribute(path, UUID::B16(1), CharPropFlags::from_bits(READ)), Ok(()));
    }
    p.update_properties(&connected(true));
    assert_eq!(p.discover_characteristics(), DiscoverStep::Wait);
    p.update_properties(&resolved(true));
    let all = p.characteristics();
    assert_eq!(all.len(), 3);
    assert_eq!(p.discover_characteristics(), DiscoverStep::Finished(Ok(all.clone())));
    assert_eq!(
        p.discover_characteristics_in_range(2, 3),
        DiscoverStep::Finished(Ok(vec![all[1]]))
    );
    assert_eq!(
        p.discover_characteristics_in_range(2, 4),
        DiscoverStep::Finished(Ok(vec![all[1], all[2]]))
    );
    assert_eq!(p.discover_characteristics_in_range(5, 9), DiscoverStep::Finished(Ok(vec![])));
    assert_eq!(p.discover_characteristics_in_range(4, 2), DiscoverStep::Finished(Ok(vec![])));
    assert_eq!(select_range(&all, 1, 1), vec![all[0]]);
}

#[test]
fn discovery_fails_after_a_disconnect() {
    let mut p = device();
    p.update_properties(&connected(true));
    assert_eq!(p.discover_characteristics(), DiscoverStep::Wait);
    p.update_properties(&connected(false));
    assert_eq!(p.discover_characteristics(), DiscoverStep::Finished(Err(Error::NotConnected)));
}

#[test]
fn the_set_is_kept_over_a_disconnect_and_rebuilt_on_resolution() {
    let mut p = device();
    assert_eq!(p.add_attribute("/d/service0001", UUID::B16(1), CharPropFlags::from_bits(READ)), Ok(()));
    p.update_properties(&resolved(true));
    assert_eq!(p.characteristics().len(), 1);
    assert_eq!(p.add_attribute("/d/service0005", UUID::B16(2), CharPropFlags::from_bits(READ)), Ok(()));
    p.update_properties(&connected(false));
    p.update_properties(&resolved(false));
    assert_eq!(p.characteristics().len(), 1);
    assert_eq!(p.characteristics()[0].end_handle, 0xFFFF);
    p.update_properties(&resolved(true));
    assert_eq!(p.characteristics().len(), 2);
    assert_eq!(p.characteristics()[0].end_handle, 4);
}

#[test]
fn read_and_write_need_a_registered_attribute() {
    let mut p = device();
    assert_eq!(p.read(&anchor(2, 2)), Err(Error::NotSupported("read".to_string())));
    assert_eq!(
        p.command(&anchor(2, 2)),
        Err(Error::NotSupported("write_without_response".to_string()))
    );
    assert_eq!(p.proxy_for(&anchor(2, 2)), None);
    assert_eq!(
        p.add_attribute("/d/service0001/char0002", UUID::B16(1), CharPropFlags::from_bits(READ)),
        Ok(())
    );
    assert_eq!(p.read(&anchor(2, 2)), Ok(target("/d/service0001/char0002")));
    assert_eq!(p.command(&anchor(2, 9)), Ok(target("/d/service0001/char0002")));
    assert_eq!(p.proxy_for(&anchor(2, 0)), Some(target("/d/service0001/char0002")));
    assert_eq!(p.read(&anchor(3, 3)), Err(Error::NotSupported("read".to_string())));
}

#[test]
fn read_by_type_needs_a_match_in_range() {
    let mut p = device();
    let flags = CharPropFlags::from_bits(READ);
    assert_eq!(p.add_attribute("/d/service0001/char0002", UUID::B16(0x2a19), flags), Ok(()));
    assert_eq!(p.add_attribute("/d/service0001/char0006", UUID::B16(0x2a19), flags), Ok(()));
    assert_eq!(p.add_attribute("/d/service0001/char0004", UUID::B16(0x2a00), flags), Ok(()));
    let missing = Err(Error::NotSupported("read_by_type".to_string()));
    assert_eq!(p.read_by_type(&anchor(1, 0xFFFF), UUID::B16(0x2a01)), missing);
    assert_eq!(p.read_by_type(&anchor(7, 0xFFFF), UUID::B16(0x2a19)), missing);
    assert_eq!(p.read_by_type(&anchor(3, 5), UUID::B16(0x2a19)), missing);
    assert_eq!(p.read_by_type(&anchor(1, 0xFFFF), UUID::B128(0x2a19)), missing);
    assert_eq!(
        p.read_by_type(&anchor(1, 0xFFFF), UUID::B16(0x2a19)),
        Ok(target("/d/service0001/char0002"))
    );
    assert_eq!(
        p.read_by_type(&anchor(3, 6), UUID::B16(0x2a19)),
        Ok(target("/d/service0001/char0006"))
    );
    assert_eq!(
        p.read_by_type(&anchor(4, 4), UUID::B16(0x2a00)),
        Ok(target("/d/service0001/char0004"))
    );
}

#[test]
fn stopping_twice_is_harmless() {
    let mut p = device();
    assert_eq!(p.listen(Ok(17)), Ok(()));
    assert_eq!(p.listen_token(), Some(17));
    assert_eq!(p.stop_listening(Ok(())), Ok(()));
    assert_eq!(p.listen_token(), None);
    assert_eq!(p.stop_listening(Ok(())), Ok(()));
    assert_eq!(p.listen_token(), None);
    assert_eq!(p.stop_listening(Err(failure("org.freedesktop.DBus.Error.Failed"))), Ok(()));
    assert_eq!(p.listen_token(), None);
}

#[test]
fn a_failed_removal_keeps_the_subscription() {
    let mut p = device();
    let rule = p.subscription();
    assert_eq!(rule.path, DEVICE);
    assert!(rule.path_is_namespace);
    let e = failure("org.freedesktop.DBus.Error.Disconnected");
    assert_eq!(p.listen(Err(e.clone())), Err(Error::Transport(e.clone())));
    assert_eq!(p.listen_token(), None);
    assert_eq!(p.listen(Ok(3)), Ok(()));
    assert_eq!(p.stop_listening(Err(e.clone())), Err(Error::Transport(e)));
    assert_eq!(p.listen_token(), Some(3));
    assert_eq!(p.listen(Ok(4)), Ok(()));
    assert_eq!(p.listen_token(), Some(4));
}

#[test]
fn batches_are_sorted_by_their_path() {
    let mut p = device();
    let gone = vec!["RSSI".to_string(), "TxPower".to_string()];
    assert_eq!(
        p.properties_changed("/org/bluez/hci0/dev_11_22_33_44_55_66", &connected(true), &vec![]),
        ChangeOutcome::Foreign
    );
    assert_eq!(p.properties_changed("/org/bluez/hci0", &connected(true), &vec![]), ChangeOutcome::Foreign);
    let attribute = "/org/bluez/hci0/dev_AA_BB_CC_DD_EE_FF/service000a/char000b";
    match p.properties_changed(attribute, &connected(true), &gone) {
        ChangeOutcome::Attribute(h) => assert_eq!(h.handle, 11),
        other => panic!("{:?}", other),
    }
    assert_eq!(p.state(), PeripheralState::NotConnected);
    assert_eq!(p.properties().discovery_count, 0);
    assert_eq!(
        p.properties_changed(DEVICE, &connected(true), &gone),
        ChangeOutcome::Updated { wake: true, unapplied: 2 }
    );
    assert_eq!(p.state(), PeripheralState::Connected);
    assert_eq!(p.properties().discovery_count, 1);
    let below = "/org/bluez/hci0/dev_AA_BB_CC_DD_EE_FF/player0";
    let named = vec![text("Name", "n")];
    assert_eq!(
        p.properties_changed(below, &named, &vec![]),
        ChangeOutcome::Updated { wake: false, unapplied: 0 }
    );
    assert_eq!(p.properties().local_name, Some("n".to_string()));
    assert_eq!(p.properties().discovery_count, 2);
}

#[test]
fn a_batch_is_read_by_its_keys() {
    let batch = vec![
        text("Connected", "yes"),
        flag("connected", true),
        number("ServicesResolved", 7),
        flag("ServicesResolved", false),
        number("RSSI", -300),
        garbled("Name"),
        dictionary("ManufacturerData", vec![ManufacturerEntry { id: 1, data: vec![2] }]),
        text("Modalias", "usb:v1D6Bp0246d0540"),
    ];
    assert_eq!(
        decode(&batch),
        PropertyChanges {
            connected: None,
            name: Some(None),
            services_resolved: Some(true),
            manufacturer_data: Some(vec![ManufacturerEntry { id: 1, data: vec![2] }]),
            address_type: None,
            rssi: Some(Some(-300)),
        }
    );
    assert_eq!(decode(&vec![]), nothing());
    assert!(decode(&batch).encodable());
    assert_eq!(find_value(&batch, "RSSI"), Some(&batch[4].value));
    assert_eq!(find_value(&batch, "ServicesResolved"), Some(&batch[2].value));
    assert_eq!(find_value(&batch, "Rssi"), None);
}

#[test]
fn dictionary_items_pair_up() {
    assert_eq!(pair_items(&vec![]), Some(vec![]));
    assert_eq!(pair_items(&vec![id_item(7)]), Some(vec![]));
    assert_eq!(
        pair_items(&vec![id_item(7), payload_item(&[1, 2]), id_item(8), payload_item(&[])]),
        Some(vec![
            ManufacturerEntry { id: 7, data: vec![1, 2] },
            ManufacturerEntry { id: 8, data: vec![] },
        ])
    );
    assert_eq!(
        pair_items(&vec![id_item(7), payload_item(&[1, 2]), id_item(8)]),
        Some(vec![ManufacturerEntry { id: 7, data: vec![1, 2] }])
    );
    assert_eq!(pair_items(&vec![id_item(7), id_item(8)]), None);
    assert_eq!(pair_items(&vec![payload_item(&[1]), payload_item(&[2])]), None);
    assert_eq!(
        pair_items(&vec![id_item(7), payload_item(&[1]), id_item(8), id_item(9)]),
        None
    );
}

#[test]
fn malformed_manufacturer_data_is_passed_over() {
    let mut p = device();
    p.update_properties(&vec![dictionary(
        "ManufacturerData",
        vec![ManufacturerEntry { id: 1, data: vec![2] }],
    )]);
    let malformed = Property {
        key: "ManufacturerData".to_string(),
        value: PropertyValue { items: Some(vec![id_item(7), id_item(8)]), ..unreadable() },
    };
    assert!(!p.update_properties(&vec![malformed, text("Name", "kept")]));
    assert_eq!(p.properties().manufacturer_data, Some(vec![1, 0, 2]));
    assert_eq!(p.properties().local_name, Some("kept".to_string()));
    assert_eq!(p.properties().discovery_count, 2);
}

#[test]
fn an_unreadable_connection_report_is_passed_over() {
    let mut p = device();
    p.update_properties(&connected(true));
    assert!(!p.update_properties(&vec![text("Connected", "no")]));
    assert_eq!(p.state(), PeripheralState::Connected);
    assert!(p.update_properties(&vec![number("Connected", 0)]));
    assert_eq!(p.state(), PeripheralState::NotConnected);
    assert!(p.update_properties(&vec![number("Connected", 2)]));
    assert_eq!(p.state(), PeripheralState::Connected);
}

#[test]
fn the_summary_names_address_name_and_connection() {
    let mut p = device();
    assert_eq!(ADDRESS.to_text(), "AA:BB:CC:DD:EE:FF");
    assert_eq!(BDAddr { address: [0x01, 0x20, 0x0A, 0xB0, 0x9F, 0x00] }.to_text(), "00:9F:B0:0A:20:01");
    assert_eq!(p.summary(), "AA:BB:CC:DD:EE:FF (unknown)");
    p.update_properties(&vec![text("Name", "Thermometer"), flag("Connected", true)]);
    assert_eq!(p.summary(), "AA:BB:CC:DD:EE:FF Thermometer connected");
    p.update_properties(&resolved(true));
    assert_eq!(p.summary(), "AA:BB:CC:DD:EE:FF Thermometer connected");
    p.update_properties(&connected(false));
    assert_eq!(p.summary(), "AA:BB:CC:DD:EE:FF Thermometer");
}

#[test]
fn text_helpers() {
    assert_eq!(chars_of("a/é"), vec!['a', '/', 'é']);
    assert!(same_text("abc", "abc"));
    assert!(!same_text("abc", "abd"));
    assert!(!same_text("abc", "ab"));
    assert!(same_text("", ""));
    assert!(starts_with("abc", ""));
    assert!(starts_with("abc", "ab"));
    assert!(starts_with("abc", "abc"));
    assert!(!starts_with("abc", "abcd"));
    assert!(!starts_with("abc", "b"));
}
