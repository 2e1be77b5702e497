use atvvoice::atvv::DeviceConnectionEvent;
use atvvoice::ble::{
    advertises_atvv, connection_event, device_filter, filter_of, first_atvv_service,
    is_atvv_service, is_candidate, select_chars, should_skip, Address, CharPlace, DeviceSearch, ExcludedDevices, HandshakeStep, InvalidAddress,
    MissingChar, NotifyChar, VendorScan, ATVV_CHAR_CTL, ATVV_CHAR_RX, ATVV_CHAR_TX, ATVV_SERVICE,
    HANDSHAKE_DELAY_MS, NTF_ENABLE, PHILIPS_VENDOR_FF01, PHILIPS_VENDOR_FF02,
};

fn addr(last: u8) -> Address {
    Address([0xAA, 0xBB, 0xCC, 0x0D, 0x1E, last])
}

#[test]
fn uuids_of_the_service() {
    let text = |uuid: u128| bluer::Uuid::from_u128(uuid).to_string();
    assert_eq!(text(ATVV_SERVICE), "ab5e0001-5a21-4f05-bc7d-af01f617b664");
    assert_eq!(text(ATVV_CHAR_TX), "ab5e0002-5a21-4f05-bc7d-af01f617b664");
    assert_eq!(text(ATVV_CHAR_RX), "ab5e0003-5a21-4f05-bc7d-af01f617b664");
    assert_eq!(text(ATVV_CHAR_CTL), "ab5e0004-5a21-4f05-bc7d-af01f617b664");
    assert_eq!(
        text(PHILIPS_VENDOR_FF01),
        "02f00000-0000-0000-0000-00000000ff01"
    );
    assert_eq!(
        text(PHILIPS_VENDOR_FF02),
        "02f00000-0000-0000-0000-00000000ff02"
    );
    assert_eq!(&NTF_ENABLE, b"ntf_enable");
}

#[test]
fn address_as_text() {
    assert_eq!(addr(0xFF).text(), "AA:BB:CC:0D:1E:FF");
    assert_eq!(Address([0; 6]).text(), "00:00:00:00:00:00");
}

#[test]
fn text_as_address() {
    assert!(matches!(Address::parse("AA:BB:CC:0D:1E:FF"), Ok(a) if a == addr(0xFF)));
    assert!(matches!(Address::parse("aa:bb:cc:d:1e:ff"), Ok(a) if a == addr(0xFF)));
}

#[test]
fn every_address_is_read_back() {
    for byte in 0..=255u8 {
        let address = Address([byte, 255 - byte, byte ^ 0x5A, byte / 2, 0, byte]);
        assert!(matches!(Address::parse(&address.text()), Ok(a) if a == address));
    }
}

#[test]
fn text_that_is_no_address() {
    // The field that is no byte
    assert!(matches!(Address::parse("AA:BB:XX:DD:EE:FF"), Err(InvalidAddress(s)) if s == "XX"));
    // Too few fields: the whole text
    assert!(matches!(Address::parse("AA:BB"), Err(InvalidAddress(s)) if s == "AA:BB"));
    assert!(matches!(Address::parse(""), Err(InvalidAddress(_))));
    assert!(Address::parse("AA:BB:CC:DD:EE:FF:00").is_err());
    assert!(device_filter(Some("AA-BB-CC-DD-EE-FF")).is_err());
}

#[test]
fn addresses_compare_by_every_byte() {
    let zero = Address([0; 6]);
    for i in 0..6 {
        let mut bytes = [0u8; 6];
        bytes[i] = 1;
        assert!(zero != Address(bytes));
    }
    assert!(zero == Address([0; 6]));
}

#[test]
fn filter_from_the_device_option() {
    assert!(matches!(device_filter(None), Ok(None)));
    assert!(matches!(device_filter(Some("AA:BB:CC:0D:1E:01")), Ok(Some(a)) if a == addr(1)));
    assert!(matches!(device_filter(Some("remote")), Err(InvalidAddress(s)) if s == "remote"));
}

#[test]
fn filter_from_a_parsed_option() {
    assert!(matches!(filter_of(None), Ok(None)));
    assert!(matches!(filter_of(Some(Ok(addr(2)))), Ok(Some(a)) if a == addr(2)));
    let bad = InvalidAddress("x".to_string());
    assert!(matches!(filter_of(Some(Err(bad))), Err(InvalidAddress(s)) if s == "x"));
}

#[test]
fn skipped_addresses() {
    assert!(!should_skip(addr(1), None, &[]));
    assert!(should_skip(addr(1), None, &[addr(2), addr(1)]));
    assert!(!should_skip(addr(1), None, &[addr(2)]));
    assert!(!should_skip(addr(1), Some(addr(1)), &[]));
    assert!(should_skip(addr(1), Some(addr(2)), &[]));
    assert!(should_skip(addr(1), Some(addr(1)), &[addr(1)]));
}

#[test]
fn excluded_devices_hold_each_address_once() {
    let mut excluded = ExcludedDevices::new();
    excluded.insert(addr(1));
    excluded.insert(addr(2));
    excluded.insert(addr(1));
    assert_eq!(excluded.addrs.len(), 2);
    assert!(should_skip(addr(1), None, &excluded.addrs));
    assert!(should_skip(addr(2), None, &excluded.addrs));
    assert!(!should_skip(addr(3), None, &excluded.addrs));
}

#[test]
fn search_visits_known_devices_in_order() {
    let mut search = DeviceSearch::new(None, vec![addr(2)], vec![addr(1), addr(2), addr(3)]);
    assert_eq!(search.next_known(), Some(addr(1)));
    assert_eq!(search.next_known(), Some(addr(3)));
    assert_eq!(search.next_known(), None);
    assert_eq!(search.next_known(), None);
    assert!(search.wants(addr(4)));
    assert!(!search.wants(addr(2)));
}

#[test]
fn search_with_a_filter_visits_one() {
    let known = vec![addr(1), addr(2), addr(3)];
    let mut search = DeviceSearch::new(Some(addr(2)), vec![], known);
    assert_eq!(search.next_known(), Some(addr(2)));
    assert_eq!(search.next_known(), None);
    assert!(search.wants(addr(2)));
    assert!(!search.wants(addr(1)));
}

#[test]
fn devices_by_their_services() {
    assert!(!advertises_atvv(None));
    assert!(!advertises_atvv(Some(&[])));
    assert!(!advertises_atvv(Some(&[1, ATVV_CHAR_TX])));
    assert!(advertises_atvv(Some(&[1, ATVV_SERVICE, 2])));
    assert!(is_atvv_service(ATVV_SERVICE));
    assert!(!is_atvv_service(ATVV_CHAR_TX));
}

#[test]
fn characteristics_by_their_uuids() {
    let chars = select_chars(&[7, ATVV_CHAR_CTL, ATVV_CHAR_RX, 8, ATVV_CHAR_TX]).unwrap();
    assert_eq!((chars.tx, chars.rx, chars.ctl), (4, 2, 1));
    // The last one counts.
    let uuids = [ATVV_CHAR_TX, ATVV_CHAR_RX, ATVV_CHAR_CTL, ATVV_CHAR_TX];
    assert_eq!(select_chars(&uuids).unwrap().tx, 3);
}

#[test]
fn missing_characteristics() {
    let missing = |uuids: &[u128]| select_chars(uuids).err();
    assert_eq!(missing(&[]), Some(MissingChar::Tx));
    assert_eq!(
        missing(&[ATVV_CHAR_RX, ATVV_CHAR_CTL]),
        Some(MissingChar::Tx)
    );
    assert_eq!(missing(&[ATVV_CHAR_TX]), Some(MissingChar::Rx));
    assert_eq!(
        missing(&[ATVV_CHAR_TX, ATVV_CHAR_RX]),
        Some(MissingChar::Ctl)
    );
    assert_eq!(MissingChar::Tx.message(), "ATVV TX characteristic not found");
    assert_eq!(MissingChar::Rx.message(), "ATVV RX characteristic not found");
    assert_eq!(
        MissingChar::Ctl.message(),
        "ATVV CTL characteristic not found"
    );
}

#[test]
fn no_handshake_without_the_write_characteristic() {
    let mut scan = VendorScan::new();
    assert!(scan.handshake().is_empty());
    scan.visit(0, 0x1800, &[PHILIPS_VENDOR_FF02]);
    assert!(scan.handshake().is_empty());
    // The ATVV service does not count.
    assert!(!scan.wants(ATVV_SERVICE));
    scan.visit(1, ATVV_SERVICE, &[PHILIPS_VENDOR_FF01]);
    assert!(scan.handshake().is_empty());
}

#[test]
fn handshake_subscribes_then_writes_then_waits() {
    let mut scan = VendorScan::new();
    scan.visit(0, 0x1800, &[5, PHILIPS_VENDOR_FF02]);
    scan.visit(1, 0x1801, &[6]);
    assert!(scan.wants(0x1802));
    scan.visit(2, 0x1802, &[PHILIPS_VENDOR_FF01, 7]);
    assert!(!scan.wants(0x1803));
    assert_eq!(
        scan.handshake(),
        vec![
            HandshakeStep::Subscribe(CharPlace {
                service: 0,
                char: 1
            }),
            HandshakeStep::Write(CharPlace {
                service: 2,
                char: 0
            }),
            HandshakeStep::Pause(HANDSHAKE_DELAY_MS),
        ]
    );
    assert_eq!(HANDSHAKE_DELAY_MS, 500);
}

#[test]
fn handshake_without_a_notify_characteristic() {
    let mut scan = VendorScan::new();
    scan.visit(3, 0x1800, &[PHILIPS_VENDOR_FF01]);
    let place = CharPlace {
        service: 3,
        char: 0,
    };
    assert_eq!(
        scan.handshake(),
        vec![HandshakeStep::Write(place), HandshakeStep::Pause(500)]
    );
    // What comes after the write characteristic was found is not looked at.
    scan.visit(4, 0x1801, &[PHILIPS_VENDOR_FF02]);
    assert_eq!(scan.ff02, None);
}

#[test]
fn connection_changes() {
    assert_eq!(connection_event(true), None);
    assert_eq!(
        connection_event(false),
        Some(DeviceConnectionEvent::Disconnected)
    );
}

#[test]
fn notifications_that_cannot_be_acquired() {
    assert_eq!(
        NotifyChar::Ctl.failure(),
        "Failed to acquire exclusive CTL notifications. \
         Another ATVVoice instance may be connected to this device."
    );
    assert_eq!(
        NotifyChar::Rx.failure(),
        "Failed to acquire exclusive RX notifications. \
         Another ATVVoice instance may be connected to this device."
    );
}

#[test]
fn only_bonded_devices_are_taken() {
    let atvv = [1, ATVV_SERVICE];
    assert!(is_candidate(true, Some(&atvv)));
    assert!(!is_candidate(false, Some(&atvv)));
    assert!(!is_candidate(true, Some(&[1, 2])));
    assert!(!is_candidate(true, None));
    assert!(!is_candidate(false, None));
}

#[test]
fn devices_that_end_the_search() {
    let atvv = [ATVV_SERVICE];
    let search = DeviceSearch::new(None, vec![addr(2)], vec![]);
    assert!(search.accepts(addr(1), true, Some(&atvv)));
    assert!(!search.accepts(addr(1), false, Some(&atvv)));
    assert!(!search.accepts(addr(1), true, None));
    assert!(!search.accepts(addr(2), true, Some(&atvv)));
    let search = DeviceSearch::new(Some(addr(1)), vec![addr(1)], vec![]);
    assert!(!search.accepts(addr(1), true, Some(&atvv)));
    assert!(!search.accepts(addr(3), true, Some(&atvv)));
}

#[test]
fn the_first_atvv_service_counts() {
    assert_eq!(first_atvv_service(&[]), None);
    assert_eq!(first_atvv_service(&[1, ATVV_CHAR_TX]), None);
    assert_eq!(
        first_atvv_service(&[1, ATVV_SERVICE, 2, ATVV_SERVICE]),
        Some(1)
    );
}
