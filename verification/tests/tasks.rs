//! Device task helpers: built-in-test maintenance, configuration commands,
//! the scan list, subscribers, the drive base, and the advertisement.

use mote::configuration::host_to_mote::{Message, SetNetworkConnectionConfig, SetUID};
use mote::configuration::mote_to_host::{BITResult, NetworkConnection};
use mote::helpers::{bytes_eq, update_bit_result, waiting_bits};
use mote::remap;
use mote::tasks::drive_base::{DutySetting, MotorBrakeMode, MotorDirection, PwmBridge};
use mote::tasks::initial_configuration_state;
use mote::tasks::usb_serial::{handle_host_message, ConfigAction};
use mote::tasks::wifi::connection_manager::{
    join_mode, join_verdict, note_scan_result, scan_ssid_usable, JoinMode, JoinVerdict,
};
use mote::tasks::wifi::mdns::mdns_advertisement;
use mote::tasks::wifi::udp_server::{Endpoint, SubscriberRegistry};

#[test]
fn bytes_eq_compares_contents() {
    assert!(bytes_eq(b"Init", b"Init"));
    assert!(!bytes_eq(b"Init", b"init"));
    assert!(!bytes_eq(b"Init", b"Ini"));
}

#[test]
fn waiting_bits_and_update() {
    let names = vec![b"Init".to_vec(), b"Check Health".to_vec(), b"Receiving Data".to_vec()];
    let mut bits = waiting_bits(&names);
    assert_eq!(bits.len(), 3);
    assert!(bits.iter().all(|b| b.result == BITResult::Waiting));

    update_bit_result(&mut bits, b"Check Health", BITResult::Pass);
    assert_eq!(bits[0].result, BITResult::Waiting);
    assert_eq!(bits[1].result, BITResult::Pass);
    assert_eq!(bits[2].result, BITResult::Waiting);
    assert_eq!(bits[1].name, b"Check Health".to_vec());
}

#[test]
fn host_messages_update_state_or_route_onward() {
    let mut state = initial_configuration_state(b"mote-:3".to_vec());

    let action = handle_host_message(
        &mut state,
        Message::SetUID(SetUID { uid: b"mote-:9".to_vec() }),
    );
    assert_eq!(action, ConfigAction::UpdatedUid);
    assert_eq!(state.uid, b"mote-:9".to_vec());

    let config = SetNetworkConnectionConfig { ssid: b"lab".to_vec(), password: b"pw".to_vec() };
    let action = handle_host_message(&mut state, Message::SetNetworkConnectionConfig(config));
    match action {
        ConfigAction::RequestConnect(c) => {
            assert_eq!(c.ssid, b"lab".to_vec());
            assert_eq!(c.password, b"pw".to_vec());
        },
        other => panic!("unexpected action {other:?}"),
    }
    assert_eq!(state.uid, b"mote-:9".to_vec());

    let action = handle_host_message(&mut state, Message::RequestNetworkScan);
    assert_eq!(action, ConfigAction::RequestRescan);
}

#[test]
fn join_policy() {
    let secured = SetNetworkConnectionConfig { ssid: b"lab".to_vec(), password: b"12345678".to_vec() };
    let open = SetNetworkConnectionConfig { ssid: b"lab".to_vec(), password: b"1234567".to_vec() };
    assert_eq!(join_mode(&secured), JoinMode::Secured);
    assert_eq!(join_mode(&open), JoinMode::Open);

    assert_eq!(join_verdict(true, 1), JoinVerdict::Joined);
    assert_eq!(join_verdict(false, 1), JoinVerdict::Retry);
    assert_eq!(join_verdict(false, 2), JoinVerdict::Retry);
    assert_eq!(join_verdict(false, 3), JoinVerdict::GiveUp);
}

#[test]
fn scan_list_rules() {
    assert!(!scan_ssid_usable(&[0, 0, 0]));
    assert!(!scan_ssid_usable(&[]));
    assert!(scan_ssid_usable(&[0, 1, 0]));

    let mut list: Vec<NetworkConnection> = Vec::new();
    note_scan_result(&mut list, b"lab".to_vec(), 70);
    note_scan_result(&mut list, b"guest".to_vec(), 50);
    assert_eq!(list.len(), 2);

    // A repeated network keeps one entry at its strongest strength seen.
    note_scan_result(&mut list, b"lab".to_vec(), 40);
    assert_eq!(list.len(), 2);
    assert_eq!(list[0].strength, 40);
    note_scan_result(&mut list, b"lab".to_vec(), 90);
    assert_eq!(list[0].strength, 40);

    // Beyond the cap, a strong newcomer displaces the weakest entry.
    let mut crowd: Vec<NetworkConnection> = (0..51u8)
        .map(|i| NetworkConnection { ssid: vec![b'n', i], strength: 100 + (i % 10) })
        .collect();
    note_scan_result(&mut crowd, b"fresh".to_vec(), 10);
    assert_eq!(crowd.len(), 51);
    assert!(crowd.iter().any(|n| n.ssid == b"fresh".to_vec()));

    // A weak newcomer is appended without displacing anyone.
    let mut crowd2: Vec<NetworkConnection> = (0..51u8)
        .map(|i| NetworkConnection { ssid: vec![b'm', i], strength: 20 })
        .collect();
    note_scan_result(&mut crowd2, b"weak".to_vec(), 200);
    assert_eq!(crowd2.len(), 52);
}

#[test]
fn subscriber_registry_deduplicates() {
    let mut reg = SubscriberRegistry::new();
    let a = Endpoint { addr: 0xC0A80101, port: 4000 };
    let b = Endpoint { addr: 0xC0A80102, port: 4000 };
    reg.register(a);
    reg.register(b);
    reg.register(a);
    assert_eq!(reg.len(), 2);
    assert_eq!(reg.get(0), a);
    assert_eq!(reg.get(1), b);
    reg.remove(0);
    assert_eq!(reg.len(), 1);
    assert_eq!(reg.get(0), b);
}

#[test]
fn remap_scales_percentages() {
    assert_eq!(remap(0, 100, 200), 100);
    assert_eq!(remap(50, 100, 200), 150);
    assert_eq!(remap(100, 100, 200), 200);
    assert_eq!(remap(33, 0, 1000), 330);
    // Values above 100 percent saturate at the top of the range.
    assert_eq!(remap(255, 0, u16::MAX), u16::MAX);
    // An inverted range walks downward and is clamped at zero.
    assert_eq!(remap(50, 10, 0), 5);
}

#[test]
fn bridge_commands() {
    let bridge = PwmBridge::new(0, 1000);
    assert_eq!(bridge.forward(50).a1, DutySetting::Cycle(500));
    assert_eq!(bridge.forward(50).a2, DutySetting::FullyOff);
    assert_eq!(bridge.reverse(10).a2, DutySetting::Cycle(100));
    assert_eq!(bridge.set(10, MotorDirection::Reverse), bridge.reverse(10));
    assert_eq!(bridge.brake(MotorBrakeMode::Coast), bridge.coast());
    assert_eq!(bridge.brake(MotorBrakeMode::Brake), bridge.stop());
    assert_eq!(bridge.coast().a1, DutySetting::FullyOff);
    assert_eq!(bridge.stop().a1, DutySetting::FullyOn);
}

#[test]
fn advertisement_parameters() {
    let ad = mdns_advertisement();
    assert_eq!(ad.hostname, "mote");
    assert_eq!(ad.service, "_mote");
    assert_eq!(ad.protocol, "_tcp");
    assert_eq!(ad.port, 7465);
    assert_eq!(ad.ttl_secs, 60);
}

#[test]
fn initial_state_is_empty_but_for_uid() {
    let s = initial_configuration_state(b"mote-:3".to_vec());
    assert_eq!(s.uid, b"mote-:3".to_vec());
    assert!(s.ip.is_none());
    assert!(s.current_network_connection.is_none());
    assert!(s.available_network_connections.is_empty());
    assert!(s.built_in_test.wifi.is_empty());
    assert!(s.built_in_test.power.is_empty());
}
