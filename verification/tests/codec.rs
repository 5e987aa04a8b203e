//! Codec round trips for every message variant of every channel.

use mote::codec::WireMessage;
use mote::configuration::host_to_mote as config_h2m;
use mote::configuration::mote_to_host as config_m2h;
use mote::runtime::host_to_mote as runtime_h2m;
use mote::runtime::host_to_mote::data_offload::DataOffloadSubscribeRequest;
use mote::runtime::mote_to_host::command;
use mote::runtime::mote_to_host::data_offload;

fn sample_state() -> config_m2h::State {
    config_m2h::State {
        uid: b"mote-:3".to_vec(),
        ip: Some(b"192.168.1.7".to_vec()),
        current_network_connection: Some(b"lab".to_vec()),
        available_network_connections: vec![
            config_m2h::NetworkConnection { ssid: b"lab".to_vec(), strength: 40 },
            config_m2h::NetworkConnection { ssid: b"guest".to_vec(), strength: 70 },
        ],
        built_in_test: config_m2h::BITCollection {
            wifi: vec![config_m2h::BIT { name: b"Init".to_vec(), result: config_m2h::BITResult::Pass }],
            lidar: vec![config_m2h::BIT {
                name: b"Check Health".to_vec(),
                result: config_m2h::BITResult::Waiting,
            }],
            imu: vec![],
            encoders: vec![],
            power: vec![config_m2h::BIT {
                name: b"7.5W Capable (enables WIFI)".to_vec(),
                result: config_m2h::BITResult::Fail,
            }],
        },
    }
}

#[test]
fn test_encode_decode() {
    let mote_messages = [command::Message::Ping, command::Message::PingResponse];
    for msg in &mote_messages {
        let bytes = msg.encode().unwrap();
        let recv_msg = command::Message::decode(&bytes).unwrap();
        assert_eq!(msg, &recv_msg);
    }
    let host_messages = [runtime_h2m::Message::Ping, runtime_h2m::Message::PingResponse];
    for msg in &host_messages {
        let bytes = msg.encode().unwrap();
        let recv_msg = runtime_h2m::Message::decode(&bytes).unwrap();
        assert_eq!(msg, &recv_msg);
    }
}

#[test]
fn runtime_command_variants_round_trip() {
    let msgs = [
        runtime_h2m::Message::Ping,
        runtime_h2m::Message::PingResponse,
        runtime_h2m::Message::Enable(runtime_h2m::Subsystem::Lidar),
        runtime_h2m::Message::Enable(runtime_h2m::Subsystem::Imu),
        runtime_h2m::Message::Disable(runtime_h2m::Subsystem::DriveBase),
        runtime_h2m::Message::SoftReset,
    ];
    for msg in &msgs {
        let bytes = msg.encode().unwrap();
        let back = runtime_h2m::Message::decode(&bytes).unwrap();
        assert_eq!(msg, &back);
    }
}

#[test]
fn data_offload_round_trip() {
    let points: Vec<data_offload::Point> = (0..250u16)
        .map(|i| data_offload::Point {
            quality: (i % 64) as u8,
            angle: i * 64,
            distance: i * 4,
        })
        .collect();
    let msg = data_offload::Message::Scan(points);
    let bytes = msg.encode().unwrap();
    let back = data_offload::Message::decode(&bytes).unwrap();
    assert_eq!(msg, back);

    let empty = data_offload::Message::Scan(vec![]);
    let bytes = empty.encode().unwrap();
    assert_eq!(data_offload::Message::decode(&bytes).unwrap(), empty);
}

#[test]
fn oversized_scan_is_rejected_by_encode() {
    let too_many = vec![data_offload::Point { quality: 0, angle: 0, distance: 0 }; 251];
    assert!(data_offload::Message::Scan(too_many).encode().is_err());
}

#[test]
fn subscribe_request_round_trip() {
    let bytes = DataOffloadSubscribeRequest.encode().unwrap();
    assert_eq!(bytes, vec![0u8]);
    assert_eq!(
        DataOffloadSubscribeRequest::decode(&bytes).unwrap(),
        DataOffloadSubscribeRequest
    );
}

#[test]
fn configuration_state_round_trip() {
    let msg = config_m2h::Message::State(sample_state());
    let bytes = msg.encode().unwrap();
    let back = config_m2h::Message::decode(&bytes).unwrap();
    assert_eq!(msg, back);
}

#[test]
fn configuration_empty_state_round_trip() {
    let msg = config_m2h::Message::State(mote::tasks::initial_configuration_state(
        b"mote-:3".to_vec(),
    ));
    let bytes = msg.encode().unwrap();
    let back = config_m2h::Message::decode(&bytes).unwrap();
    assert_eq!(msg, back);
}

#[test]
fn configuration_host_variants_round_trip() {
    let msgs = [
        config_h2m::Message::SetNetworkConnectionConfig(config_h2m::SetNetworkConnectionConfig {
            ssid: b"lab".to_vec(),
            password: b"hunter22".to_vec(),
        }),
        config_h2m::Message::SetUID(config_h2m::SetUID { uid: b"mote-:3".to_vec() }),
        config_h2m::Message::RequestNetworkScan,
    ];
    for msg in &msgs {
        let bytes = msg.encode().unwrap();
        let back = config_h2m::Message::decode(&bytes).unwrap();
        assert_eq!(msg, &back);
    }
}

#[test]
fn decode_rejects_structural_mismatch() {
    // Short input.
    assert!(runtime_h2m::Message::decode(&[]).is_err());
    // Invalid discriminant.
    assert!(runtime_h2m::Message::decode(&[9]).is_err());
    // Invalid subsystem.
    assert!(runtime_h2m::Message::decode(&[2, 7]).is_err());
    // Trailing garbage.
    assert!(runtime_h2m::Message::decode(&[0, 0]).is_err());
    // Oversized length prefix.
    assert!(config_h2m::Message::decode(&[1, 10, 0, b'a']).is_err());
    // Oversized point count.
    let mut oversized = vec![0u8, 255, 0];
    oversized.extend(std::iter::repeat(0u8).take(5 * 255));
    assert!(data_offload::Message::decode(&oversized).is_err());
}

#[test]
fn encoding_is_fixed_width_little_endian() {
    let msg = data_offload::Message::Scan(vec![data_offload::Point {
        quality: 0x21,
        angle: 0x0F01,
        distance: 0x0064,
    }]);
    let bytes = msg.encode().unwrap();
    // Tag, point count (LE), then quality, angle (LE), distance (LE).
    assert_eq!(bytes, vec![0x00, 0x01, 0x00, 0x21, 0x01, 0x0F, 0x64, 0x00]);
}
