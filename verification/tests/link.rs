//! Link behaviour: fragmentation, reassembly under arbitrary packetization,
//! ring overflow, and corrupt-frame skipping.

use mote::comms::{
    Error, HostConfigurationLink, HostRuntimeCommandLink, MoteConfigurationLink,
    MoteRuntimeCommandLink, MAX_MESSAGE_LENGTH,
};
use mote::framer::FramerError;
use mote::configuration::host_to_mote as config_h2m;
use mote::configuration::mote_to_host as config_m2h;
use mote::framer::frame;
use mote::runtime::host_to_mote as runtime_h2m;
use mote::runtime::mote_to_host::command;

fn empty_state(uid: &[u8]) -> config_m2h::State {
    mote::tasks::initial_configuration_state(uid.to_vec())
}

#[test]
fn test_config_links() {
    let mote_messages = [config_m2h::Message::State(empty_state(b"mote-:3"))];
    for sent_msg in &mote_messages {
        let mut mote_l = MoteConfigurationLink::new();
        mote_l.send(sent_msg.clone()).unwrap();

        let mut host_l = HostConfigurationLink::new();
        while let Some(transmission) = mote_l.poll_transmit() {
            host_l.handle_receive(&transmission.payload);
        }
        let recv_msg = host_l.poll_receive().unwrap().unwrap();
        assert_eq!(sent_msg, &recv_msg);
    }

    let host_messages = [
        config_h2m::Message::SetUID(config_h2m::SetUID { uid: b"mote-:4".to_vec() }),
        config_h2m::Message::RequestNetworkScan,
    ];
    for sent_msg in &host_messages {
        let mut host_l = HostConfigurationLink::new();
        host_l.send(sent_msg.clone()).unwrap();

        let mut mote_l = MoteConfigurationLink::new();
        while let Some(transmission) = host_l.poll_transmit() {
            mote_l.handle_receive(&transmission.payload);
        }
        let recv_msg = mote_l.poll_receive().unwrap().unwrap();
        assert_eq!(sent_msg, &recv_msg);
    }
}

/// The device's state survives the configuration link in 7-byte slices.
#[test]
fn config_round_trip_in_seven_byte_slices() {
    let sent = config_m2h::Message::State(empty_state(b"mote-:3"));
    let mut device = MoteConfigurationLink::new();
    device.send(sent.clone()).unwrap();

    let mut wire: Vec<u8> = Vec::new();
    while let Some(t) = device.poll_transmit() {
        assert!(t.payload.len() <= 64);
        wire.extend_from_slice(&t.payload);
    }

    let mut host = HostConfigurationLink::new();
    for slice in wire.chunks(7) {
        host.handle_receive(slice);
    }
    let got = host.poll_receive().unwrap().unwrap();
    assert_eq!(sent, got);
    assert!(host.poll_receive().unwrap().is_none());
}

/// Host pings; device receives it and replies; host decodes the response.
#[test]
fn ping_round_trip() {
    let mut host = HostRuntimeCommandLink::new();
    let mut device = MoteRuntimeCommandLink::new();

    host.send(runtime_h2m::Message::Ping).unwrap();
    while let Some(t) = host.poll_transmit() {
        device.handle_receive(&t.payload);
    }
    let got = device.poll_receive().unwrap().unwrap();
    assert_eq!(got, runtime_h2m::Message::Ping);

    let reply = mote::tasks::wifi::tcp_server::parse_command_message(&got).unwrap();
    assert_eq!(reply, command::Message::PingResponse);
    device.send(reply).unwrap();
    while let Some(t) = device.poll_transmit() {
        host.handle_receive(&t.payload);
    }
    assert_eq!(host.poll_receive().unwrap().unwrap(), command::Message::PingResponse);
}

/// A state whose framed encoding is 200 bytes fragments over an MTU-64
/// link into transmits of 64, 64, 64 and 8 bytes, and reassembles.
#[test]
fn fragmentation_sizes_over_mtu_64() {
    let sent = config_m2h::Message::State(empty_state(&[b'x'; 181]));
    let mut device = MoteConfigurationLink::new();
    device.send(sent.clone()).unwrap();

    let mut sizes = Vec::new();
    let mut host = HostConfigurationLink::new();
    while let Some(t) = device.poll_transmit() {
        sizes.push(t.payload.len());
        host.handle_receive(&t.payload);
    }
    assert_eq!(sizes, vec![64, 64, 64, 8]);
    assert_eq!(sizes.iter().sum::<usize>(), 200);
    assert_eq!(host.poll_receive().unwrap().unwrap(), sent);
}

/// Byte-by-byte delivery still reassembles the message exactly once.
#[test]
fn byte_by_byte_reassembly() {
    let sent = runtime_h2m::Message::Enable(runtime_h2m::Subsystem::DriveBase);
    let mut host = HostRuntimeCommandLink::new();
    host.send(sent).unwrap();

    let mut device = MoteRuntimeCommandLink::new();
    while let Some(t) = host.poll_transmit() {
        for b in &t.payload {
            device.handle_receive(&[*b]);
        }
    }
    assert_eq!(device.poll_receive().unwrap().unwrap(), sent);
    assert!(device.poll_receive().unwrap().is_none());
    assert!(device.deserialization_buffer.is_empty());
}

/// Writing `MAX_MESSAGE_LENGTH + k` bytes leaves exactly the last
/// `MAX_MESSAGE_LENGTH` bytes in the ring.
#[test]
fn ring_overflow_keeps_newest_bytes() {
    let k = 1000usize;
    let total = MAX_MESSAGE_LENGTH + k;
    let bytes: Vec<u8> = (0..total).map(|i| (1 + i % 255) as u8).collect();
    let mut link = MoteRuntimeCommandLink::new();
    for chunk in bytes.chunks(777) {
        link.handle_receive(chunk);
    }
    assert_eq!(link.deserialization_buffer.len(), MAX_MESSAGE_LENGTH);
    assert_eq!(link.deserialization_buffer[..], bytes[k..]);
}

/// A damaged frame followed by a valid frame: one corrupt report, then the
/// valid message.
#[test]
fn corrupt_frame_is_skipped() {
    let mut device = MoteRuntimeCommandLink::new();
    // A frame whose code byte runs past its terminator is damaged.
    device.handle_receive(&[9, 1, 2, 0]);
    let mut host = HostRuntimeCommandLink::new();
    host.send(runtime_h2m::Message::SoftReset).unwrap();
    while let Some(t) = host.poll_transmit() {
        device.handle_receive(&t.payload);
    }
    assert_eq!(
        device.poll_receive(),
        Err(Error::CobsError(FramerError::Corrupt))
    );
    assert_eq!(device.poll_receive().unwrap().unwrap(), runtime_h2m::Message::SoftReset);
}

/// Overflowing the ring with garbage and then delivering a valid frame
/// never panics: the straddled garbage surfaces as one corrupt report that
/// consumes the stream through its first terminator.
#[test]
fn garbage_overflow_then_valid_frame() {
    let mut device = MoteRuntimeCommandLink::new();
    let mut seed: u32 = 0x12345678;
    let mut garbage = Vec::with_capacity(6000);
    for _ in 0..6000 {
        seed = seed.wrapping_mul(1664525).wrapping_add(1013904223);
        garbage.push(1 + (seed >> 24) as u8 % 255);
    }
    device.handle_receive(&garbage);
    let payload = vec![7u8; 100];
    device.handle_receive(&frame(&payload));
    assert_eq!(
        device.poll_receive(),
        Err(Error::CobsError(FramerError::Corrupt))
    );
    assert!(device.poll_receive().unwrap().is_none());
}

/// A decodable frame that is not a valid message surfaces a decode error
/// and leaves the link usable.
#[test]
fn bad_payload_surfaces_decode_error() {
    let mut device = MoteRuntimeCommandLink::new();
    device.handle_receive(&frame(&[0x77]));
    assert!(matches!(device.poll_receive(), Err(Error::DecodeError(_))));
    assert!(device.poll_receive().unwrap().is_none());
}

/// An unencodable message is refused without touching the queues.
#[test]
fn oversized_message_is_refused_by_send() {
    let mut device = MoteConfigurationLink::new();
    let huge = config_m2h::Message::State(empty_state(&vec![b'u'; 70000]));
    assert!(matches!(device.send(huge), Err(Error::EncodeError(_))));
    assert!(device.poll_transmit().is_none());
}
