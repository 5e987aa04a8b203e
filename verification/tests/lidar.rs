//! LiDAR protocol decoding and state-machine transitions.

use mote::runtime::mote_to_host::data_offload::{Point, MAX_POINTS_PER_SCAN_MESSAGE};
use mote::tasks::lidar::{
    check_health_transition, health_response_ok, parse_batch, parse_point,
    process_sample_transition, receive_sample_transition, receive_timeout_transition,
    reset_transition, scan_request_transition, scan_response_ok, LidarState, SampleRead,
};

const VALID_RECORD: [u8; 5] = [0b10000101, 0b00000011, 0x1E, 0x64, 0x00];

/// The documented decoding of one sample record.
#[test]
fn scan_record_decodes_documented_values() {
    let p = parse_point(&VALID_RECORD).unwrap();
    assert_eq!(p, Point { quality: 0x21, angle: 0x0F01, distance: 0x0064 });
}

/// Records with a bad start flag or a clear check bit are discarded.
#[test]
fn invalid_records_are_discarded() {
    // Both low bits clear: start flag and its inverse agree, invalid.
    assert!(parse_point(&[0b10000100, 0b00000011, 0x1E, 0x64, 0x00]).is_none());
    // Both low bits set: equally invalid.
    assert!(parse_point(&[0b10000111, 0b00000011, 0x1E, 0x64, 0x00]).is_none());
    // Check bit clear.
    assert!(parse_point(&[0b10000101, 0b00000010, 0x1E, 0x64, 0x00]).is_none());
}

/// A batch of ten valid records yields ten decoded points, in order.
#[test]
fn batch_of_ten_records_decodes() {
    let mut bytes = Vec::new();
    for _ in 0..10 {
        bytes.extend_from_slice(&VALID_RECORD);
    }
    let points = parse_batch(&bytes);
    assert_eq!(points.len(), 10);
    for p in &points {
        assert_eq!(*p, Point { quality: 0x21, angle: 0x0F01, distance: 0x0064 });
    }
}

/// Invalid records inside a batch are skipped without desynchronizing.
#[test]
fn batch_skips_invalid_records() {
    let mut bytes = Vec::new();
    bytes.extend_from_slice(&VALID_RECORD);
    bytes.extend_from_slice(&[0, 0, 0, 0, 0]);
    bytes.extend_from_slice(&VALID_RECORD);
    bytes.extend_from_slice(&[1, 2]); // trailing fragment, ignored
    assert_eq!(parse_batch(&bytes).len(), 2);
}

#[test]
fn health_response_validation() {
    let healthy = [0xA5, 0x5A, 0x03, 0x00, 0x00, 0x00, 0x06, 0x00, 0x00, 0x00];
    assert!(health_response_ok(&healthy));
    let mut bad_status = healthy;
    bad_status[7] = 0x02;
    assert!(!health_response_ok(&bad_status));
    let mut bad_header = healthy;
    bad_header[0] = 0xA6;
    assert!(!health_response_ok(&bad_header));
}

#[test]
fn scan_response_validation() {
    assert!(scan_response_ok(&[0xA5, 0x5A, 0x05, 0x00, 0x00, 0x40, 0x81]));
    assert!(!scan_response_ok(&[0xA5, 0x5A, 0x05, 0x00, 0x00, 0x40, 0x80]));
}

#[test]
fn transitions_follow_the_protocol() {
    assert_eq!(reset_transition(true), LidarState::CheckHealth);
    assert_eq!(reset_transition(false), LidarState::Reset);

    let healthy = vec![0xA5, 0x5A, 0x03, 0x00, 0x00, 0x00, 0x06, 0x00, 0x00, 0x00];
    assert_eq!(check_health_transition(Some(&healthy)), LidarState::ScanRequest);
    let sick = vec![0xA5, 0x5A, 0x03, 0x00, 0x00, 0x00, 0x06, 0x03, 0x00, 0x00];
    assert_eq!(check_health_transition(Some(&sick)), LidarState::Reset);
    assert_eq!(check_health_transition(None), LidarState::Reset);

    let descriptor = vec![0xA5, 0x5A, 0x05, 0x00, 0x00, 0x40, 0x81];
    assert_eq!(scan_request_transition(Some(&descriptor)), LidarState::ReceiveSample);
    let wrong = vec![0xA5, 0x5A, 0x05, 0x00, 0x00, 0x40, 0x00];
    assert_eq!(scan_request_transition(Some(&wrong)), LidarState::CheckHealth);
    assert_eq!(scan_request_transition(None), LidarState::CheckHealth);

    assert_eq!(receive_timeout_transition(), LidarState::CheckHealth);
    assert_eq!(process_sample_transition(), LidarState::ReceiveSample);
}

#[test]
fn receive_transitions_depend_on_yield() {
    // A full batch of valid records: plenty of points, process them.
    let mut full = Vec::new();
    for _ in 0..MAX_POINTS_PER_SCAN_MESSAGE {
        full.extend_from_slice(&VALID_RECORD);
    }
    let (state, points) = receive_sample_transition(&SampleRead::Bytes(full));
    assert_eq!(state, LidarState::ProcessSample);
    assert_eq!(points.len(), MAX_POINTS_PER_SCAN_MESSAGE);

    // Fewer than half the expected points validate: re-check health.
    let mut sparse = Vec::new();
    for i in 0..MAX_POINTS_PER_SCAN_MESSAGE {
        if i < MAX_POINTS_PER_SCAN_MESSAGE / 2 - 1 {
            sparse.extend_from_slice(&VALID_RECORD);
        } else {
            sparse.extend_from_slice(&[0, 0, 0, 0, 0]);
        }
    }
    let (state, points) = receive_sample_transition(&SampleRead::Bytes(sparse));
    assert_eq!(state, LidarState::CheckHealth);
    assert_eq!(points.len(), MAX_POINTS_PER_SCAN_MESSAGE / 2 - 1);

    let (state, points) = receive_sample_transition(&SampleRead::TimedOut);
    assert_eq!(state, LidarState::ReceiveTimeout);
    assert!(points.is_empty());

    let (state, _) = receive_sample_transition(&SampleRead::IoError);
    assert_eq!(state, LidarState::Reset);
}
