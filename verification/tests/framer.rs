//! Framer round trips, boundary sizes, error classification, and a
//! cross-check against an independent COBS implementation.

use mote::framer::{frame, unframe, FramerError};

fn round_trip(payload: &[u8]) {
    let framed = frame(payload);
    assert!(framed.len() >= 2);
    assert_eq!(framed.last(), Some(&0u8));
    assert!(framed[..framed.len() - 1].iter().all(|&b| b != 0));
    assert!(framed.len() <= payload.len() + payload.len() / 254 + 2);
    assert_eq!(unframe(&framed).unwrap(), payload);
}

#[test]
fn frame_round_trips() {
    round_trip(&[]);
    round_trip(&[0]);
    round_trip(&[0, 0, 0]);
    round_trip(&[1, 2, 3]);
    round_trip(&[1, 0, 2, 0, 0, 3]);
    round_trip(&[0xFF; 253]);
    round_trip(&[0xFF; 254]);
    round_trip(&[0xFF; 255]);
    round_trip(&[0xAB; 508]);
    let mixed: Vec<u8> = (0..1000u32).map(|i| (i % 7) as u8).collect();
    round_trip(&mixed);
}

#[test]
fn two_frames_concatenated_recover_independently() {
    let p1: Vec<u8> = vec![1, 2, 0, 3];
    let p2: Vec<u8> = vec![9, 8, 7];
    let mut stream = frame(&p1);
    let f1_len = stream.len();
    stream.extend_from_slice(&frame(&p2));
    let cut = stream.iter().position(|&b| b == 0).unwrap() + 1;
    assert_eq!(cut, f1_len);
    assert_eq!(unframe(&stream[..cut]).unwrap(), p1);
    assert_eq!(unframe(&stream[cut..]).unwrap(), p2);
}

#[test]
fn unframe_reports_truncated_without_terminator() {
    assert_eq!(unframe(&[]), Err(FramerError::Truncated));
    assert_eq!(unframe(&[5, 1, 2]), Err(FramerError::Truncated));
}

#[test]
fn unframe_reports_corrupt_stuffing() {
    // A code byte that runs past the terminator.
    assert_eq!(unframe(&[9, 1, 2, 0]), Err(FramerError::Corrupt));
    // An empty body: no block at all before the terminator.
    assert_eq!(unframe(&[0]), Err(FramerError::Corrupt));
    // Bytes after the terminator.
    assert_eq!(unframe(&[1, 0, 1, 0]), Err(FramerError::Corrupt));
}

#[test]
fn framing_matches_corncobs() {
    let payloads: Vec<Vec<u8>> = vec![
        vec![],
        vec![0],
        vec![1, 2, 3],
        vec![1, 0, 2, 0, 0, 3],
        vec![0xFF; 254],
        vec![0xFF; 255],
        (0..600u32).map(|i| (i % 11) as u8).collect(),
    ];
    for payload in &payloads {
        let ours = frame(payload);
        let mut theirs = vec![0u8; corncobs::max_encoded_len(payload.len())];
        let n = corncobs::encode_buf(payload, &mut theirs);
        theirs.truncate(n);
        assert_eq!(ours, theirs);

        let mut decoded = vec![0u8; ours.len()];
        let m = corncobs::decode_buf(&ours, &mut decoded).unwrap();
        decoded.truncate(m);
        assert_eq!(&decoded, payload);
        assert_eq!(unframe(&theirs).unwrap(), *payload);
    }
}
