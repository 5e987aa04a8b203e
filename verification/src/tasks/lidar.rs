//! LiDAR acquisition state machine: the protocol client that initializes,
//! health-checks, and streams point batches. The UART shell around it only
//! writes the request bytes, reads the response bytes, and feeds them to the
//! transition functions here; every decision is made by this module.
//!
//! States advance `Reset -> CheckHealth -> ScanRequest -> ReceiveSample ->
//! ProcessSample -> ReceiveSample ...`, and every failure routes back to
//! `CheckHealth` or `Reset`: the machine is self-healing.

use vstd::prelude::*;

use crate::runtime::mote_to_host::data_offload::MAX_POINTS_PER_SCAN_MESSAGE;
use crate::runtime::mote_to_host::data_offload::Point;

verus! {

/// The states of the acquisition machine.
#[derive(Debug, Clone, Copy, PartialEq, Eq, Structural)]
pub enum LidarState {
    Idle,
    Start,
    Reset,
    CheckHealth,
    ScanRequest,
    ReceiveSample,
    ReceiveTimeout,
    ProcessSample,
    Stop,
}

/// Why reading a sample batch failed.
#[derive(Debug, Clone, Copy, PartialEq, Eq, Structural)]
pub enum ReadSamplesError<T> {
    Timeout,
    CheckBitIncorrect,
    StartFlagIncorrect,
    IoError(T),
}

/// What one blocking batch read produced.
#[derive(Debug, Clone, PartialEq, Eq)]
pub enum SampleRead {
    /// The requested bytes arrived.
    Bytes(Vec<u8>),
    /// The transport failed.
    IoError,
    /// Nothing arrived within the read timeout.
    TimedOut,
}

/// The command written to reset the sensor.
pub fn reset_request() -> (r: [u8; 2])
    ensures
        r@ == seq![0xA5u8, 0x40u8],
{
    let r: [u8; 2] = [0xA5, 0x40];
    assert(r@ =~= seq![0xA5u8, 0x40u8]);
    r
}

/// The command written to ask for the sensor's health.
pub fn get_health_request() -> (r: [u8; 2])
    ensures
        r@ == seq![0xA5u8, 0x52u8],
{
    let r: [u8; 2] = [0xA5, 0x52];
    assert(r@ =~= seq![0xA5u8, 0x52u8]);
    r
}

/// The command written to start a scan.
pub fn scan_request() -> (r: [u8; 2])
    ensures
        r@ == seq![0xA5u8, 0x20u8],
{
    let r: [u8; 2] = [0xA5, 0x20];
    assert(r@ =~= seq![0xA5u8, 0x20u8]);
    r
}

/// The descriptor that precedes the health status byte.
pub open spec fn spec_health_descriptor() -> Seq<u8> {
    seq![0xA5u8, 0x5Au8, 0x03u8, 0x00u8, 0x00u8, 0x00u8, 0x06u8]
}

/// The descriptor that acknowledges a scan request.
pub open spec fn spec_scan_descriptor() -> Seq<u8> {
    seq![0xA5u8, 0x5Au8, 0x05u8, 0x00u8, 0x00u8, 0x40u8, 0x81u8]
}

/// Whether the 10-byte health response is well-formed and healthy: the
/// 7-byte descriptor followed by a zero status byte.
pub open spec fn spec_health_ok(resp: Seq<u8>) -> bool {
    resp.take(7) == spec_health_descriptor() && resp[7] == 0
}

/// Whether a 10-byte health response reports a healthy sensor.
pub fn health_response_ok(resp: &[u8]) -> (r: bool)
    requires
        resp@.len() == 10,
    ensures
        r == spec_health_ok(resp@),
{
    let header_ok = resp[0] == 0xA5 && resp[1] == 0x5A && resp[2] == 0x03 && resp[3] == 0x00
        && resp[4] == 0x00 && resp[5] == 0x00 && resp[6] == 0x06;
    proof {
        if header_ok {
            assert(resp@.take(7) =~= spec_health_descriptor());
        } else {
            assert(resp@.take(7) != spec_health_descriptor()) by {
                if resp@.take(7) == spec_health_descriptor() {
                    assert(resp@[0] == resp@.take(7)[0]);
                    assert(resp@[1] == resp@.take(7)[1]);
                    assert(resp@[2] == resp@.take(7)[2]);
                    assert(resp@[3] == resp@.take(7)[3]);
                    assert(resp@[4] == resp@.take(7)[4]);
                    assert(resp@[5] == resp@.take(7)[5]);
                    assert(resp@[6] == resp@.take(7)[6]);
                }
            }
        }
    }
    header_ok && resp[7] == 0x00
}

/// Whether the 7-byte scan response is the expected descriptor.
pub fn scan_response_ok(resp: &[u8]) -> (r: bool)
    requires
        resp@.len() == 7,
    ensures
        r == (resp@ == spec_scan_descriptor()),
{
    let ok = resp[0] == 0xA5 && resp[1] == 0x5A && resp[2] == 0x05 && resp[3] == 0x00 && resp[4]
        == 0x00 && resp[5] == 0x40 && resp[6] == 0x81;
    proof {
        if ok {
            assert(resp@ =~= spec_scan_descriptor());
        } else {
            assert(resp@ != spec_scan_descriptor()) by {
                if resp@ == spec_scan_descriptor() {
                    assert(resp@[0] == 0xA5 && resp@[1] == 0x5A && resp@[2] == 0x05 && resp@[3]
                        == 0x00 && resp@[4] == 0x00 && resp@[5] == 0x40 && resp@[6] == 0x81);
                }
            }
        }
    }
    ok
}

/// Decode one 5-byte sample record. The two low bits of the first byte must
/// differ (the start flag and its inverse), and the low bit of the second
/// byte must be set (the check bit); otherwise the record is discarded.
pub open spec fn spec_parse_point(b0: u8, b1: u8, b2: u8, b3: u8, b4: u8) -> Option<Point> {
    if (b0 & 0x01) == ((b0 & 0x02) >> 1) {
        None
    } else if (b1 & 0x01) != 1 {
        None
    } else {
        Some(
            Point {
                quality: (b0 & 0xFC) >> 2,
                angle: (((b2 as u16) << 7) | (((b1 as u16) & 0xFE) >> 1)) as u16,
                distance: ((b3 as u16) | ((b4 as u16) << 8)) as u16,
            },
        )
    }
}

/// Decode one 5-byte sample record, executable form.
pub fn parse_point(record: &[u8]) -> (r: Option<Point>)
    requires
        record@.len() == 5,
    ensures
        r == spec_parse_point(record@[0], record@[1], record@[2], record@[3], record@[4]),
{
    let b0 = record[0];
    let b1 = record[1];
    let b2 = record[2];
    let b3 = record[3];
    let b4 = record[4];
    if (b0 & 0x01) == ((b0 & 0x02) >> 1) {
        None
    } else if (b1 & 0x01) != 1 {
        None
    } else {
        let angle: u16 = ((b2 as u16) << 7) | (((b1 as u16) & 0xFE) >> 1);
        let distance: u16 = (b3 as u16) | ((b4 as u16) << 8);
        let quality: u8 = (b0 & 0xFC) >> 2;
        Some(Point { quality, angle, distance })
    }
}

/// Decode a raw batch: each consecutive 5-byte record that passes the
/// start-flag and check-bit validation contributes one point, in order;
/// invalid records and trailing bytes are discarded.
pub open spec fn spec_parse_batch(bytes: Seq<u8>) -> Seq<Point>
    decreases bytes.len(),
{
    if bytes.len() < 5 {
        Seq::empty()
    } else {
        match spec_parse_point(bytes[0], bytes[1], bytes[2], bytes[3], bytes[4]) {
            Some(p) => seq![p] + spec_parse_batch(bytes.skip(5)),
            None => spec_parse_batch(bytes.skip(5)),
        }
    }
}

/// Decode a raw batch, executable form.
pub fn parse_batch(bytes: &[u8]) -> (r: Vec<Point>)
    ensures
        r@ == spec_parse_batch(bytes@),
{
    let len = bytes.len();
    let mut r: Vec<Point> = Vec::new();
    let mut idx: usize = 0;
    proof {
        assert(bytes@.skip(0) =~= bytes@);
        assert(Seq::<Point>::empty() + spec_parse_batch(bytes@) =~= spec_parse_batch(bytes@));
    }
    while len - idx >= 5
        invariant
            idx <= len,
            len == bytes@.len(),
            r@ + spec_parse_batch(bytes@.skip(idx as int)) == spec_parse_batch(bytes@),
        decreases len - idx,
    {
        let ghost rem = bytes@.skip(idx as int);
        let ghost r0 = r@;
        let record = &bytes[idx..idx + 5];
        assert(record@[0] == rem[0] && record@[1] == rem[1] && record@[2] == rem[2] && record@[3]
            == rem[3] && record@[4] == rem[4]);
        match parse_point(record) {
            Some(p) => {
                r.push(p);
                proof {
                    assert(rem.skip(5) =~= bytes@.skip(idx as int + 5));
                    assert(r@ + spec_parse_batch(rem.skip(5)) =~= r0 + (seq![p]
                        + spec_parse_batch(rem.skip(5))));
                }
            },
            None => {
                proof {
                    assert(rem.skip(5) =~= bytes@.skip(idx as int + 5));
                }
            },
        }
        idx = idx + 5;
    }
    proof {
        assert(spec_parse_batch(bytes@.skip(idx as int)) =~= Seq::<Point>::empty());
        assert(r@ + Seq::<Point>::empty() =~= r@);
    }
    r
}

/// After writing the reset command and draining the receiver: a successful
/// write advances to the health check; a failed write retries the reset.
pub fn reset_transition(write_ok: bool) -> (s: LidarState)
    ensures
        s == if write_ok {
            LidarState::CheckHealth
        } else {
            LidarState::Reset
        },
{
    if write_ok {
        LidarState::CheckHealth
    } else {
        LidarState::Reset
    }
}

/// After the health exchange: a well-formed healthy response advances to
/// the scan request; anything else (bad header, bad status, or no response)
/// resets the sensor.
pub fn check_health_transition(response: Option<&Vec<u8>>) -> (s: LidarState)
    requires
        response matches Some(r) ==> r@.len() == 10,
    ensures
        s == match response {
            Some(r) => if spec_health_ok(r@) {
                LidarState::ScanRequest
            } else {
                LidarState::Reset
            },
            None => LidarState::Reset,
        },
{
    match response {
        Some(r) => {
            if health_response_ok(r.as_slice()) {
                LidarState::ScanRequest
            } else {
                LidarState::Reset
            }
        },
        None => LidarState::Reset,
    }
}

/// After the scan-request exchange: the expected descriptor advances to
/// sampling; a mismatch or a failed exchange re-checks health.
pub fn scan_request_transition(response: Option<&Vec<u8>>) -> (s: LidarState)
    requires
        response matches Some(r) ==> r@.len() == 7,
    ensures
        s == match response {
            Some(r) => if r@ == spec_scan_descriptor() {
                LidarState::ReceiveSample
            } else {
                LidarState::CheckHealth
            },
            None => LidarState::CheckHealth,
        },
{
    match response {
        Some(r) => {
            if scan_response_ok(r.as_slice()) {
                LidarState::ReceiveSample
            } else {
                LidarState::CheckHealth
            }
        },
        None => LidarState::CheckHealth,
    }
}

/// After one blocking batch read: arrived bytes are decoded, and the batch
/// is processed only when at least half the expected points validated;
/// short batches re-check health, a timeout is remembered as its own state,
/// and a transport failure resets the sensor.
pub fn receive_sample_transition(read: &SampleRead) -> (r: (LidarState, Vec<Point>))
    ensures
        match read {
            SampleRead::Bytes(b) => r.1@ == spec_parse_batch(b@) && r.0 == (if r.1@.len()
                >= MAX_POINTS_PER_SCAN_MESSAGE / 2 {
                LidarState::ProcessSample
            } else {
                LidarState::CheckHealth
            }),
            SampleRead::IoError => r.0 == LidarState::Reset && r.1@.len() == 0,
            SampleRead::TimedOut => r.0 == LidarState::ReceiveTimeout && r.1@.len() == 0,
        },
{
    match read {
        SampleRead::Bytes(b) => {
            let points = parse_batch(b.as_slice());
            if points.len() >= MAX_POINTS_PER_SCAN_MESSAGE / 2 {
                (LidarState::ProcessSample, points)
            } else {
                (LidarState::CheckHealth, points)
            }
        },
        SampleRead::IoError => (LidarState::Reset, Vec::new()),
        SampleRead::TimedOut => (LidarState::ReceiveTimeout, Vec::new()),
    }
}

/// A remembered timeout re-checks health on the next iteration.
pub fn receive_timeout_transition() -> (s: LidarState)
    ensures
        s == LidarState::CheckHealth,
{
    LidarState::CheckHealth
}

/// After handing a batch to the data channel (dropped if the channel is
/// full: freshness beats completeness), sampling continues regardless.
pub fn process_sample_transition() -> (s: LidarState)
    ensures
        s == LidarState::ReceiveSample,
{
    LidarState::ReceiveSample
}

/// The entry states both begin with a reset.
pub fn start_transition() -> (s: LidarState)
    ensures
        s == LidarState::Reset,
{
    LidarState::Reset
}

} // verus!
