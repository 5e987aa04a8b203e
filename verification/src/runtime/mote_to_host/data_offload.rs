//! Sensor data offloaded from the device: batches of LiDAR points.

use vstd::prelude::*;

use crate::codec::DecodeError;
use crate::codec::EncodeError;
use crate::codec::WireMessage;
use crate::codec::WireRecord;
use crate::codec::views_of;
use crate::codec::spec_enc_list;
use crate::codec::spec_dec_list;
use crate::codec::lemma_dec_list_rt;
use crate::codec::read_list;
use crate::codec::write_list;
use crate::wire::spec_enc_u16;
use crate::wire::spec_dec_u16;
use crate::wire::read_u8;
use crate::wire::read_u16;
use crate::wire::push_u16;
use crate::wire::lemma_dec_u8_rt;
use crate::wire::lemma_dec_u16_rt;

verus! {

/// Capacity of one scan batch; batches are lossy beyond it.
pub const MAX_POINTS_PER_SCAN_MESSAGE: usize = 250;

/// One LiDAR point. The actual heading is `angle / 64` degrees and the
/// actual distance is `distance / 4` millimetres.
#[derive(Debug, Clone, Copy, Default, PartialEq, Eq, Structural)]
pub struct Point {
    pub quality: u8,
    pub angle: u16,
    pub distance: u16,
}

impl View for Point {
    type V = Point;

    open spec fn view(&self) -> Point {
        *self
    }
}

impl WireRecord for Point {
    open spec fn inv(v: Point) -> bool {
        true
    }

    open spec fn spec_enc(v: Point) -> Seq<u8> {
        seq![v.quality] + spec_enc_u16(v.angle) + spec_enc_u16(v.distance)
    }

    open spec fn spec_dec(b: Seq<u8>) -> Option<(Point, Seq<u8>)> {
        match crate::wire::spec_dec_u8(b) {
            Some((q, r1)) => match spec_dec_u16(r1) {
                Some((a, r2)) => match spec_dec_u16(r2) {
                    Some((d, r3)) => Some((Point { quality: q, angle: a, distance: d }, r3)),
                    None => None,
                },
                None => None,
            },
            None => None,
        }
    }

    proof fn lemma_rt(v: Point, rest: Seq<u8>) {
        let after_q = spec_enc_u16(v.angle) + (spec_enc_u16(v.distance) + rest);
        assert(Self::spec_enc(v) + rest =~= seq![v.quality] + after_q);
        lemma_dec_u8_rt(v.quality, after_q);
        lemma_dec_u16_rt(v.angle, spec_enc_u16(v.distance) + rest);
        lemma_dec_u16_rt(v.distance, rest);
    }

    fn check(&self) -> (b: bool) {
        true
    }

    fn write(&self, out: &mut Vec<u8>) {
        out.push(self.quality);
        push_u16(out, self.angle);
        push_u16(out, self.distance);
        assert(out@ =~= old(out)@ + Self::spec_enc(self@));
    }

    fn read(buf: &[u8], pos: usize) -> (r: Option<(Self, usize)>) {
        match read_u8(buf, pos) {
            None => None,
            Some((q, p1)) => match read_u16(buf, p1) {
                None => None,
                Some((a, p2)) => match read_u16(buf, p2) {
                    None => None,
                    Some((d, p3)) => Some((Point { quality: q, angle: a, distance: d }, p3)),
                },
            },
        }
    }
}

/// A data-offload message from the device.
#[derive(Debug, Clone, PartialEq, Eq)]
pub enum Message {
    Scan(Vec<Point>),
}

/// The mathematical shape of a data-offload message.
pub enum MessageView {
    Scan(Seq<Point>),
}

impl View for Message {
    type V = MessageView;

    open spec fn view(&self) -> MessageView {
        match self {
            Message::Scan(points) => MessageView::Scan(views_of(points@)),
        }
    }
}

impl WireMessage for Message {
    open spec fn inv(v: MessageView) -> bool {
        match v {
            MessageView::Scan(points) => points.len() <= MAX_POINTS_PER_SCAN_MESSAGE,
        }
    }

    open spec fn spec_encode(v: MessageView) -> Seq<u8> {
        match v {
            MessageView::Scan(points) => seq![0u8] + spec_enc_list::<Point>(points),
        }
    }

    open spec fn spec_decode(b: Seq<u8>) -> Option<MessageView> {
        match crate::wire::spec_dec_u8(b) {
            Some((t, r)) => if t == 0 {
                match spec_dec_list::<Point>(r) {
                    Some((points, r2)) => if r2.len() == 0 && points.len()
                        <= MAX_POINTS_PER_SCAN_MESSAGE {
                        Some(MessageView::Scan(points))
                    } else {
                        None
                    },
                    None => None,
                }
            } else {
                None
            },
            None => None,
        }
    }

    proof fn lemma_round_trip(v: MessageView) {
        match v {
            MessageView::Scan(points) => {
                let body = spec_enc_list::<Point>(points);
                assert(Self::spec_encode(v) =~= seq![0u8] + body);
                lemma_dec_u8_rt(0, body);
                assert(body =~= body + Seq::<u8>::empty());
                lemma_dec_list_rt::<Point>(points, Seq::empty());
            },
        }
    }

    fn encode(&self) -> (r: Result<Vec<u8>, EncodeError>) {
        match self {
            Message::Scan(points) => {
                if points.len() > MAX_POINTS_PER_SCAN_MESSAGE {
                    return Err(EncodeError::FieldTooLong);
                }
                let mut out: Vec<u8> = Vec::new();
                out.push(0);
                write_list::<Point>(&mut out, points);
                assert(out@ =~= Self::spec_encode(self@));
                Ok(out)
            },
        }
    }

    fn decode(buf: &[u8]) -> (r: Result<Self, DecodeError>) {
        match read_u8(buf, 0) {
            None => Err(DecodeError::BadEncoding),
            Some((t, p1)) => {
                if t != 0 {
                    return Err(DecodeError::BadEncoding);
                }
                match read_list::<Point>(buf, p1) {
                    None => Err(DecodeError::BadEncoding),
                    Some((points, p2)) => {
                        if p2 == buf.len() && points.len() <= MAX_POINTS_PER_SCAN_MESSAGE {
                            assert(buf@.skip(p2 as int).len() == 0);
                            Ok(Message::Scan(points))
                        } else {
                            Err(DecodeError::BadEncoding)
                        }
                    },
                }
            },
        }
    }
}

} // verus!
