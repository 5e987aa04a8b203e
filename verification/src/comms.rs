//! The sans-I/O link: a bidirectional, framed, typed message pipe. It owns
//! the outbound frame queue and the inbound byte ring; callers feed it raw
//! bytes and drain packets, and no operation here blocks or touches I/O.

use core::marker::PhantomData;

use vstd::prelude::*;

use crate::codec::DecodeError;
use crate::codec::EncodeError;
use crate::codec::WireMessage;
use crate::framer::FramerError;
use crate::framer::frame;
use crate::framer::unframe;
use crate::framer::lemma_nz_run_is;
use crate::framer::lemma_stuff_len;
use crate::framer::lemma_stuff_no_zeros;
use crate::framer::lemma_frame_round_trip;
use crate::framer::spec_frame;
use crate::framer::spec_terminator_pos;
use crate::framer::spec_unframe;

verus! {

/// Capacity of the inbound byte ring; overflow discards the oldest bytes.
pub const MAX_MESSAGE_LENGTH: usize = 5000;

/// An error surfaced by the link. The link never panics.
#[derive(Debug, Clone, Copy, PartialEq, Eq, Structural)]
pub enum Error {
    /// The outbound message failed to serialize.
    EncodeError(EncodeError),
    /// An inbound payload failed to deserialize after unframing.
    DecodeError(DecodeError),
    /// The inbound byte stream held a damaged frame.
    CobsError(FramerError),
}

/// Marker for the single serial endpoint of a configuration link.
#[derive(Debug, Clone, Copy, PartialEq, Eq, Structural)]
pub struct SerialEndpoint;

/// One outbound chunk, at most `MTU` bytes, for the application to transmit.
#[derive(Debug, Clone, PartialEq, Eq)]
pub struct Transmit<const MTU: usize> {
    pub payload: Vec<u8>,
}

/// Split a byte stream into consecutive chunks of at most `mtu` bytes.
pub open spec fn spec_chunks(b: Seq<u8>, mtu: nat) -> Seq<Seq<u8>>
    decreases b.len(),
{
    if mtu == 0 {
        Seq::empty()
    } else if b.len() == 0 {
        Seq::empty()
    } else if b.len() <= mtu {
        seq![b]
    } else {
        seq![b.take(mtu as int)] + spec_chunks(b.skip(mtu as int), mtu)
    }
}

/// Concatenation of a sequence of chunks.
pub open spec fn spec_concat(cs: Seq<Seq<u8>>) -> Seq<u8>
    decreases cs.len(),
{
    if cs.len() == 0 {
        Seq::empty()
    } else {
        cs[0] + spec_concat(cs.skip(1))
    }
}

/// Fragmentation law: a stream of `L` bytes splits into exactly
/// `ceil(L / mtu)` chunks, each at most `mtu` bytes, whose concatenation is
/// the original stream.
pub proof fn lemma_chunks(b: Seq<u8>, mtu: nat)
    requires
        mtu >= 1,
    ensures
        spec_chunks(b, mtu).len() == (b.len() + mtu - 1) / mtu as int,
        spec_concat(spec_chunks(b, mtu)) == b,
        forall|i: int|
            0 <= i < spec_chunks(b, mtu).len() ==> #[trigger] spec_chunks(b, mtu)[i].len() <= mtu,
    decreases b.len(),
{
    let cs = spec_chunks(b, mtu);
    if b.len() == 0 {
        assert(spec_concat(cs) =~= b);
        assert((b.len() + mtu - 1) / mtu as int == 0) by (nonlinear_arith)
            requires
                mtu >= 1,
                b.len() == 0,
        ;
    } else if b.len() <= mtu {
        assert(cs == seq![b]);
        assert(cs.skip(1) =~= Seq::<Seq<u8>>::empty());
        assert(spec_concat(cs.skip(1)) == Seq::<u8>::empty());
        assert(spec_concat(cs) == cs[0] + spec_concat(cs.skip(1)));
        assert(spec_concat(cs) =~= b);
        assert((b.len() + mtu - 1) / mtu as int == 1) by (nonlinear_arith)
            requires
                mtu >= 1,
                1 <= b.len() <= mtu,
        ;
    } else {
        lemma_chunks(b.skip(mtu as int), mtu);
        assert(cs.skip(1) =~= spec_chunks(b.skip(mtu as int), mtu));
        assert(spec_concat(cs) =~= b.take(mtu as int) + spec_concat(
            spec_chunks(b.skip(mtu as int), mtu),
        ));
        assert(b.take(mtu as int) + b.skip(mtu as int) =~= b);
        assert((b.len() - mtu + mtu - 1) / mtu as int + 1 == (b.len() + mtu - 1)
            / mtu as int) by (nonlinear_arith)
            requires
                mtu >= 1,
                b.len() > mtu,
        ;
        assert forall|i: int| 0 <= i < cs.len() implies #[trigger] cs[i].len() <= mtu by {
            if i >= 1 {
                assert(cs[i] == spec_chunks(b.skip(mtu as int), mtu)[i - 1]);
            }
        }
    }
}

/// The last `MAX_MESSAGE_LENGTH` bytes of a stream.
pub open spec fn spec_ring_clip(b: Seq<u8>) -> Seq<u8> {
    if b.len() <= MAX_MESSAGE_LENGTH {
        b
    } else {
        b.skip(b.len() - MAX_MESSAGE_LENGTH)
    }
}

/// Splitting a delivery changes nothing: appending `x` and then `y` to the
/// ring leaves the same bytes as appending `x + y` at once. Handing the
/// transmits of one message to `handle_receive` in arbitrary sub-chunks,
/// byte-by-byte included, therefore fills the ring exactly as one delivery
/// would.
pub proof fn lemma_receive_coalesce(x: Seq<u8>, y: Seq<u8>)
    ensures
        spec_ring_clip(spec_ring_clip(x) + y) == spec_ring_clip(x + y),
{
    if x.len() <= MAX_MESSAGE_LENGTH {
        assert(spec_ring_clip(x) + y =~= x + y);
    } else {
        let d = x.len() - MAX_MESSAGE_LENGTH;
        if y.len() == 0 {
            assert(spec_ring_clip(x) + y =~= x.skip(d));
            assert(x + y =~= x);
            assert(spec_ring_clip(x.skip(d)) =~= x.skip(d));
        } else {
            assert(spec_ring_clip(spec_ring_clip(x) + y) =~= (x.skip(d) + y).skip(y.len() as int));
            assert((x.skip(d) + y).skip(y.len() as int) =~= (x + y).skip(
                x.len() + y.len() - MAX_MESSAGE_LENGTH,
            ));
        }
    }
}

/// Bidirectional sans-I/O communication link between the device and a host.
///
/// Use the concrete aliases rather than this type directly:
/// [`HostRuntimeCommandLink`], [`HostRuntimeDataOffloadLink`],
/// [`HostConfigurationLink`], [`MoteRuntimeCommandLink`],
/// [`MoteRuntimeDataOffloadLink`], [`MoteConfigurationLink`].
pub struct MoteComms<const MTU: usize, I: WireMessage, O: WireMessage> {
    pub buffered_transmits: Vec<Transmit<MTU>>,
    pub deserialization_buffer: Vec<u8>,
    pub in_type: PhantomData<I>,
    pub out_type: PhantomData<O>,
}

impl<const MTU: usize, I: WireMessage, O: WireMessage> MoteComms<MTU, I, O> {
    /// The queued outbound chunks, oldest first.
    pub open spec fn tx(&self) -> Seq<Seq<u8>> {
        self.buffered_transmits@.map_values(|t: Transmit<MTU>| t.payload@)
    }

    /// The inbound byte ring, oldest first.
    pub open spec fn rx(&self) -> Seq<u8> {
        self.deserialization_buffer@
    }

    /// Generate a new link with empty queues.
    pub fn new() -> (r: Self)
        ensures
            r.tx() == Seq::<Seq<u8>>::empty(),
            r.rx() == Seq::<u8>::empty(),
    {
        let r = MoteComms {
            buffered_transmits: Vec::new(),
            deserialization_buffer: Vec::new(),
            in_type: PhantomData,
            out_type: PhantomData,
        };
        proof {
            assert(r.tx() =~= Seq::<Seq<u8>>::empty());
        }
        r
    }

    /// Queue a message to be sent: serialize, frame, split into chunks of at
    /// most `MTU` bytes, enqueued contiguously and in order.
    pub fn send(&mut self, message: O) -> (r: Result<(), Error>)
        requires
            MTU >= 1,
        ensures
            final(self).rx() == old(self).rx(),
            match r {
                Ok(_) => O::inv(message@) && final(self).tx() == old(self).tx() + spec_chunks(
                    spec_frame(O::spec_encode(message@)),
                    MTU as nat,
                ),
                Err(e) => !O::inv(message@) && e == Error::EncodeError(EncodeError::FieldTooLong)
                    && final(self).tx() == old(self).tx(),
            },
    {
        let encoded = match message.encode() {
            Ok(encoded) => encoded,
            Err(_) => {
                return Err(Error::EncodeError(EncodeError::FieldTooLong));
            },
        };
        let framed = frame(encoded.as_slice());
        let ghost whole = framed@;
        let ghost tx0 = self.tx();
        let len = framed.len();
        let mut idx: usize = 0;
        proof {
            assert(whole.skip(0) =~= whole);
            assert(tx0 + Seq::<Seq<u8>>::empty() =~= tx0);
        }
        while idx < len
            invariant
                idx <= len,
                len == whole.len(),
                whole == framed@,
                MTU >= 1,
                self.rx() == old(self).rx(),
                self.tx() + spec_chunks(whole.skip(idx as int), MTU as nat) == tx0 + spec_chunks(
                    whole,
                    MTU as nat,
                ),
            decreases len - idx,
        {
            let ghost txb = self.tx();
            let ghost rem = whole.skip(idx as int);
            let end = if len - idx <= MTU {
                len
            } else {
                idx + MTU
            };
            let chunk = vstd::slice::slice_to_vec(&framed.as_slice()[idx..end]);
            self.buffered_transmits.push(Transmit { payload: chunk });
            proof {
                assert(self.tx() =~= txb.push(whole.subrange(idx as int, end as int)));
                if len - idx <= MTU {
                    assert(whole.subrange(idx as int, end as int) =~= rem);
                    assert(whole.skip(len as int).len() == 0);
                    assert(self.tx() + spec_chunks(whole.skip(len as int), MTU as nat) =~= txb + (
                    seq![rem] + spec_chunks(rem.skip(rem.len() as int), MTU as nat)));
                    assert(rem.skip(rem.len() as int) =~= whole.skip(len as int));
                    assert(spec_chunks(rem, MTU as nat) == seq![rem]);
                    assert(txb + spec_chunks(rem, MTU as nat) =~= self.tx() + spec_chunks(
                        whole.skip(len as int),
                        MTU as nat,
                    ));
                } else {
                    assert(whole.subrange(idx as int, end as int) =~= rem.take(MTU as int));
                    assert(rem.skip(MTU as int) =~= whole.skip(idx + MTU));
                    assert(txb + spec_chunks(rem, MTU as nat) =~= txb + (seq![rem.take(MTU as int)]
                        + spec_chunks(rem.skip(MTU as int), MTU as nat)));
                    assert(txb + (seq![rem.take(MTU as int)] + spec_chunks(
                        whole.skip(idx + MTU),
                        MTU as nat,
                    )) =~= self.tx() + spec_chunks(whole.skip(idx + MTU), MTU as nat));
                }
            }
            idx = end;
        }
        proof {
            assert(whole.skip(len as int).len() == 0);
            assert(self.tx() + spec_chunks(whole.skip(len as int), MTU as nat) =~= self.tx());
        }
        Ok(())
    }

    /// Get the next outbound chunk, in first-in first-out order.
    pub fn poll_transmit(&mut self) -> (r: Option<Transmit<MTU>>)
        ensures
            final(self).rx() == old(self).rx(),
            match r {
                Some(t) => old(self).tx().len() > 0 && t.payload@ == old(self).tx()[0]
                    && final(self).tx() == old(self).tx().skip(1),
                None => old(self).tx().len() == 0 && final(self).tx() == old(self).tx(),
            },
    {
        if self.buffered_transmits.len() == 0 {
            None
        } else {
            let t = self.buffered_transmits.remove(0);
            proof {
                assert(final(self).tx() =~= old(self).tx().skip(1));
            }
            Some(t)
        }
    }

    /// Append received bytes to the inbound ring. If the ring would exceed
    /// [`MAX_MESSAGE_LENGTH`], the oldest bytes are discarded until it fits.
    /// Never fails; does not decode.
    pub fn handle_receive(&mut self, packet: &[u8])
        ensures
            final(self).tx() == old(self).tx(),
            final(self).rx() == spec_ring_clip(old(self).rx() + packet@),
            final(self).rx().len() <= MAX_MESSAGE_LENGTH,
    {
        self.deserialization_buffer.extend_from_slice(packet);
        let len = self.deserialization_buffer.len();
        if len > MAX_MESSAGE_LENGTH {
            let excess = len - MAX_MESSAGE_LENGTH;
            let kept = vstd::slice::slice_to_vec(
                &self.deserialization_buffer.as_slice()[excess..len],
            );
            self.deserialization_buffer = kept;
            proof {
                assert(final(self).rx() =~= spec_ring_clip(old(self).rx() + packet@));
            }
        }
    }

    /// Poll for one complete frame in the inbound ring. Seeks the earliest
    /// terminator; if none is present, reports that no message is ready.
    /// Otherwise the ring is drained through that terminator, and the
    /// drained segment is unframed and decoded: a damaged frame surfaces as
    /// an error while later bytes stay in the ring.
    pub fn poll_receive(&mut self) -> (r: Result<Option<I>, Error>)
        ensures
            final(self).tx() == old(self).tx(),
            ({
                let rx = old(self).rx();
                let t = spec_terminator_pos(rx);
                if t == rx.len() {
                    final(self).rx() == rx && r == Ok::<Option<I>, Error>(None)
                } else {
                    final(self).rx() == rx.skip(t as int + 1) && (match spec_unframe(
                        rx.take(t as int + 1),
                    ) {
                        Ok(payload) => match I::spec_decode(payload) {
                            Some(v) => r matches Ok(Some(m)) && m@ == v,
                            None => r == Err::<Option<I>, Error>(
                                Error::DecodeError(DecodeError::BadEncoding),
                            ),
                        },
                        Err(FramerError::Corrupt) => r == Err::<Option<I>, Error>(
                            Error::CobsError(FramerError::Corrupt),
                        ),
                        Err(FramerError::Truncated) => r == Ok::<Option<I>, Error>(None),
                    })
                }
            }),
    {
        let len = self.deserialization_buffer.len();
        let mut t: usize = 0;
        while t < len && self.deserialization_buffer[t] != 0
            invariant
                t <= len,
                len == self.rx().len(),
                self == old(self),
                forall|i: int| 0 <= i < t ==> self.rx()[i] != 0,
            decreases len - t,
        {
            t = t + 1;
        }
        proof {
            lemma_nz_run_is(self.rx(), self.rx().len(), t as nat);
        }
        if t == len {
            return Ok(None);
        }
        let outcome = unframe(&self.deserialization_buffer.as_slice()[0..t + 1]);
        proof {
            assert(self.rx().subrange(0, t as int + 1) =~= self.rx().take(t as int + 1));
        }
        let kept = vstd::slice::slice_to_vec(&self.deserialization_buffer.as_slice()[t + 1..len]);
        self.deserialization_buffer = kept;
        proof {
            assert(final(self).rx() =~= old(self).rx().skip(t as int + 1));
        }
        match outcome {
            Ok(payload) => {
                match I::decode(payload.as_slice()) {
                    Ok(m) => Ok(Some(m)),
                    Err(_) => Err(Error::DecodeError(DecodeError::BadEncoding)),
                }
            },
            Err(FramerError::Corrupt) => Err(Error::CobsError(FramerError::Corrupt)),
            Err(FramerError::Truncated) => Ok(None),
        }
    }
}

impl<const MTU: usize, I: WireMessage, O: WireMessage> Default for MoteComms<MTU, I, O> {
    /// Generate a new link with empty queues.
    fn default() -> (r: Self)
        ensures
            r.tx() == Seq::<Seq<u8>>::empty(),
            r.rx() == Seq::<u8>::empty(),
    {
        Self::new()
    }
}

/// Reassembly law: for a well-formed message, the framed encoding ends at
/// its only terminator, unframes to the encoding, and decodes back to the
/// message; and its chunks at any MTU concatenate to the framed bytes. So a
/// receiver that is handed the transmits of one `send` in any sub-chunking
/// recovers exactly that message, leaving nothing in the ring.
pub proof fn lemma_send_receive_round_trip<M: WireMessage>(v: M::V, mtu: nat)
    requires
        M::inv(v),
        mtu >= 1,
    ensures
        ({
            let encoded = M::spec_encode(v);
            let framed = spec_frame(encoded);
            &&& spec_concat(spec_chunks(framed, mtu)) == framed
            &&& spec_terminator_pos(framed) + 1 == framed.len()
            &&& spec_unframe(framed) == Ok::<Seq<u8>, FramerError>(encoded)
            &&& M::spec_decode(encoded) == Some(v)
            &&& spec_ring_clip(framed) == framed || framed.len() > MAX_MESSAGE_LENGTH
        }),
{
    let encoded = M::spec_encode(v);
    let framed = spec_frame(encoded);
    lemma_chunks(framed, mtu);
    lemma_stuff_no_zeros(encoded);
    lemma_stuff_len(encoded);
    assert(framed[crate::framer::spec_stuff(encoded).len() as int] == 0);
    lemma_nz_run_is(framed, framed.len(), crate::framer::spec_stuff(encoded).len());
    lemma_frame_round_trip(encoded);
    M::lemma_round_trip(v);
}

} // verus!

verus! {

/// Used by the host to send commands to the device during runtime.
pub type HostRuntimeCommandLink = MoteComms<
    1460,
    crate::runtime::mote_to_host::command::Message,
    crate::runtime::host_to_mote::Message,
>;

/// Used by the host to subscribe to and receive offloaded sensor data.
pub type HostRuntimeDataOffloadLink = MoteComms<
    1460,
    crate::runtime::mote_to_host::data_offload::Message,
    crate::runtime::host_to_mote::data_offload::DataOffloadSubscribeRequest,
>;

/// Used by the device to respond to control commands during runtime.
pub type MoteRuntimeCommandLink = MoteComms<
    1460,
    crate::runtime::host_to_mote::Message,
    crate::runtime::mote_to_host::command::Message,
>;

/// Used by the device to offload sensor data.
pub type MoteRuntimeDataOffloadLink = MoteComms<
    1460,
    crate::runtime::host_to_mote::data_offload::DataOffloadSubscribeRequest,
    crate::runtime::mote_to_host::data_offload::Message,
>;

/// Used by the host to talk to the device during configuration (serial MTU).
pub type HostConfigurationLink = MoteComms<
    64,
    crate::configuration::mote_to_host::Message,
    crate::configuration::host_to_mote::Message,
>;

/// Used by the device to talk to the host during configuration (serial MTU).
pub type MoteConfigurationLink = MoteComms<
    64,
    crate::configuration::host_to_mote::Message,
    crate::configuration::mote_to_host::Message,
>;

} // verus!
