//! The host-side request that subscribes it to the data-offload stream.

use vstd::prelude::*;

use crate::codec::DecodeError;
use crate::codec::EncodeError;
use crate::codec::WireMessage;

verus! {

/// A request to start receiving offloaded sensor data.
#[derive(Debug, Clone, Copy, PartialEq, Eq, Structural)]
pub struct DataOffloadSubscribeRequest;

impl View for DataOffloadSubscribeRequest {
    type V = DataOffloadSubscribeRequest;

    open spec fn view(&self) -> DataOffloadSubscribeRequest {
        *self
    }
}

impl WireMessage for DataOffloadSubscribeRequest {
    open spec fn inv(v: DataOffloadSubscribeRequest) -> bool {
        true
    }

    open spec fn spec_encode(v: DataOffloadSubscribeRequest) -> Seq<u8> {
        seq![0u8]
    }

    open spec fn spec_decode(b: Seq<u8>) -> Option<DataOffloadSubscribeRequest> {
        if b.len() == 1 && b[0] == 0 {
            Some(DataOffloadSubscribeRequest)
        } else {
            None
        }
    }

    proof fn lemma_round_trip(v: DataOffloadSubscribeRequest) {
    }

    fn encode(&self) -> (r: Result<Vec<u8>, EncodeError>) {
        let mut out: Vec<u8> = Vec::new();
        out.push(0);
        assert(out@ =~= Self::spec_encode(self@));
        Ok(out)
    }

    fn decode(buf: &[u8]) -> (r: Result<Self, DecodeError>) {
        if buf.len() == 1 && buf[0] == 0 {
            Ok(DataOffloadSubscribeRequest)
        } else {
            Err(DecodeError::BadEncoding)
        }
    }
}

} // verus!
