//! Command responses sent from the device to a host.

use vstd::prelude::*;

use crate::codec::DecodeError;
use crate::codec::EncodeError;
use crate::codec::WireMessage;

verus! {

/// A command-channel response from the device.
#[derive(Debug, Clone, Copy, PartialEq, Eq, Structural)]
pub enum Message {
    Ping,
    PingResponse,
}

impl View for Message {
    type V = Message;

    open spec fn view(&self) -> Message {
        *self
    }
}

impl WireMessage for Message {
    open spec fn inv(v: Message) -> bool {
        true
    }

    open spec fn spec_encode(v: Message) -> Seq<u8> {
        match v {
            Message::Ping => seq![0u8],
            Message::PingResponse => seq![1u8],
        }
    }

    open spec fn spec_decode(b: Seq<u8>) -> Option<Message> {
        if b.len() == 1 {
            if b[0] == 0 {
                Some(Message::Ping)
            } else if b[0] == 1 {
                Some(Message::PingResponse)
            } else {
                None
            }
        } else {
            None
        }
    }

    proof fn lemma_round_trip(v: Message) {
    }

    fn encode(&self) -> (r: Result<Vec<u8>, EncodeError>) {
        let mut out: Vec<u8> = Vec::new();
        match self {
            Message::Ping => {
                out.push(0);
            },
            Message::PingResponse => {
                out.push(1);
            },
        }
        assert(out@ =~= Self::spec_encode(self@));
        Ok(out)
    }

    fn decode(buf: &[u8]) -> (r: Result<Self, DecodeError>) {
        if buf.len() == 1 {
            let t = buf[0];
            if t == 0 {
                Ok(Message::Ping)
            } else if t == 1 {
                Ok(Message::PingResponse)
            } else {
                Err(DecodeError::BadEncoding)
            }
        } else {
            Err(DecodeError::BadEncoding)
        }
    }
}

} // verus!
