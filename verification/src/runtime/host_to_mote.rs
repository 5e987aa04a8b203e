//! Runtime commands sent from a host to the device.

pub mod data_offload;

use vstd::prelude::*;

use crate::codec::DecodeError;
use crate::codec::EncodeError;
use crate::codec::WireMessage;
use crate::wire::read_u8;

verus! {

/// A device subsystem a host can enable or disable.
#[derive(Debug, Clone, Copy, PartialEq, Eq, Structural)]
pub enum Subsystem {
    Lidar,
    Imu,
    DriveBase,
}

/// A runtime command from the host.
#[derive(Debug, Clone, Copy, PartialEq, Eq, Structural)]
pub enum Message {
    Ping,
    PingResponse,
    Enable(Subsystem),
    Disable(Subsystem),
    SoftReset,
}

impl View for Subsystem {
    type V = Subsystem;

    open spec fn view(&self) -> Subsystem {
        *self
    }
}

impl View for Message {
    type V = Message;

    open spec fn view(&self) -> Message {
        *self
    }
}

/// Wire discriminant of a subsystem.
pub open spec fn spec_subsystem_tag(s: Subsystem) -> u8 {
    match s {
        Subsystem::Lidar => 0,
        Subsystem::Imu => 1,
        Subsystem::DriveBase => 2,
    }
}

/// Subsystem named by a wire discriminant, if any.
pub open spec fn spec_subsystem_of(t: u8) -> Option<Subsystem> {
    if t == 0 {
        Some(Subsystem::Lidar)
    } else if t == 1 {
        Some(Subsystem::Imu)
    } else if t == 2 {
        Some(Subsystem::DriveBase)
    } else {
        None
    }
}

/// Wire discriminant of a subsystem, executable form.
pub fn subsystem_tag(s: &Subsystem) -> (t: u8)
    ensures
        t == spec_subsystem_tag(*s),
{
    match s {
        Subsystem::Lidar => 0,
        Subsystem::Imu => 1,
        Subsystem::DriveBase => 2,
    }
}

impl WireMessage for Message {
    open spec fn inv(v: Message) -> bool {
        true
    }

    open spec fn spec_encode(v: Message) -> Seq<u8> {
        match v {
            Message::Ping => seq![0u8],
            Message::PingResponse => seq![1u8],
            Message::Enable(s) => seq![2u8, spec_subsystem_tag(s)],
            Message::Disable(s) => seq![3u8, spec_subsystem_tag(s)],
            Message::SoftReset => seq![4u8],
        }
    }

    open spec fn spec_decode(b: Seq<u8>) -> Option<Message> {
        if b.len() == 1 {
            if b[0] == 0 {
                Some(Message::Ping)
            } else if b[0] == 1 {
                Some(Message::PingResponse)
            } else if b[0] == 4 {
                Some(Message::SoftReset)
            } else {
                None
            }
        } else if b.len() == 2 && b[0] == 2 {
            match spec_subsystem_of(b[1]) {
                Some(s) => Some(Message::Enable(s)),
                None => None,
            }
        } else if b.len() == 2 && b[0] == 3 {
            match spec_subsystem_of(b[1]) {
                Some(s) => Some(Message::Disable(s)),
                None => None,
            }
        } else {
            None
        }
    }

    proof fn lemma_round_trip(v: Message) {
    }

    fn encode(&self) -> (r: Result<Vec<u8>, EncodeError>) {
        let mut out: Vec<u8> = Vec::new();
        match self {
            Message::Ping => {
                out.push(0);
            },
            Message::PingResponse => {
                out.push(1);
            },
            Message::Enable(s) => {
                out.push(2);
                out.push(subsystem_tag(s));
            },
            Message::Disable(s) => {
                out.push(3);
                out.push(subsystem_tag(s));
            },
            Message::SoftReset => {
                out.push(4);
            },
        }
        assert(out@ =~= Self::spec_encode(self@));
        Ok(out)
    }

    fn decode(buf: &[u8]) -> (r: Result<Self, DecodeError>) {
        if buf.len() == 1 {
            match read_u8(buf, 0) {
                Some((t, _)) => {
                    assert(buf@[0] == t);
                    if t == 0 {
                        Ok(Message::Ping)
                    } else if t == 1 {
                        Ok(Message::PingResponse)
                    } else if t == 4 {
                        Ok(Message::SoftReset)
                    } else {
                        Err(DecodeError::BadEncoding)
                    }
                },
                None => Err(DecodeError::BadEncoding),
            }
        } else if buf.len() == 2 {
            let t = buf[0];
            let sb = buf[1];
            let sub = if sb == 0 {
                Some(Subsystem::Lidar)
            } else if sb == 1 {
                Some(Subsystem::Imu)
            } else if sb == 2 {
                Some(Subsystem::DriveBase)
            } else {
                None
            };
            match (t, sub) {
                (2, Some(s)) => Ok(Message::Enable(s)),
                (3, Some(s)) => Ok(Message::Disable(s)),
                _ => Err(DecodeError::BadEncoding),
            }
        } else {
            Err(DecodeError::BadEncoding)
        }
    }
}

} // verus!
