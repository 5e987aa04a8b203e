//! Configuration-channel commands sent from the host to the device.
//!
//! Text fields are carried as UTF-8 byte strings.

use vstd::prelude::*;

use crate::codec::DecodeError;
use crate::codec::EncodeError;
use crate::codec::WireMessage;
use crate::wire::spec_enc_bytes;
use crate::wire::spec_dec_bytes;
use crate::wire::read_u8;
use crate::wire::read_bytes;
use crate::wire::push_bytes;
use crate::wire::lemma_dec_u8_rt;
use crate::wire::lemma_dec_bytes_rt;

verus! {

/// Credentials of the network the device should join.
#[derive(Debug, Clone, PartialEq, Eq)]
pub struct SetNetworkConnectionConfig {
    pub ssid: Vec<u8>,
    pub password: Vec<u8>,
}

/// The mathematical shape of a [`SetNetworkConnectionConfig`].
#[verifier::ext_equal]
pub struct SetNetworkConnectionConfigView {
    pub ssid: Seq<u8>,
    pub password: Seq<u8>,
}

impl View for SetNetworkConnectionConfig {
    type V = SetNetworkConnectionConfigView;

    open spec fn view(&self) -> SetNetworkConnectionConfigView {
        SetNetworkConnectionConfigView { ssid: self.ssid@, password: self.password@ }
    }
}

/// The identifier the device should adopt.
#[derive(Debug, Clone, PartialEq, Eq)]
pub struct SetUID {
    pub uid: Vec<u8>,
}

/// The mathematical shape of a [`SetUID`].
#[verifier::ext_equal]
pub struct SetUIDView {
    pub uid: Seq<u8>,
}

impl View for SetUID {
    type V = SetUIDView;

    open spec fn view(&self) -> SetUIDView {
        SetUIDView { uid: self.uid@ }
    }
}

/// A configuration-channel command from the host.
#[derive(Debug, Clone, PartialEq, Eq)]
pub enum Message {
    SetNetworkConnectionConfig(SetNetworkConnectionConfig),
    SetUID(SetUID),
    RequestNetworkScan,
}

/// The mathematical shape of a configuration-channel host command.
pub enum MessageView {
    SetNetworkConnectionConfig(SetNetworkConnectionConfigView),
    SetUID(SetUIDView),
    RequestNetworkScan,
}

impl View for Message {
    type V = MessageView;

    open spec fn view(&self) -> MessageView {
        match self {
            Message::SetNetworkConnectionConfig(c) => MessageView::SetNetworkConnectionConfig(c@),
            Message::SetUID(u) => MessageView::SetUID(u@),
            Message::RequestNetworkScan => MessageView::RequestNetworkScan,
        }
    }
}

impl WireMessage for Message {
    open spec fn inv(v: MessageView) -> bool {
        match v {
            MessageView::SetNetworkConnectionConfig(c) => c.ssid.len() <= u16::MAX
                && c.password.len() <= u16::MAX,
            MessageView::SetUID(u) => u.uid.len() <= u16::MAX,
            MessageView::RequestNetworkScan => true,
        }
    }

    open spec fn spec_encode(v: MessageView) -> Seq<u8> {
        match v {
            MessageView::SetNetworkConnectionConfig(c) => seq![0u8] + spec_enc_bytes(c.ssid)
                + spec_enc_bytes(c.password),
            MessageView::SetUID(u) => seq![1u8] + spec_enc_bytes(u.uid),
            MessageView::RequestNetworkScan => seq![2u8],
        }
    }

    open spec fn spec_decode(b: Seq<u8>) -> Option<MessageView> {
        match crate::wire::spec_dec_u8(b) {
            Some((t, r)) => if t == 0 {
                match spec_dec_bytes(r) {
                    Some((ssid, r1)) => match spec_dec_bytes(r1) {
                        Some((password, r2)) => if r2.len() == 0 {
                            Some(
                                MessageView::SetNetworkConnectionConfig(
                                    SetNetworkConnectionConfigView { ssid, password },
                                ),
                            )
                        } else {
                            None
                        },
                        None => None,
                    },
                    None => None,
                }
            } else if t == 1 {
                match spec_dec_bytes(r) {
                    Some((uid, r1)) => if r1.len() == 0 {
                        Some(MessageView::SetUID(SetUIDView { uid }))
                    } else {
                        None
                    },
                    None => None,
                }
            } else if t == 2 {
                if r.len() == 0 {
                    Some(MessageView::RequestNetworkScan)
                } else {
                    None
                }
            } else {
                None
            },
            None => None,
        }
    }

    proof fn lemma_round_trip(v: MessageView) {
        match v {
            MessageView::SetNetworkConnectionConfig(c) => {
                let body = spec_enc_bytes(c.ssid) + spec_enc_bytes(c.password);
                assert(Self::spec_encode(v) =~= seq![0u8] + body);
                lemma_dec_u8_rt(0, body);
                assert(body =~= spec_enc_bytes(c.ssid) + (spec_enc_bytes(c.password)
                    + Seq::<u8>::empty()));
                lemma_dec_bytes_rt(c.ssid, spec_enc_bytes(c.password) + Seq::empty());
                lemma_dec_bytes_rt(c.password, Seq::empty());
            },
            MessageView::SetUID(u) => {
                let body = spec_enc_bytes(u.uid);
                assert(Self::spec_encode(v) =~= seq![1u8] + body);
                lemma_dec_u8_rt(1, body);
                assert(body =~= body + Seq::<u8>::empty());
                lemma_dec_bytes_rt(u.uid, Seq::empty());
            },
            MessageView::RequestNetworkScan => {
                assert(Self::spec_encode(v) =~= seq![2u8] + Seq::<u8>::empty());
                lemma_dec_u8_rt(2, Seq::empty());
            },
        }
    }

    fn encode(&self) -> (r: Result<Vec<u8>, EncodeError>) {
        match self {
            Message::SetNetworkConnectionConfig(c) => {
                if c.ssid.len() > u16::MAX as usize || c.password.len() > u16::MAX as usize {
                    return Err(EncodeError::FieldTooLong);
                }
                let mut out: Vec<u8> = Vec::new();
                out.push(0);
                push_bytes(&mut out, &c.ssid);
                push_bytes(&mut out, &c.password);
                assert(out@ =~= Self::spec_encode(self@));
                Ok(out)
            },
            Message::SetUID(u) => {
                if u.uid.len() > u16::MAX as usize {
                    return Err(EncodeError::FieldTooLong);
                }
                let mut out: Vec<u8> = Vec::new();
                out.push(1);
                push_bytes(&mut out, &u.uid);
                assert(out@ =~= Self::spec_encode(self@));
                Ok(out)
            },
            Message::RequestNetworkScan => {
                let mut out: Vec<u8> = Vec::new();
                out.push(2);
                assert(out@ =~= Self::spec_encode(self@));
                Ok(out)
            },
        }
    }

    fn decode(buf: &[u8]) -> (r: Result<Self, DecodeError>) {
        match read_u8(buf, 0) {
            None => Err(DecodeError::BadEncoding),
            Some((t, p1)) => {
                if t == 0 {
                    match read_bytes(buf, p1) {
                        None => Err(DecodeError::BadEncoding),
                        Some((ssid, p2)) => match read_bytes(buf, p2) {
                            None => Err(DecodeError::BadEncoding),
                            Some((password, p3)) => {
                                if p3 == buf.len() {
                                    assert(buf@.skip(p3 as int).len() == 0);
                                    Ok(
                                        Message::SetNetworkConnectionConfig(
                                            SetNetworkConnectionConfig { ssid, password },
                                        ),
                                    )
                                } else {
                                    Err(DecodeError::BadEncoding)
                                }
                            },
                        },
                    }
                } else if t == 1 {
                    match read_bytes(buf, p1) {
                        None => Err(DecodeError::BadEncoding),
                        Some((uid, p2)) => {
                            if p2 == buf.len() {
                                assert(buf@.skip(p2 as int).len() == 0);
                                Ok(Message::SetUID(SetUID { uid }))
                            } else {
                                Err(DecodeError::BadEncoding)
                            }
                        },
                    }
                } else if t == 2 {
                    if p1 == buf.len() {
                        assert(buf@.skip(p1 as int).len() == 0);
                        Ok(Message::RequestNetworkScan)
                    } else {
                        Err(DecodeError::BadEncoding)
                    }
                } else {
                    Err(DecodeError::BadEncoding)
                }
            },
        }
    }
}

} // verus!
