//! Configuration-channel state telemetered from the device to the host.
//!
//! Text fields (identifiers, network names, addresses) are carried as UTF-8
//! byte strings.

use vstd::prelude::*;

use crate::codec::DecodeError;
use crate::codec::EncodeError;
use crate::codec::WireMessage;
use crate::codec::WireRecord;
use crate::codec::views_of;
use crate::codec::spec_enc_list;
use crate::codec::spec_dec_list;
use crate::codec::lemma_dec_list_rt;
use crate::codec::check_records;
use crate::codec::read_list;
use crate::codec::write_list;
use crate::wire::spec_enc_bytes;
use crate::wire::spec_dec_bytes;
use crate::wire::spec_enc_opt_bytes;
use crate::wire::spec_dec_opt_bytes;
use crate::wire::spec_opt_view;
use crate::wire::read_u8;
use crate::wire::read_bytes;
use crate::wire::read_opt_bytes;
use crate::wire::push_bytes;
use crate::wire::push_opt_bytes;
use crate::wire::lemma_dec_u8_rt;
use crate::wire::lemma_dec_bytes_rt;
use crate::wire::lemma_dec_opt_bytes_rt;

verus! {

/// Capacity of each built-in-test group.
pub const MAX_BITS_PER_GROUP: usize = 5;

/// A network the device can see, with its signal strength (negated RSSI;
/// smaller is stronger).
#[derive(Debug, Clone, PartialEq, Eq)]
pub struct NetworkConnection {
    pub ssid: Vec<u8>,
    pub strength: u8,
}

/// The mathematical shape of a [`NetworkConnection`].
#[verifier::ext_equal]
pub struct NetworkConnectionView {
    pub ssid: Seq<u8>,
    pub strength: u8,
}

impl View for NetworkConnection {
    type V = NetworkConnectionView;

    open spec fn view(&self) -> NetworkConnectionView {
        NetworkConnectionView { ssid: self.ssid@, strength: self.strength }
    }
}

impl WireRecord for NetworkConnection {
    open spec fn inv(v: NetworkConnectionView) -> bool {
        v.ssid.len() <= u16::MAX
    }

    open spec fn spec_enc(v: NetworkConnectionView) -> Seq<u8> {
        spec_enc_bytes(v.ssid) + seq![v.strength]
    }

    open spec fn spec_dec(b: Seq<u8>) -> Option<(NetworkConnectionView, Seq<u8>)> {
        match spec_dec_bytes(b) {
            Some((ssid, r1)) => match crate::wire::spec_dec_u8(r1) {
                Some((strength, r2)) => Some((NetworkConnectionView { ssid, strength }, r2)),
                None => None,
            },
            None => None,
        }
    }

    proof fn lemma_rt(v: NetworkConnectionView, rest: Seq<u8>) {
        assert(Self::spec_enc(v) + rest =~= spec_enc_bytes(v.ssid) + (seq![v.strength] + rest));
        lemma_dec_bytes_rt(v.ssid, seq![v.strength] + rest);
        lemma_dec_u8_rt(v.strength, rest);
    }

    fn check(&self) -> (b: bool) {
        self.ssid.len() <= u16::MAX as usize
    }

    fn write(&self, out: &mut Vec<u8>) {
        push_bytes(out, &self.ssid);
        out.push(self.strength);
        assert(out@ =~= old(out)@ + Self::spec_enc(self@));
    }

    fn read(buf: &[u8], pos: usize) -> (r: Option<(Self, usize)>) {
        match read_bytes(buf, pos) {
            None => None,
            Some((ssid, p1)) => match read_u8(buf, p1) {
                None => None,
                Some((strength, p2)) => Some((NetworkConnection { ssid, strength }, p2)),
            },
        }
    }
}

/// Outcome of one built-in test.
#[derive(Debug, Clone, Copy, PartialEq, Eq, Structural)]
pub enum BITResult {
    Waiting,
    Pass,
    Fail,
}

impl View for BITResult {
    type V = BITResult;

    open spec fn view(&self) -> BITResult {
        *self
    }
}

/// Wire discriminant of a test outcome.
pub open spec fn spec_bit_result_tag(v: BITResult) -> u8 {
    match v {
        BITResult::Waiting => 0,
        BITResult::Pass => 1,
        BITResult::Fail => 2,
    }
}

/// Test outcome named by a wire discriminant, if any.
pub open spec fn spec_bit_result_of(t: u8) -> Option<BITResult> {
    if t == 0 {
        Some(BITResult::Waiting)
    } else if t == 1 {
        Some(BITResult::Pass)
    } else if t == 2 {
        Some(BITResult::Fail)
    } else {
        None
    }
}

/// A named built-in test and its outcome.
#[derive(Debug, Clone, PartialEq, Eq)]
pub struct BIT {
    pub name: Vec<u8>,
    pub result: BITResult,
}

/// The mathematical shape of a [`BIT`].
#[verifier::ext_equal]
pub struct BITView {
    pub name: Seq<u8>,
    pub result: BITResult,
}

impl View for BIT {
    type V = BITView;

    open spec fn view(&self) -> BITView {
        BITView { name: self.name@, result: self.result }
    }
}

impl WireRecord for BIT {
    open spec fn inv(v: BITView) -> bool {
        v.name.len() <= u16::MAX
    }

    open spec fn spec_enc(v: BITView) -> Seq<u8> {
        spec_enc_bytes(v.name) + seq![spec_bit_result_tag(v.result)]
    }

    open spec fn spec_dec(b: Seq<u8>) -> Option<(BITView, Seq<u8>)> {
        match spec_dec_bytes(b) {
            Some((name, r1)) => match crate::wire::spec_dec_u8(r1) {
                Some((t, r2)) => match spec_bit_result_of(t) {
                    Some(result) => Some((BITView { name, result }, r2)),
                    None => None,
                },
                None => None,
            },
            None => None,
        }
    }

    proof fn lemma_rt(v: BITView, rest: Seq<u8>) {
        let tag = spec_bit_result_tag(v.result);
        assert(Self::spec_enc(v) + rest =~= spec_enc_bytes(v.name) + (seq![tag] + rest));
        lemma_dec_bytes_rt(v.name, seq![tag] + rest);
        lemma_dec_u8_rt(tag, rest);
    }

    fn check(&self) -> (b: bool) {
        self.name.len() <= u16::MAX as usize
    }

    fn write(&self, out: &mut Vec<u8>) {
        push_bytes(out, &self.name);
        match self.result {
            BITResult::Waiting => out.push(0),
            BITResult::Pass => out.push(1),
            BITResult::Fail => out.push(2),
        }
        assert(out@ =~= old(out)@ + Self::spec_enc(self@));
    }

    fn read(buf: &[u8], pos: usize) -> (r: Option<(Self, usize)>) {
        match read_bytes(buf, pos) {
            None => None,
            Some((name, p1)) => match read_u8(buf, p1) {
                None => None,
                Some((t, p2)) => {
                    let result = if t == 0 {
                        Some(BITResult::Waiting)
                    } else if t == 1 {
                        Some(BITResult::Pass)
                    } else if t == 2 {
                        Some(BITResult::Fail)
                    } else {
                        None
                    };
                    match result {
                        Some(result) => Some((BIT { name, result }, p2)),
                        None => None,
                    }
                },
            },
        }
    }
}

/// Built-in-test results grouped by subsystem; each group holds at most
/// [`MAX_BITS_PER_GROUP`] entries, updated in place by the owning subsystem.
#[derive(Debug, Clone, PartialEq, Eq)]
pub struct BITCollection {
    pub wifi: Vec<BIT>,
    pub lidar: Vec<BIT>,
    pub imu: Vec<BIT>,
    pub encoders: Vec<BIT>,
    pub power: Vec<BIT>,
}

/// The mathematical shape of a [`BITCollection`].
#[verifier::ext_equal]
pub struct BITCollectionView {
    pub wifi: Seq<BITView>,
    pub lidar: Seq<BITView>,
    pub imu: Seq<BITView>,
    pub encoders: Seq<BITView>,
    pub power: Seq<BITView>,
}

impl View for BITCollection {
    type V = BITCollectionView;

    open spec fn view(&self) -> BITCollectionView {
        BITCollectionView {
            wifi: views_of(self.wifi@),
            lidar: views_of(self.lidar@),
            imu: views_of(self.imu@),
            encoders: views_of(self.encoders@),
            power: views_of(self.power@),
        }
    }
}

/// Bounds of one built-in-test group.
pub open spec fn spec_bit_group_inv(s: Seq<BITView>) -> bool {
    s.len() <= MAX_BITS_PER_GROUP && forall|i: int|
        0 <= i < s.len() ==> <BIT as WireRecord>::inv(#[trigger] s[i])
}

/// Decode one built-in-test group, enforcing its capacity.
pub open spec fn spec_dec_bit_group(b: Seq<u8>) -> Option<(Seq<BITView>, Seq<u8>)> {
    match spec_dec_list::<BIT>(b) {
        Some((s, r)) => if s.len() <= MAX_BITS_PER_GROUP {
            Some((s, r))
        } else {
            None
        },
        None => None,
    }
}

proof fn lemma_bit_group_rt(s: Seq<BITView>, rest: Seq<u8>)
    requires
        spec_bit_group_inv(s),
    ensures
        spec_dec_bit_group(spec_enc_list::<BIT>(s) + rest) == Some((s, rest)),
{
    lemma_dec_list_rt::<BIT>(s, rest);
}

/// Whether one built-in-test group satisfies its bounds, executable form.
fn check_bit_group(s: &Vec<BIT>) -> (b: bool)
    ensures
        b == spec_bit_group_inv(views_of(s@)),
{
    s.len() <= MAX_BITS_PER_GROUP && check_records::<BIT>(s)
}

/// Read one built-in-test group at `pos`.
fn read_bit_group(buf: &[u8], pos: usize) -> (r: Option<(Vec<BIT>, usize)>)
    requires
        pos <= buf@.len(),
    ensures
        match r {
            Some((v, p2)) => pos <= p2 <= buf@.len() && spec_dec_bit_group(buf@.skip(pos as int))
                == Some((views_of(v@), buf@.skip(p2 as int))),
            None => spec_dec_bit_group(buf@.skip(pos as int)) is None,
        },
{
    match read_list::<BIT>(buf, pos) {
        None => None,
        Some((v, p2)) => {
            if v.len() <= MAX_BITS_PER_GROUP {
                Some((v, p2))
            } else {
                None
            }
        },
    }
}

impl WireRecord for BITCollection {
    open spec fn inv(v: BITCollectionView) -> bool {
        spec_bit_group_inv(v.wifi) && spec_bit_group_inv(v.lidar) && spec_bit_group_inv(v.imu)
            && spec_bit_group_inv(v.encoders) && spec_bit_group_inv(v.power)
    }

    open spec fn spec_enc(v: BITCollectionView) -> Seq<u8> {
        spec_enc_list::<BIT>(v.wifi) + spec_enc_list::<BIT>(v.lidar) + spec_enc_list::<BIT>(v.imu)
            + spec_enc_list::<BIT>(v.encoders) + spec_enc_list::<BIT>(v.power)
    }

    open spec fn spec_dec(b: Seq<u8>) -> Option<(BITCollectionView, Seq<u8>)> {
        match spec_dec_bit_group(b) {
            Some((wifi, r1)) => match spec_dec_bit_group(r1) {
                Some((lidar, r2)) => match spec_dec_bit_group(r2) {
                    Some((imu, r3)) => match spec_dec_bit_group(r3) {
                        Some((encoders, r4)) => match spec_dec_bit_group(r4) {
                            Some((power, r5)) => Some(
                                (BITCollectionView { wifi, lidar, imu, encoders, power }, r5),
                            ),
                            None => None,
                        },
                        None => None,
                    },
                    None => None,
                },
                None => None,
            },
            None => None,
        }
    }

    proof fn lemma_rt(v: BITCollectionView, rest: Seq<u8>) {
        let e_wifi = spec_enc_list::<BIT>(v.wifi);
        let e_lidar = spec_enc_list::<BIT>(v.lidar);
        let e_imu = spec_enc_list::<BIT>(v.imu);
        let e_enc = spec_enc_list::<BIT>(v.encoders);
        let e_power = spec_enc_list::<BIT>(v.power);
        assert(Self::spec_enc(v) + rest =~= e_wifi + (e_lidar + (e_imu + (e_enc + (e_power
            + rest)))));
        lemma_bit_group_rt(v.wifi, e_lidar + (e_imu + (e_enc + (e_power + rest))));
        lemma_bit_group_rt(v.lidar, e_imu + (e_enc + (e_power + rest)));
        lemma_bit_group_rt(v.imu, e_enc + (e_power + rest));
        lemma_bit_group_rt(v.encoders, e_power + rest);
        lemma_bit_group_rt(v.power, rest);
    }

    fn check(&self) -> (b: bool) {
        check_bit_group(&self.wifi) && check_bit_group(&self.lidar) && check_bit_group(&self.imu)
            && check_bit_group(&self.encoders) && check_bit_group(&self.power)
    }

    fn write(&self, out: &mut Vec<u8>) {
        write_list::<BIT>(out, &self.wifi);
        write_list::<BIT>(out, &self.lidar);
        write_list::<BIT>(out, &self.imu);
        write_list::<BIT>(out, &self.encoders);
        write_list::<BIT>(out, &self.power);
        assert(out@ =~= old(out)@ + Self::spec_enc(self@));
    }

    fn read(buf: &[u8], pos: usize) -> (r: Option<(Self, usize)>) {
        match read_bit_group(buf, pos) {
            None => None,
            Some((wifi, p1)) => match read_bit_group(buf, p1) {
                None => None,
                Some((lidar, p2)) => match read_bit_group(buf, p2) {
                    None => None,
                    Some((imu, p3)) => match read_bit_group(buf, p3) {
                        None => None,
                        Some((encoders, p4)) => match read_bit_group(buf, p4) {
                            None => None,
                            Some((power, p5)) => {
                                let c = BITCollection { wifi, lidar, imu, encoders, power };
                                assert(c@ =~= BITCollectionView {
                                    wifi: views_of(c.wifi@),
                                    lidar: views_of(c.lidar@),
                                    imu: views_of(c.imu@),
                                    encoders: views_of(c.encoders@),
                                    power: views_of(c.power@),
                                });
                                Some((c, p5))
                            },
                        },
                    },
                },
            },
        }
    }
}

/// The device's configuration state, snapshotted into telemetry.
#[derive(Debug, Clone, PartialEq, Eq)]
pub struct State {
    pub uid: Vec<u8>,
    pub ip: Option<Vec<u8>>,
    pub current_network_connection: Option<Vec<u8>>,
    pub available_network_connections: Vec<NetworkConnection>,
    pub built_in_test: BITCollection,
}

/// The mathematical shape of a [`State`].
#[verifier::ext_equal]
pub struct StateView {
    pub uid: Seq<u8>,
    pub ip: Option<Seq<u8>>,
    pub current_network_connection: Option<Seq<u8>>,
    pub available_network_connections: Seq<NetworkConnectionView>,
    pub built_in_test: BITCollectionView,
}

impl View for State {
    type V = StateView;

    open spec fn view(&self) -> StateView {
        StateView {
            uid: self.uid@,
            ip: spec_opt_view(self.ip),
            current_network_connection: spec_opt_view(self.current_network_connection),
            available_network_connections: views_of(self.available_network_connections@),
            built_in_test: self.built_in_test@,
        }
    }
}

impl WireRecord for State {
    open spec fn inv(v: StateView) -> bool {
        &&& v.uid.len() <= u16::MAX
        &&& (v.ip matches Some(s) ==> s.len() <= u16::MAX)
        &&& (v.current_network_connection matches Some(s) ==> s.len() <= u16::MAX)
        &&& v.available_network_connections.len() <= u16::MAX
        &&& (forall|i: int|
            0 <= i < v.available_network_connections.len() ==> <NetworkConnection as WireRecord>::inv(
                #[trigger] v.available_network_connections[i],
            ))
        &&& <BITCollection as WireRecord>::inv(v.built_in_test)
    }

    open spec fn spec_enc(v: StateView) -> Seq<u8> {
        spec_enc_bytes(v.uid) + spec_enc_opt_bytes(v.ip) + spec_enc_opt_bytes(
            v.current_network_connection,
        ) + spec_enc_list::<NetworkConnection>(v.available_network_connections)
            + <BITCollection as WireRecord>::spec_enc(v.built_in_test)
    }

    open spec fn spec_dec(b: Seq<u8>) -> Option<(StateView, Seq<u8>)> {
        match spec_dec_bytes(b) {
            Some((uid, r1)) => match spec_dec_opt_bytes(r1) {
                Some((ip, r2)) => match spec_dec_opt_bytes(r2) {
                    Some((current_network_connection, r3)) => match spec_dec_list::<
                        NetworkConnection,
                    >(r3) {
                        Some((available_network_connections, r4)) => match <BITCollection as WireRecord>::spec_dec(
                            r4,
                        ) {
                            Some((built_in_test, r5)) => Some(
                                (
                                    StateView {
                                        uid,
                                        ip,
                                        current_network_connection,
                                        available_network_connections,
                                        built_in_test,
                                    },
                                    r5,
                                ),
                            ),
                            None => None,
                        },
                        None => None,
                    },
                    None => None,
                },
                None => None,
            },
            None => None,
        }
    }

    proof fn lemma_rt(v: StateView, rest: Seq<u8>) {
        let e_uid = spec_enc_bytes(v.uid);
        let e_ip = spec_enc_opt_bytes(v.ip);
        let e_cur = spec_enc_opt_bytes(v.current_network_connection);
        let e_nw = spec_enc_list::<NetworkConnection>(v.available_network_connections);
        let e_bit = <BITCollection as WireRecord>::spec_enc(v.built_in_test);
        assert(Self::spec_enc(v) + rest =~= e_uid + (e_ip + (e_cur + (e_nw + (e_bit + rest)))));
        lemma_dec_bytes_rt(v.uid, e_ip + (e_cur + (e_nw + (e_bit + rest))));
        lemma_dec_opt_bytes_rt(v.ip, e_cur + (e_nw + (e_bit + rest)));
        lemma_dec_opt_bytes_rt(v.current_network_connection, e_nw + (e_bit + rest));
        lemma_dec_list_rt::<NetworkConnection>(v.available_network_connections, e_bit + rest);
        <BITCollection as WireRecord>::lemma_rt(v.built_in_test, rest);
    }

    fn check(&self) -> (b: bool) {
        let uid_ok = self.uid.len() <= u16::MAX as usize;
        let ip_ok = match &self.ip {
            Some(s) => s.len() <= u16::MAX as usize,
            None => true,
        };
        let cur_ok = match &self.current_network_connection {
            Some(s) => s.len() <= u16::MAX as usize,
            None => true,
        };
        let nw_ok = self.available_network_connections.len() <= u16::MAX as usize
            && check_records::<NetworkConnection>(&self.available_network_connections);
        uid_ok && ip_ok && cur_ok && nw_ok && self.built_in_test.check()
    }

    fn write(&self, out: &mut Vec<u8>) {
        push_bytes(out, &self.uid);
        push_opt_bytes(out, &self.ip);
        push_opt_bytes(out, &self.current_network_connection);
        write_list::<NetworkConnection>(out, &self.available_network_connections);
        self.built_in_test.write(out);
        assert(out@ =~= old(out)@ + Self::spec_enc(self@));
    }

    fn read(buf: &[u8], pos: usize) -> (r: Option<(Self, usize)>) {
        match read_bytes(buf, pos) {
            None => None,
            Some((uid, p1)) => match read_opt_bytes(buf, p1) {
                None => None,
                Some((ip, p2)) => match read_opt_bytes(buf, p2) {
                    None => None,
                    Some((current_network_connection, p3)) => match read_list::<NetworkConnection>(
                        buf,
                        p3,
                    ) {
                        None => None,
                        Some((available_network_connections, p4)) => match BITCollection::read(
                            buf,
                            p4,
                        ) {
                            None => None,
                            Some((built_in_test, p5)) => {
                                let s = State {
                                    uid,
                                    ip,
                                    current_network_connection,
                                    available_network_connections,
                                    built_in_test,
                                };
                                assert(Self::spec_dec(buf@.skip(pos as int)) == Some(
                                    (s@, buf@.skip(p5 as int)),
                                ));
                                Some((s, p5))
                            },
                        },
                    },
                },
            },
        }
    }
}

/// A configuration-channel message from the device.
#[derive(Debug, Clone, PartialEq, Eq)]
pub enum Message {
    State(State),
}

/// The mathematical shape of a configuration-channel device message.
pub enum MessageView {
    State(StateView),
}

impl View for Message {
    type V = MessageView;

    open spec fn view(&self) -> MessageView {
        match self {
            Message::State(s) => MessageView::State(s@),
        }
    }
}

impl WireMessage for Message {
    open spec fn inv(v: MessageView) -> bool {
        match v {
            MessageView::State(s) => <State as WireRecord>::inv(s),
        }
    }

    open spec fn spec_encode(v: MessageView) -> Seq<u8> {
        match v {
            MessageView::State(s) => seq![0u8] + <State as WireRecord>::spec_enc(s),
        }
    }

    open spec fn spec_decode(b: Seq<u8>) -> Option<MessageView> {
        match crate::wire::spec_dec_u8(b) {
            Some((t, r)) => if t == 0 {
                match <State as WireRecord>::spec_dec(r) {
                    Some((s, r2)) => if r2.len() == 0 {
                        Some(MessageView::State(s))
                    } else {
                        None
                    },
                    None => None,
                }
            } else {
                None
            },
            None => None,
        }
    }

    proof fn lemma_round_trip(v: MessageView) {
        match v {
            MessageView::State(s) => {
                let body = <State as WireRecord>::spec_enc(s);
                assert(Self::spec_encode(v) =~= seq![0u8] + body);
                lemma_dec_u8_rt(0, body);
                assert(body =~= body + Seq::<u8>::empty());
                <State as WireRecord>::lemma_rt(s, Seq::empty());
            },
        }
    }

    fn encode(&self) -> (r: Result<Vec<u8>, EncodeError>) {
        match self {
            Message::State(s) => {
                if !s.check() {
                    return Err(EncodeError::FieldTooLong);
                }
                let mut out: Vec<u8> = Vec::new();
                out.push(0);
                s.write(&mut out);
                assert(out@ =~= Self::spec_encode(self@));
                Ok(out)
            },
        }
    }

    fn decode(buf: &[u8]) -> (r: Result<Self, DecodeError>) {
        match read_u8(buf, 0) {
            None => Err(DecodeError::BadEncoding),
            Some((t, p1)) => {
                if t != 0 {
                    return Err(DecodeError::BadEncoding);
                }
                match State::read(buf, p1) {
                    None => Err(DecodeError::BadEncoding),
                    Some((s, p2)) => {
                        if p2 == buf.len() {
                            assert(buf@.skip(p2 as int).len() == 0);
                            Ok(Message::State(s))
                        } else {
                            Err(DecodeError::BadEncoding)
                        }
                    },
                }
            },
        }
    }
}

} // verus!
