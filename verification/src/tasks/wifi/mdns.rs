//! mDNS advertisement parameters: how the device announces its command
//! server on the local network.

use vstd::prelude::*;

use crate::tasks::wifi::tcp_server::TCP_SERVER_PORT;

verus! {

/// What the responder advertises: hostname `mote.local`, service
/// `_mote._tcp` on the command-server port, with a 60-second TTL.
#[derive(Debug, Clone, Copy, PartialEq, Eq)]
pub struct MdnsAdvertisement {
    pub hostname: &'static str,
    pub service: &'static str,
    pub protocol: &'static str,
    pub port: u16,
    pub ttl_secs: u32,
}

/// The advertisement the device publishes.
pub fn mdns_advertisement() -> (r: MdnsAdvertisement)
    ensures
        r.hostname@ == "mote"@,
        r.service@ == "_mote"@,
        r.protocol@ == "_tcp"@,
        r.port == TCP_SERVER_PORT,
        r.ttl_secs == 60,
{
    MdnsAdvertisement {
        hostname: "mote",
        service: "_mote",
        protocol: "_tcp",
        port: TCP_SERVER_PORT,
        ttl_secs: 60,
    }
}

} // verus!
