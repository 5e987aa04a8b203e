//! Data-offload server logic: the registry of hosts subscribed to the
//! sensor stream. Any datagram from an endpoint subscribes it; an endpoint
//! that became unreachable is removed.

use vstd::prelude::*;

verus! {

/// The UDP port the data-offload server listens on.
pub const UDP_SERVER_PORT: u16 = 7475;

/// One subscriber: an IPv4 address (big-endian octets packed into an
/// integer) and a port.
#[derive(Debug, Clone, Copy, PartialEq, Eq, Structural)]
pub struct Endpoint {
    pub addr: u32,
    pub port: u16,
}

/// The set of endpoints subscribed to the data-offload stream, in order of
/// first subscription.
#[derive(Debug, Clone, PartialEq, Eq)]
pub struct SubscriberRegistry {
    pub endpoints: Vec<Endpoint>,
}

impl SubscriberRegistry {
    /// An empty registry.
    pub fn new() -> (r: SubscriberRegistry)
        ensures
            r.endpoints@.len() == 0,
    {
        SubscriberRegistry { endpoints: Vec::new() }
    }

    /// Subscribe an endpoint: appended once, never twice.
    pub fn register(&mut self, ep: Endpoint)
        ensures
            final(self).endpoints@ == if old(self).endpoints@.contains(ep) {
                old(self).endpoints@
            } else {
                old(self).endpoints@.push(ep)
            },
    {
        let len = self.endpoints.len();
        let mut i: usize = 0;
        while i < len
            invariant
                i <= len,
                len == self.endpoints@.len(),
                self == old(self),
                forall|j: int| 0 <= j < i ==> self.endpoints@[j] != ep,
            decreases len - i,
        {
            if self.endpoints[i] == ep {
                return ;
            }
            i = i + 1;
        }
        proof {
            assert(!old(self).endpoints@.contains(ep));
        }
        self.endpoints.push(ep);
    }

    /// Drop the subscriber at `idx`, keeping the order of the rest.
    pub fn remove(&mut self, idx: usize)
        requires
            idx < old(self).endpoints@.len(),
        ensures
            final(self).endpoints@ == old(self).endpoints@.remove(idx as int),
    {
        self.endpoints.remove(idx);
    }

    /// How many endpoints are subscribed.
    pub fn len(&self) -> (n: usize)
        ensures
            n == self.endpoints@.len(),
    {
        self.endpoints.len()
    }

    /// The subscriber at `idx`.
    pub fn get(&self, idx: usize) -> (ep: Endpoint)
        requires
            idx < self.endpoints@.len(),
        ensures
            ep == self.endpoints@[idx as int],
    {
        self.endpoints[idx]
    }
}

} // verus!
