//! Connection-manager logic: the join policy and the rules that maintain
//! the list of visible networks. The radio shell performs the joins and the
//! scans; each of its decisions is a function here.

use vstd::prelude::*;

use crate::codec::views_of;
use crate::configuration::host_to_mote::SetNetworkConnectionConfig;
use crate::configuration::mote_to_host::NetworkConnection;
use crate::configuration::mote_to_host::NetworkConnectionView;
use crate::helpers::bytes_eq;

verus! {

/// How many times a join is attempted before giving up.
pub const NETWORK_JOIN_ATTEMPTS: u32 = 3;

/// Entries beyond this many make the scan list drop its weakest network.
pub const MAX_TRACKED_NETWORKS: usize = 50;

/// How one join attempt is made.
#[derive(Debug, Clone, Copy, PartialEq, Eq, Structural)]
pub enum JoinMode {
    /// WPA2 + WPA3 with AES, using the configured password.
    Secured,
    /// An open join, for passwords shorter than the WPA minimum.
    Open,
}

/// The join mode owed to a configuration: secured exactly when the
/// password is at least eight bytes long.
pub fn join_mode(config: &SetNetworkConnectionConfig) -> (r: JoinMode)
    ensures
        r == if config.password@.len() >= 8 {
            JoinMode::Secured
        } else {
            JoinMode::Open
        },
{
    if config.password.len() >= 8 {
        JoinMode::Secured
    } else {
        JoinMode::Open
    }
}

/// What the join loop does after an attempt.
#[derive(Debug, Clone, Copy, PartialEq, Eq, Structural)]
pub enum JoinVerdict {
    /// The network was joined; record the connection and stop.
    Joined,
    /// The attempt failed but attempts remain; try again.
    Retry,
    /// The attempt failed and no attempts remain; record the failure.
    GiveUp,
}

/// The verdict after attempt number `attempt` (1-based) turned out
/// `joined`.
pub fn join_verdict(joined: bool, attempt: u32) -> (r: JoinVerdict)
    ensures
        r == if joined {
            JoinVerdict::Joined
        } else if attempt < NETWORK_JOIN_ATTEMPTS {
            JoinVerdict::Retry
        } else {
            JoinVerdict::GiveUp
        },
{
    if joined {
        JoinVerdict::Joined
    } else if attempt < NETWORK_JOIN_ATTEMPTS {
        JoinVerdict::Retry
    } else {
        JoinVerdict::GiveUp
    }
}

/// Whether a scanned SSID is worth recording: at least one byte differs
/// from zero.
pub fn scan_ssid_usable(ssid: &[u8]) -> (r: bool)
    ensures
        r == !(forall|i: int| 0 <= i < ssid@.len() ==> ssid@[i] == 0),
{
    let len = ssid.len();
    let mut i: usize = 0;
    while i < len
        invariant
            i <= len,
            len == ssid@.len(),
            forall|j: int| 0 <= j < i ==> ssid@[j] == 0,
        decreases len - i,
    {
        if ssid[i] != 0 {
            return true;
        }
        i = i + 1;
    }
    false
}

/// The smaller of two strengths (strength is negated RSSI, so smaller
/// means stronger).
pub open spec fn spec_min_strength(a: u8, b: u8) -> u8 {
    if a <= b {
        a
    } else {
        b
    }
}

/// Fold one scan result into the list of visible networks.
///
/// A network already listed keeps one entry, at its strongest strength seen.
/// A new network is appended; when more than [`MAX_TRACKED_NETWORKS`] are
/// already listed and the weakest of them is weaker than the newcomer, that
/// weakest entry (the last such, on ties) is dropped first.
pub fn note_scan_result(list: &mut Vec<NetworkConnection>, ssid: Vec<u8>, strength: u8)
    ensures
        ({
            let before = views_of(old(list)@);
            let after = views_of(final(list)@);
            let fresh = (NetworkConnectionView { ssid: ssid@, strength });
            if exists|i: int| 0 <= i < before.len() && (#[trigger] before[i]).ssid == ssid@ {
                exists|i: int|
                    #![auto]
                    {
                        &&& 0 <= i < before.len()
                        &&& before[i].ssid == ssid@
                        &&& (forall|j: int| 0 <= j < i ==> (#[trigger] before[j]).ssid != ssid@)
                        &&& after == before.update(
                            i,
                            NetworkConnectionView {
                                ssid: ssid@,
                                strength: spec_min_strength(before[i].strength, strength),
                            },
                        )
                    }
            } else if before.len() <= MAX_TRACKED_NETWORKS {
                after == before.push(fresh)
            } else {
                exists|w: int|
                    #![auto]
                    {
                        &&& 0 <= w < before.len()
                        &&& (forall|j: int|
                            0 <= j < before.len() ==> (#[trigger] before[j]).strength
                                <= before[w].strength)
                        &&& (forall|j: int|
                            w < j < before.len() ==> (#[trigger] before[j]).strength
                                < before[w].strength)
                        &&& after == if before[w].strength > strength {
                            before.remove(w).push(fresh)
                        } else {
                            before.push(fresh)
                        }
                    }
            }
        }),
{
    let ghost before = views_of(list@);
    let len = list.len();
    let mut i: usize = 0;
    while i < len
        invariant
            i <= len,
            len == list@.len(),
            list@ == old(list)@,
            before == views_of(list@),
            forall|j: int| 0 <= j < i ==> (#[trigger] before[j]).ssid != ssid@,
        decreases len - i,
    {
        proof {
            assert(before[i as int] == list@[i as int]@);
        }
        let hit = bytes_eq(list[i].ssid.as_slice(), ssid.as_slice());
        if hit {
            let combined = if list[i].strength <= strength {
                list[i].strength
            } else {
                strength
            };
            list.set(i, NetworkConnection { ssid, strength: combined });
            proof {
                assert(views_of(list@) =~= before.update(
                    i as int,
                    NetworkConnectionView {
                        ssid: old(list)@[i as int]@.ssid,
                        strength: spec_min_strength(before[i as int].strength, strength),
                    },
                ));
            }
            return ;
        }
        i = i + 1;
    }
    if len <= MAX_TRACKED_NETWORKS {
        list.push(NetworkConnection { ssid, strength });
        proof {
            assert(views_of(list@) =~= before.push(NetworkConnectionView { ssid: ssid@, strength }));
        }
        return ;
    }
    let mut w: usize = 0;
    let mut j: usize = 1;
    while j < len
        invariant
            1 <= j <= len,
            w < j,
            len == list@.len(),
            list@ == old(list)@,
            before == views_of(list@),
            forall|k: int| 0 <= k < j ==> (#[trigger] before[k]).strength <= before[w as int].strength,
            forall|k: int| w < k < j ==> (#[trigger] before[k]).strength < before[w as int].strength,
        decreases len - j,
    {
        proof {
            assert(before[j as int] == list@[j as int]@);
            assert(before[w as int] == list@[w as int]@);
        }
        if list[j].strength >= list[w].strength {
            w = j;
        }
        j = j + 1;
    }
    proof {
        assert(before[w as int] == list@[w as int]@);
    }
    if list[w].strength > strength {
        list.remove(w);
        list.push(NetworkConnection { ssid, strength });
        proof {
            assert(views_of(list@) =~= before.remove(w as int).push(
                NetworkConnectionView { ssid: ssid@, strength },
            ));
        }
    } else {
        list.push(NetworkConnection { ssid, strength });
        proof {
            assert(views_of(list@) =~= before.push(NetworkConnectionView { ssid: ssid@, strength }));
        }
    }
}

} // verus!
