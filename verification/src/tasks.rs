//! Device-side subsystem logic: every decision these tasks make is a pure
//! function here; the hardware and socket shells that run them live outside
//! the library.

pub mod drive_base;
pub mod lidar;
pub mod power_gate;
pub mod usb_serial;
pub mod wifi;

use vstd::prelude::*;

use crate::configuration::mote_to_host::BITCollection;
use crate::configuration::mote_to_host::BITCollectionView;
use crate::configuration::mote_to_host::State;
use crate::configuration::mote_to_host::StateView;

verus! {

/// The configuration state the device boots with: the given identity, no
/// address, no network, nothing scanned, and every built-in-test group
/// empty until its subsystem registers its tests.
pub fn initial_configuration_state(uid: Vec<u8>) -> (s: State)
    ensures
        s@ == (StateView {
            uid: uid@,
            ip: None,
            current_network_connection: None,
            available_network_connections: Seq::empty(),
            built_in_test: BITCollectionView {
                wifi: Seq::empty(),
                lidar: Seq::empty(),
                imu: Seq::empty(),
                encoders: Seq::empty(),
                power: Seq::empty(),
            },
        }),
{
    let s = State {
        uid,
        ip: None,
        current_network_connection: None,
        available_network_connections: Vec::new(),
        built_in_test: BITCollection {
            wifi: Vec::new(),
            lidar: Vec::new(),
            imu: Vec::new(),
            encoders: Vec::new(),
            power: Vec::new(),
        },
    };
    proof {
        assert(s@ =~= (StateView {
            uid: uid@,
            ip: None,
            current_network_connection: None,
            available_network_connections: Seq::empty(),
            built_in_test: BITCollectionView {
                wifi: Seq::empty(),
                lidar: Seq::empty(),
                imu: Seq::empty(),
                encoders: Seq::empty(),
                power: Seq::empty(),
            },
        }));
    }
    s
}

} // verus!
