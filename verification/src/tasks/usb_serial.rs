//! Configuration-serial logic: applying a host command to the device's
//! configuration state. The USB-CDC shell reads packets, feeds them to a
//! configuration link, and hands each decoded command to
//! [`handle_host_message`]; the action returned tells it which subsystem to
//! nudge.

use vstd::prelude::*;

use crate::configuration::host_to_mote::Message;
use crate::configuration::host_to_mote::MessageView;
use crate::configuration::host_to_mote::SetNetworkConnectionConfig;
use crate::configuration::mote_to_host::State;
use crate::configuration::mote_to_host::StateView;

verus! {

/// What the shell around the configuration link must do next.
#[derive(Debug, Clone, PartialEq, Eq)]
pub enum ConfigAction {
    /// Hand these credentials to the connection manager.
    RequestConnect(SetNetworkConnectionConfig),
    /// Signal the connection manager to rescan.
    RequestRescan,
    /// The state was updated in place; nothing further to do.
    UpdatedUid,
}

/// Apply one host configuration command: credentials and rescan requests
/// are routed onward untouched, and an identity change is applied to the
/// configuration state at once.
pub fn handle_host_message(state: &mut State, msg: Message) -> (r: ConfigAction)
    ensures
        match msg@ {
            MessageView::SetNetworkConnectionConfig(c) => final(state)@ == old(state)@ && (
            r matches ConfigAction::RequestConnect(rc) && rc@ == c),
            MessageView::SetUID(u) => r == ConfigAction::UpdatedUid && final(state)@ == (StateView {
                uid: u.uid,
                ..old(state)@
            }),
            MessageView::RequestNetworkScan => r == ConfigAction::RequestRescan && final(state)@
                == old(state)@,
        },
{
    match msg {
        Message::SetNetworkConnectionConfig(c) => ConfigAction::RequestConnect(c),
        Message::SetUID(u) => {
            state.uid = u.uid;
            proof {
                assert(state@ =~= (StateView { uid: state.uid@, ..old(state)@ }));
            }
            ConfigAction::UpdatedUid
        },
        Message::RequestNetworkScan => ConfigAction::RequestRescan,
    }
}

} // verus!
