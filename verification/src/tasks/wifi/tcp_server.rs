//! Command-server logic: the response owed to each runtime command.

use vstd::prelude::*;

use crate::runtime::host_to_mote;
use crate::runtime::mote_to_host::command;

verus! {

/// The TCP port the command server listens on.
pub const TCP_SERVER_PORT: u16 = 7465;

/// The reply owed to one received runtime command: a ping is answered with
/// a ping response; everything else is logged and left unanswered.
pub fn parse_command_message(rx_message: &host_to_mote::Message) -> (r: Option<command::Message>)
    ensures
        r == match rx_message {
            host_to_mote::Message::Ping => Some(command::Message::PingResponse),
            _ => None::<command::Message>,
        },
{
    match rx_message {
        host_to_mote::Message::Ping => Some(command::Message::PingResponse),
        _ => None,
    }
}

} // verus!
