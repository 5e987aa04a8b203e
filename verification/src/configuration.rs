//! Message schemas used for configuration, status and built-in test.

pub mod host_to_mote;
pub mod mote_to_host;
