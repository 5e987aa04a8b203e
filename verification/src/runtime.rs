//! Message schemas used during nominal operation: commands sent to the
//! device and the command responses and sensor data it sends back.

pub mod host_to_mote;
pub mod mote_to_host;
