//! Sans-I/O message-link layer for the Mote educational robot.
//!
//! The crate is organised after the data path: a binary codec turns typed
//! messages into bytes, a byte-stuffing framer makes message boundaries
//! recoverable from an arbitrary byte stream, and a link owns the outbound
//! frame queue and the inbound byte ring. Around that core stand the
//! device-side state machines that feed the link: the LiDAR acquisition
//! protocol and the USB-C power-gate supervisor.

pub mod framer;
pub mod helpers;
pub mod wire;
pub mod codec;
pub mod comms;
pub mod configuration;
pub mod runtime;
pub mod tasks;

pub use tasks::drive_base::remap;
