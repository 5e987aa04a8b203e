//! Messages the device sends to hosts during nominal operation.

pub mod command;
pub mod data_offload;
