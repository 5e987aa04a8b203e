//! Networking task logic. The radio bring-up, the sockets and the mDNS
//! responder live in the shell; what stands here is every decision they
//! make: command parsing, the subscriber registry, the scan-list rules and
//! the advertisement parameters.

pub mod connection_manager;
pub mod mdns;
pub mod tcp_server;
pub mod udp_server;
