//! The decisions of a ping that goes through the system's ICMP service,
//! and the dotted-decimal addresses it is given.

pub mod icmp;
pub mod ipv4;
