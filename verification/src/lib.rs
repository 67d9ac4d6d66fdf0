//! Parsing and serialization of Ethernet, ARP, IPv4 and ICMP packets,
//! with the decisions of a raw-socket ping tool.

pub mod inet_sum;
pub mod ipv4;
pub mod parse;
pub mod serialize;
pub mod text;
pub mod ethernet;
pub mod arp;
pub mod netinfo;
pub mod blob;
pub mod icmp;
pub mod error;
pub mod interface;
pub mod vls;
pub mod ping;
