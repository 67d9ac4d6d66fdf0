//! The decisions of a network interface that captures frames: which
//! captured frame answers the ARP request for the gateway.
use vstd::prelude::*;
use crate::arp;
use crate::ethernet;
use crate::ipv4;

verus! {

/// The MAC address that a captured frame gives for `gateway_ip`: that of
/// the sender of an ARP reply from `gateway_ip`, if the frame is one.
pub open spec fn gateway_reply(packet: Seq<u8>, gateway_ip: ipv4::Addr) -> Option<ethernet::Addr> {
    match ethernet::parse_frame(packet) {
        Ok((_, f)) => match f.payload {
            ethernet::PayloadModel::ARP(a) => if a.operation == arp::Operation::Reply
                && a.sender_ip_addr == gateway_ip {
                Some(a.sender_hw_addr)
            } else {
                None
            },
            _ => None,
        },
        Err(_) => None,
    }
}

/// The gateway's MAC address, if the captured `packet` is the ARP reply
/// from `gateway_ip`.
pub fn gateway_mac_from(packet: &[u8], gateway_ip: ipv4::Addr) -> (r: Option<ethernet::Addr>)
    requires
        ethernet::parse_is_safe(packet@),
    ensures
        r == gateway_reply(packet@, gateway_ip),
{
    let frame = match ethernet::Frame::parse(packet) {
        Ok((_remaining, frame)) => frame,
        Err(_) => return None,
    };
    let arp = match frame.payload {
        ethernet::Payload::ARP(x) => x,
        _ => return None,
    };
    if let arp::Operation::Reply = arp.operation {
        if arp.sender_ip_addr == gateway_ip {
            return Some(arp.sender_hw_addr);
        }
    }
    None
}

} // verus!

verus! {

/// A captured frame gives the gateway's MAC address `m` exactly when it is
/// an ARP packet (EtherType 08 06, at least 42 bytes) whose operation is a
/// reply (00 02 at byte 20), whose sender IPv4 address (bytes 28..32) is the
/// gateway's, and whose sender MAC address (bytes 22..28) is `m`. In
/// particular an ARP request never gives an address.
pub proof fn lemma_gateway_reply_is_the_gateways_arp_reply(
    s: Seq<u8>,
    gateway_ip: ipv4::Addr,
    m: ethernet::Addr,
)
    requires
        ethernet::parse_is_safe(s),
    ensures
        gateway_reply(s, gateway_ip) == Some(m) <==> {
            &&& s.len() >= 42
            &&& s[12] == 8 && s[13] == 6
            &&& s[20] == 0 && s[21] == 2
            &&& s.subrange(28, 32) == gateway_ip.0@
            &&& s.subrange(22, 28) == m.0@
        },
        (s.len() >= 42 && s[12] == 8 && s[13] == 6 && s[20] == 0 && s[21] == 1) ==> gateway_reply(
            s,
            gateway_ip,
        ) is None,
{
    let t = s.skip(14);
    if s.len() >= 42 && s[12] == 8 && s[13] == 6 {
        assert(ethernet::parse_frame(s) is Ok);
        arp::lemma_parse_reads_fields(t);
        let a = arp::parse_packet(t)->Ok_0.1;
        assert(t.subrange(8, 14) =~= s.subrange(22, 28));
        assert(t.subrange(14, 18) =~= s.subrange(28, 32));
        if a.sender_ip_addr.0@ == gateway_ip.0@ {
            assert(a.sender_ip_addr.0 =~= gateway_ip.0);
        }
        if a.sender_hw_addr.0@ == m.0@ {
            assert(a.sender_hw_addr.0 =~= m.0);
        }
    } else if s.len() >= 14 {
        if ethernet::parse_frame(s) is Ok {
            ethernet::lemma_parse_reads_frame_header(s);
        }
    }
}

} // verus!
