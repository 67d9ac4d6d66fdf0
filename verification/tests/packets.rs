use ersatz::arp;
use ersatz::ethernet;
use ersatz::icmp;
use ersatz::ipv4;
use ersatz::netinfo::NIC;
use ersatz::parse::ErrorKind;

/// Reference Internet checksum: big-endian words, odd byte padded with a
/// zero low byte, ones' complement sum, complemented; as a big-endian value.
fn reference_checksum_be(bytes: &[u8]) -> u16 {
    let mut sum: u32 = 0;
    let mut i = 0;
    while i + 1 < bytes.len() {
        sum += ((bytes[i] as u32) << 8) | bytes[i + 1] as u32;
        i += 2;
    }
    if i < bytes.len() {
        sum += (bytes[i] as u32) << 8;
    }
    while sum > 0xFFFF {
        sum = (sum & 0xFFFF) + (sum >> 16);
    }
    !(sum as u16)
}

fn nic() -> NIC {
    NIC {
        guid: "{ABC}".to_string(),
        gateway: ipv4::Addr([192, 168, 1, 1]),
        address: ipv4::Addr([192, 168, 1, 23]),
        phy_address: ethernet::Addr([0x00, 0x1A, 0x2B, 0x3C, 0x4D, 0x5E]),
    }
}

#[test]
fn checksum_known_values() {
    // RFC 1071 example words 0001 f203 f4f5 f6f7: sum ddf2, checksum 220d.
    let data = [0x00u8, 0x01, 0xf2, 0x03, 0xf4, 0xf5, 0xf6, 0xf7];
    let c = ipv4::checksum(&data);
    assert_eq!(c.to_le_bytes(), [0x22, 0x0d]);
    assert_eq!(ipv4::checksum(&[]), 0xFFFF);
    assert_eq!(ipv4::checksum(&[0xFF, 0xFF]), 0);
    // An odd trailing byte is a word of its own.
    assert_eq!(ipv4::checksum(&[0x12]), !0x0012u16);
    // End-around carry.
    assert_eq!(ipv4::checksum(&[0xFF, 0xFF, 0x01, 0x00]), !0x0001u16);
}

#[test]
fn checksum_matches_reference() {
    let mut bytes = Vec::new();
    for k in 0..301u32 {
        bytes.push((k.wrapping_mul(97) % 256) as u8);
        let c = ipv4::checksum(&bytes);
        assert_eq!(u16::from_be_bytes(c.to_le_bytes()), reference_checksum_be(&bytes));
    }
}

#[test]
fn mac_address_basics() {
    let a = ethernet::Addr::new(&[1, 2, 3, 4, 5, 6, 7]);
    assert_eq!(a.0, [1, 2, 3, 4, 5, 6]);
    assert_eq!(ethernet::Addr::zero().0, [0; 6]);
    assert_eq!(ethernet::Addr::broadcast().0, [0xFF; 6]);
    assert_eq!(nic().phy_address.to_string(), "00-1A-2B-3C-4D-5E");
    assert_eq!(ethernet::Addr::broadcast().to_string(), "FF-FF-FF-FF-FF-FF");
    let mut out = vec![9u8];
    a.serialize(&mut out);
    assert_eq!(out, vec![9, 1, 2, 3, 4, 5, 6]);
    let (rest, b) = ethernet::Addr::parse(&[6, 5, 4, 3, 2, 1, 0]).unwrap();
    assert_eq!(rest, &[0u8][..]);
    assert!(b == ethernet::Addr([6, 5, 4, 3, 2, 1]));
    let e = ethernet::Addr::parse(&[1, 2, 3]).unwrap_err();
    assert_eq!(e.errors.len(), 1);
    assert_eq!(e.errors[0].0, &[1u8, 2, 3][..]);
    assert_eq!(e.errors[0].1, ErrorKind::Eof);
}

#[test]
fn ether_type_values() {
    assert_eq!(ethernet::EtherType::from_u16(0x0800), Some(ethernet::EtherType::IPv4));
    assert_eq!(ethernet::EtherType::from_u16(0x0806), Some(ethernet::EtherType::ARP));
    assert_eq!(ethernet::EtherType::from_u16(0x86DD), None);
    let (rest, t) = ethernet::EtherType::parse(&[0x08, 0x06, 0xAA]).unwrap();
    assert_eq!(t, Some(ethernet::EtherType::ARP));
    assert_eq!(rest, &[0xAAu8][..]);
    let mut out = Vec::new();
    ethernet::EtherType::IPv4.serialize(&mut out);
    assert_eq!(out, vec![0x08, 0x00]);
    assert!(ethernet::EtherType::parse(&[0x08]).is_err());
}

#[test]
fn ipv4_address_basics() {
    assert_eq!(ipv4::Addr::zero(), ipv4::Addr([0, 0, 0, 0]));
    let (rest, a) = ipv4::Addr::parse(&[10, 0, 0, 1, 99]).unwrap();
    assert_eq!(a, ipv4::Addr([10, 0, 0, 1]));
    assert_eq!(rest, &[99u8][..]);
    let mut out = Vec::new();
    a.serialize(&mut out);
    assert_eq!(out, vec![10, 0, 0, 1]);
    let e = ipv4::Addr::parse(&[10, 0]).unwrap_err();
    assert_eq!(e.errors[0].0, &[10u8, 0][..]);
}

#[test]
fn protocol_values() {
    assert_eq!(ipv4::Protocol::from_u8(1), Some(ipv4::Protocol::ICMP));
    assert_eq!(ipv4::Protocol::from_u8(6), Some(ipv4::Protocol::TCP));
    assert_eq!(ipv4::Protocol::from_u8(0x11), Some(ipv4::Protocol::UDP));
    assert_eq!(ipv4::Protocol::from_u8(2), None);
    let mut out = Vec::new();
    ipv4::Protocol::UDP.serialize(&mut out);
    assert_eq!(out, vec![0x11]);
    let (_, p) = ipv4::Protocol::parse(&[6]).unwrap();
    assert_eq!(p, Some(ipv4::Protocol::TCP));
}

#[test]
fn arp_request_bytes_and_roundtrip() {
    let n = nic();
    let p = arp::Packet::request(&n, ipv4::Addr([192, 168, 1, 1]));
    assert_eq!(p.operation, arp::Operation::Request);
    assert!(p.target_hw_addr == ethernet::Addr::zero());
    let mut out = Vec::new();
    p.serialize(&mut out);
    assert_eq!(
        out,
        vec![
            0, 1, 8, 0, 6, 4, 0, 1, 0x00, 0x1A, 0x2B, 0x3C, 0x4D, 0x5E, 192, 168, 1, 23, 0, 0, 0,
            0, 0, 0, 192, 168, 1, 1
        ]
    );
    out.push(0xEE);
    assert!(arp::Packet::is_safe_to_parse(&out));
    let (rest, q) = arp::Packet::parse(&out).unwrap();
    assert_eq!(rest, &[0xEEu8][..]);
    assert_eq!(q.operation, arp::Operation::Request);
    assert!(q.sender_hw_addr == n.phy_address);
    assert_eq!(q.sender_ip_addr, n.address);
    assert_eq!(q.target_ip_addr, ipv4::Addr([192, 168, 1, 1]));
}

#[test]
fn arp_parse_errors() {
    let bytes = [0u8, 1, 8, 0, 6, 4, 0, 2, 1, 2, 3];
    let e = arp::Packet::parse(&bytes).unwrap_err();
    assert_eq!(e.errors[0].0, &bytes[8..]);
    let short = [0u8, 1, 8];
    let e = arp::Packet::parse(&short).unwrap_err();
    assert_eq!(e.errors[0].0, &short[2..]);
    // An unknown operation makes parsing panic.
    assert!(!arp::Packet::is_safe_to_parse(&[0, 1, 8, 0, 6, 4, 0, 3]));
    assert!(arp::Packet::is_safe_to_parse(&[0, 1, 8, 0, 6, 4, 0]));
    assert_eq!(arp::Operation::from_u16(2), Some(arp::Operation::Reply));
    assert_eq!(arp::Operation::from_u16(3), None);
    assert_eq!(arp::HardwareType::from_u16(1), Some(arp::HardwareType::Ethernet));
    assert_eq!(arp::HardwareType::from_u16(6), None);
}

#[test]
fn icmp_type_conversions() {
    assert_eq!(icmp::Type::from((0, 5)), icmp::Type::EchoReply);
    assert_eq!(icmp::Type::from((8, 1)), icmp::Type::EchoRequest);
    assert_eq!(
        icmp::Type::from((3, 1)),
        icmp::Type::DestinationUnreachable(icmp::DestinationUnreachable::HostUnreachable)
    );
    assert_eq!(
        icmp::Type::from((3, 4)),
        icmp::Type::DestinationUnreachable(icmp::DestinationUnreachable::Other(4))
    );
    assert_eq!(icmp::Type::from((11, 0)), icmp::Type::TimeExceeded(icmp::TimeExceeded::TTLExpired));
    assert_eq!(icmp::Type::from((11, 1)), icmp::Type::TimeExceeded(icmp::TimeExceeded::Other(1)));
    assert_eq!(icmp::Type::from((42, 7)), icmp::Type::Other(42, 7));
    assert_eq!(icmp::DestinationUnreachable::from(1), icmp::DestinationUnreachable::HostUnreachable);
    assert_eq!(icmp::TimeExceeded::from(9), icmp::TimeExceeded::Other(9));
}

fn echo_request() -> icmp::Packet {
    icmp::Echo { identifier: 0xC0DE, sequence_number: 3 }.as_echo_request(b"Hello World")
}

#[test]
fn icmp_echo_request_bytes() {
    let p = echo_request();
    assert_eq!(p.typ, icmp::Type::EchoRequest);
    assert_eq!(p.checksum, 0);
    assert_eq!(p.payload.0, b"Hello World".to_vec());
    let mut nc = Vec::new();
    p.serialize_no_checksum(&mut nc);
    let mut expected = vec![8u8, 0, 0, 0, 0xC0, 0xDE, 0, 3];
    expected.extend_from_slice(b"Hello World");
    assert_eq!(nc, expected);
    let mut out = Vec::new();
    p.serialize(&mut out);
    let c = reference_checksum_be(&expected);
    expected[2] = (c >> 8) as u8;
    expected[3] = (c & 0xFF) as u8;
    assert_eq!(out, expected);
    // The written packet checks to zero.
    assert_eq!(ipv4::checksum(&out), 0);
}

#[test]
fn icmp_roundtrip() {
    let reply = icmp::Packet {
        typ: icmp::Type::EchoReply,
        checksum: 1234,
        header: icmp::Header::EchoReply(icmp::Echo { identifier: 7, sequence_number: 9 }),
        payload: ersatz::blob::Blob::new(&[1, 2, 3]),
    };
    let mut out = Vec::new();
    reply.serialize(&mut out);
    assert!(icmp::Packet::is_safe_to_parse(&out));
    let (rest, q) = icmp::Packet::parse(&out).unwrap();
    // The payload is copied; the header is all that counts as read.
    assert_eq!(rest, &[1u8, 2, 3][..]);
    assert_eq!(q.typ, icmp::Type::EchoReply);
    assert_eq!(q.header, reply.header);
    assert_eq!(q.payload.0, vec![1, 2, 3]);
    assert_eq!(q.checksum, u16::from_be_bytes([out[2], out[3]]));
    let mut again = Vec::new();
    q.serialize(&mut again);
    assert_eq!(again, out);
}

#[test]
fn icmp_parse_checks() {
    // A bad checksum, a non-zero code or an unwritable type make parsing panic.
    let mut out = Vec::new();
    echo_request().serialize(&mut out);
    let mut bad = out.clone();
    bad[2] ^= 1;
    assert!(!icmp::Packet::is_safe_to_parse(&bad));
    let mut coded = out.clone();
    coded[1] = 1;
    assert!(!icmp::Packet::is_safe_to_parse(&coded));
    assert!(!icmp::Packet::is_safe_to_parse(&[3, 1, 0, 0, 0, 0, 0, 0]));
    // Too short: the error points at the field that ran out.
    let e = icmp::Packet::parse(&[8, 0, 0, 0, 1, 2, 3]).unwrap_err();
    assert_eq!(e.errors[0].0, &[3u8][..]);
    let e = icmp::Packet::parse(&[3, 0, 0, 0, 1, 2, 3]).unwrap_err();
    assert_eq!(e.errors[0].0, &[1u8, 2, 3][..]);
    assert!(icmp::Packet::is_safe_to_parse(&[3, 1, 0]));
}

fn ipv4_packet() -> ipv4::Packet {
    let mut p = echo_request()
        .as_ipv4_payload()
        .as_packet(ipv4::Addr([10, 0, 0, 2]), ipv4::Addr([8, 8, 8, 8]));
    p.identification = 0x1234;
    p
}

#[test]
fn ipv4_default_and_as_packet() {
    let d = ipv4::Packet::default();
    assert_eq!((d.version, d.ihl, d.dscp, d.ecn, d.flags, d.fragment_offset), (4, 5, 0, 0, 0, 0));
    assert_eq!((d.length, d.ttl, d.checksum), (0, 128, 0));
    assert_eq!(d.protocol, None);
    assert!(matches!(d.payload, ipv4::Payload::Unknown));
    let p = echo_request().as_ipv4_payload();
    assert_eq!(p.protocol(), ipv4::Protocol::ICMP);
    let q = p.as_packet(ipv4::Addr([1, 2, 3, 4]), ipv4::Addr([5, 6, 7, 8]));
    assert_eq!(q.protocol, Some(ipv4::Protocol::ICMP));
    assert_eq!(q.src, ipv4::Addr([1, 2, 3, 4]));
    assert_eq!(q.dst, ipv4::Addr([5, 6, 7, 8]));
    assert_eq!(q.ttl, 128);
}

#[test]
fn ipv4_serialize_and_parse() {
    let p = ipv4_packet();
    let mut icmp_bytes = Vec::new();
    echo_request().serialize(&mut icmp_bytes);
    let mut out = Vec::new();
    p.serialize(&mut out);
    assert_eq!(out.len(), 20 + icmp_bytes.len());
    assert_eq!(&out[..2], &[0x45, 0x00]);
    assert_eq!(u16::from_be_bytes([out[2], out[3]]) as usize, out.len());
    assert_eq!(&out[4..10], &[0x12, 0x34, 0, 0, 128, 1]);
    assert_eq!(&out[12..20], &[10, 0, 0, 2, 8, 8, 8, 8]);
    assert_eq!(&out[20..], &icmp_bytes[..]);
    assert_eq!(ipv4::checksum(&out[..20]), 0);
    let c = reference_checksum_be(&{
        let mut h = out[..20].to_vec();
        h[10] = 0;
        h[11] = 0;
        h
    });
    assert_eq!([out[10], out[11]], c.to_be_bytes());

    assert!(ipv4::Packet::is_safe_to_parse(&out));
    let (rest, q) = ipv4::Packet::parse(&out).unwrap();
    assert_eq!(rest, &b"Hello World"[..]);
    assert_eq!((q.version, q.ihl, q.ttl, q.identification), (4, 5, 128, 0x1234));
    assert_eq!(q.length as usize, out.len());
    assert_eq!(q.protocol, Some(ipv4::Protocol::ICMP));
    assert_eq!(q.src, p.src);
    match q.payload {
        ipv4::Payload::ICMP(ref i) => assert_eq!(i.payload.0, b"Hello World".to_vec()),
        _ => panic!("expected an ICMP payload"),
    }
    let mut no_checksum = Vec::new();
    p.serialize_no_checksum(&mut no_checksum);
    assert_eq!(&no_checksum[2..4], &[0, 0]);
    assert_eq!(&no_checksum[10..12], &[0, 0]);
}

#[test]
fn ipv4_parse_fields_and_errors() {
    let mut h = vec![0x4F, 0xB7, 0x01, 0x02, 0x03, 0x04, 0xA5, 0x67, 64, 17, 0xAB, 0xCD];
    h.extend_from_slice(&[1, 2, 3, 4, 5, 6, 7, 8, 0xEE]);
    let (rest, q) = ipv4::Packet::parse(&h).unwrap();
    assert_eq!(rest, &[0xEEu8][..]);
    assert_eq!((q.version, q.ihl, q.dscp, q.ecn), (4, 15, 0xB7 >> 2, 3));
    assert_eq!((q.length, q.identification), (0x0102, 0x0304));
    assert_eq!((q.flags, q.fragment_offset), (5, 0x0567));
    assert_eq!((q.ttl, q.protocol, q.checksum), (64, Some(ipv4::Protocol::UDP), 0xABCD));
    assert!(matches!(q.payload, ipv4::Payload::Unknown));
    let e = ipv4::Packet::parse(&h[..7]).unwrap_err();
    assert_eq!(e.errors[0].0, &h[6..7]);
    let e = ipv4::Packet::parse(&h[..19]).unwrap_err();
    assert_eq!(e.errors[0].0, &h[16..19]);
    // Version 6 makes parsing panic.
    assert!(!ipv4::Packet::is_safe_to_parse(&[0x60]));
    assert!(ipv4::Packet::is_safe_to_parse(&[]));
}

#[test]
fn frame_roundtrips() {
    let n = nic();
    let gw = ethernet::Addr([1, 1, 1, 1, 1, 1]);
    let frame = ipv4_packet().as_ethernet_payload().as_frame(&n, gw);
    assert!(frame.ether_type.is_none());
    let mut out = Vec::new();
    frame.serialize(&mut out);
    assert_eq!(&out[..6], &[1, 1, 1, 1, 1, 1]);
    assert_eq!(&out[6..12], &n.phy_address.0);
    assert_eq!(&out[12..14], &[0x08, 0x00]);
    assert!(ethernet::Frame::is_safe_to_parse(&out));
    let (rest, f) = ethernet::Frame::parse(&out).unwrap();
    assert_eq!(rest, &b"Hello World"[..]);
    assert_eq!(f.ether_type, Some(ethernet::EtherType::IPv4));
    assert!(f.dst == gw && f.src == n.phy_address);

    let arp_frame = arp::Packet::request(&n, n.gateway).as_ethernet_payload().as_broadcast_frame(&n);
    let mut out = Vec::new();
    arp_frame.serialize(&mut out);
    assert_eq!(out.len(), 42);
    assert_eq!(&out[..6], &[0xFF; 6]);
    assert_eq!(&out[12..14], &[0x08, 0x06]);
    let (_, f) = ethernet::Frame::parse(&out).unwrap();
    match f.payload {
        ethernet::Payload::ARP(a) => assert_eq!(a.target_ip_addr, n.gateway),
        _ => panic!("expected an ARP payload"),
    }
}

#[test]
fn frame_unknown_and_short() {
    let bytes = [1u8, 2, 3, 4, 5, 6, 7, 8, 9, 10, 11, 12, 0x86, 0xDD, 0x60];
    let (rest, f) = ethernet::Frame::parse(&bytes).unwrap();
    assert_eq!(rest, &[0x60u8][..]);
    assert_eq!(f.ether_type, None);
    assert!(matches!(f.payload, ethernet::Payload::Unknown));
    let e = ethernet::Frame::parse(&bytes[..13]).unwrap_err();
    assert_eq!(e.errors[0].0, &bytes[12..13]);
    let mut arp_bad = bytes[..12].to_vec();
    arp_bad.extend_from_slice(&[0x08, 0x06, 0, 1, 8, 0, 6, 4, 0, 9]);
    assert!(!ethernet::Frame::is_safe_to_parse(&arp_bad));
    let mut ip_short = bytes[..12].to_vec();
    ip_short.extend_from_slice(&[0x08, 0x00, 0x45, 0]);
    let e = ethernet::Frame::parse(&ip_short).unwrap_err();
    assert_eq!(e.errors[0].0, &ip_short[16..]);
}

#[test]
fn parse_error_accumulates() {
    let e = ersatz::parse::Error::from_error_kind(3u8, ErrorKind::Eof);
    let e = ersatz::parse::Error::append(4u8, ErrorKind::Eof, e);
    assert_eq!(e.errors, vec![(3, ErrorKind::Eof), (4, ErrorKind::Eof)]);
}

#[test]
fn bit_errors_point_at_their_byte() {
    let bytes = [1u8, 2, 3];
    let e = ersatz::parse::Error {
        errors: vec![((&bytes[..], 9usize), ErrorKind::Eof), ((&bytes[..], 7usize), ErrorKind::Eof)],
    };
    let c = e.convert();
    assert_eq!(c.errors, vec![(&bytes[1..], ErrorKind::Eof), (&bytes[..], ErrorKind::Eof)]);
}
