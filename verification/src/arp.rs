//! ARP packets for IPv4 over Ethernet.
use vstd::prelude::*;
use crate::ethernet;
use crate::ipv4;
use crate::parse::{be16, fail_at, outcome_of, read_be16, rest_after, Input, PResult};
use crate::serialize::{be16_bytes, write_be16, write_u8};

verus! {

/// The ARP operations this crate knows.
#[derive(Debug, Clone, Copy, PartialEq, Eq, Structural)]
pub enum Operation {
    Request,
    Reply,
}

impl View for Operation {
    type V = Operation;

    open spec fn view(&self) -> Operation {
        *self
    }
}

/// The operation with number `v`, if this crate knows it.
pub open spec fn operation_from(v: u16) -> Option<Operation> {
    if v == 1 {
        Some(Operation::Request)
    } else if v == 2 {
        Some(Operation::Reply)
    } else {
        None
    }
}

pub open spec fn operation_number(op: Operation) -> u16 {
    match op {
        Operation::Request => 1,
        Operation::Reply => 2,
    }
}

/// Reading an operation: a big-endian 16-bit number, unknown numbers giving `None`.
pub open spec fn parse_operation(s: Seq<u8>) -> Result<(int, Option<Operation>), int> {
    if s.len() < 2 {
        Err(0)
    } else {
        Ok((2, operation_from(be16(s, 0))))
    }
}

impl Operation {
    /// The operation with number `v`, if this crate knows it.
    pub fn from_u16(v: u16) -> (r: Option<Self>)
        ensures
            r == operation_from(v),
    {
        if v == 1 {
            Some(Operation::Request)
        } else if v == 2 {
            Some(Operation::Reply)
        } else {
            None
        }
    }

    pub fn value(&self) -> (r: u16)
        ensures
            r == operation_number(*self),
    {
        match self {
            Operation::Request => 1,
            Operation::Reply => 2,
        }
    }

    pub fn parse<'a>(i: Input<'a>) -> (r: PResult<'a, Option<Self>>)
        ensures
            outcome_of(i, r, parse_operation(i@)),
    {
        if i.len() < 2 {
            return fail_at(i, 0);
        }
        Ok((rest_after(i, 2), Self::from_u16(read_be16(i, 0))))
    }

    pub fn serialize(&self, out: &mut Vec<u8>)
        ensures
            final(out)@ == old(out)@ + be16_bytes(operation_number(*self)),
    {
        write_be16(out, self.value());
    }
}

/// The ARP hardware types this crate knows.
#[derive(Debug, Clone, Copy, PartialEq, Eq, Structural)]
pub enum HardwareType {
    Ethernet,
}

impl View for HardwareType {
    type V = HardwareType;

    open spec fn view(&self) -> HardwareType {
        *self
    }
}

pub open spec fn hardware_type_from(v: u16) -> Option<HardwareType> {
    if v == 1 {
        Some(HardwareType::Ethernet)
    } else {
        None
    }
}

pub open spec fn parse_hardware_type(s: Seq<u8>) -> Result<(int, Option<HardwareType>), int> {
    if s.len() < 2 {
        Err(0)
    } else {
        Ok((2, hardware_type_from(be16(s, 0))))
    }
}

impl HardwareType {
    pub fn from_u16(v: u16) -> (r: Option<Self>)
        ensures
            r == hardware_type_from(v),
    {
        if v == 1 {
            Some(HardwareType::Ethernet)
        } else {
            None
        }
    }

    pub fn value(&self) -> (r: u16)
        ensures
            r == 1,
    {
        1
    }

    pub fn parse<'a>(i: Input<'a>) -> (r: PResult<'a, Option<Self>>)
        ensures
            outcome_of(i, r, parse_hardware_type(i@)),
    {
        if i.len() < 2 {
            return fail_at(i, 0);
        }
        Ok((rest_after(i, 2), Self::from_u16(read_be16(i, 0))))
    }

    pub fn serialize(&self, out: &mut Vec<u8>)
        ensures
            final(out)@ == old(out)@ + be16_bytes(1),
    {
        write_be16(out, self.value());
    }
}

/// An ARP packet for IPv4 addresses over Ethernet.
#[derive(Debug, Clone, Copy)]
pub struct Packet {
    pub operation: Operation,
    pub sender_hw_addr: ethernet::Addr,
    pub sender_ip_addr: ipv4::Addr,
    pub target_hw_addr: ethernet::Addr,
    pub target_ip_addr: ipv4::Addr,
}

impl View for Packet {
    type V = Packet;

    open spec fn view(&self) -> Packet {
        *self
    }
}

/// Parsing stops (the parser panics) when the operation is not one this
/// crate knows; these are the inputs on which it does not.
pub open spec fn parse_is_safe(s: Seq<u8>) -> bool {
    s.len() >= 8 ==> operation_from(be16(s, 6)) is Some
}

/// Reading an ARP packet: hardware type, protocol type, the two address
/// lengths (all four read and ignored), the operation, then the sender's
/// and the target's MAC and IPv4 addresses.
pub open spec fn parse_packet(s: Seq<u8>) -> Result<(int, Packet), int> {
    if s.len() < 2 {
        Err(0)
    } else if s.len() < 4 {
        Err(2)
    } else if s.len() < 5 {
        Err(4)
    } else if s.len() < 6 {
        Err(5)
    } else if s.len() < 8 {
        Err(6)
    } else if s.len() < 14 {
        Err(8)
    } else if s.len() < 18 {
        Err(14)
    } else if s.len() < 24 {
        Err(18)
    } else if s.len() < 28 {
        Err(24)
    } else {
        Ok(
            (
                28,
                Packet {
                    operation: operation_from(be16(s, 6)).unwrap(),
                    sender_hw_addr: ethernet::addr_from(s.subrange(8, 14)),
                    sender_ip_addr: ipv4::addr_from(s.subrange(14, 18)),
                    target_hw_addr: ethernet::addr_from(s.subrange(18, 24)),
                    target_ip_addr: ipv4::addr_from(s.subrange(24, 28)),
                },
            ),
        )
    }
}

/// The bytes of an ARP packet: Ethernet hardware, IPv4 protocol, address
/// lengths 6 and 4, then the operation and the four addresses.
pub open spec fn serialize_packet(p: Packet) -> Seq<u8> {
    be16_bytes(1) + be16_bytes(0x0800) + seq![6u8, 4u8] + be16_bytes(operation_number(p.operation))
        + p.sender_hw_addr.0@ + p.sender_ip_addr.0@ + p.target_hw_addr.0@ + p.target_ip_addr.0@
}

impl Packet {
    pub fn parse<'a>(i: Input<'a>) -> (r: PResult<'a, Self>)
        requires
            parse_is_safe(i@),
        ensures
            outcome_of(i, r, parse_packet(i@)),
    {
        if i.len() < 2 {
            return fail_at(i, 0);
        }
        if i.len() < 4 {
            return fail_at(i, 2);
        }
        if i.len() < 5 {
            return fail_at(i, 4);
        }
        if i.len() < 6 {
            return fail_at(i, 5);
        }
        if i.len() < 8 {
            return fail_at(i, 6);
        }
        let operation = Operation::from_u16(read_be16(i, 6)).unwrap();
        if i.len() < 14 {
            return fail_at(i, 8);
        }
        if i.len() < 18 {
            return fail_at(i, 14);
        }
        if i.len() < 24 {
            return fail_at(i, 18);
        }
        if i.len() < 28 {
            return fail_at(i, 24);
        }
        let sender_hw_addr = ethernet::Addr::new(rest_after(i, 8));
        let sender_ip_addr = ipv4::Addr([i[14], i[15], i[16], i[17]]);
        let target_hw_addr = ethernet::Addr::new(rest_after(i, 18));
        let target_ip_addr = ipv4::Addr([i[24], i[25], i[26], i[27]]);
        let res = Packet {
            operation,
            sender_hw_addr,
            sender_ip_addr,
            target_hw_addr,
            target_ip_addr,
        };
        proof {
            let p = parse_packet(i@)->Ok_0.1;
            assert(p.sender_hw_addr.0 =~= sender_hw_addr.0);
            assert(p.target_hw_addr.0 =~= target_hw_addr.0);
            assert(p.sender_ip_addr.0 =~= sender_ip_addr.0);
            assert(p.target_ip_addr.0 =~= target_ip_addr.0);
        }
        Ok((rest_after(i, 28), res))
    }

    pub fn serialize(&self, out: &mut Vec<u8>)
        ensures
            final(out)@ == old(out)@ + serialize_packet(*self),
    {
        let ghost start = out@;
        HardwareType::Ethernet.serialize(out);
        ethernet::EtherType::IPv4.serialize(out);
        write_u8(out, 6);
        write_u8(out, 4);
        self.operation.serialize(out);
        self.sender_hw_addr.serialize(out);
        self.sender_ip_addr.serialize(out);
        self.target_hw_addr.serialize(out);
        self.target_ip_addr.serialize(out);
        assert(out@ =~= start + serialize_packet(*self));
    }

    /// Whether `parse` returns on `i` rather than panic.
    pub fn is_safe_to_parse(i: &[u8]) -> (r: bool)
        ensures
            r == parse_is_safe(i@),
    {
        if i.len() < 8 {
            return true;
        }
        Operation::from_u16(read_be16(i, 6)).is_some()
    }

    /// This packet as the payload of an Ethernet frame.
    pub fn as_ethernet_payload(self) -> (r: ethernet::Payload)
        ensures
            r@ == ethernet::PayloadModel::ARP(self),
    {
        ethernet::Payload::ARP(self)
    }

    /// A request from `nic` for the MAC address of `target_ip_addr`.
    pub fn request(nic: &crate::netinfo::NIC, target_ip_addr: ipv4::Addr) -> (r: Self)
        ensures
            r == (Packet {
                operation: Operation::Request,
                sender_hw_addr: nic.phy_address,
                sender_ip_addr: nic.address,
                target_hw_addr: ethernet::Addr([0u8, 0u8, 0u8, 0u8, 0u8, 0u8]),
                target_ip_addr,
            }),
    {
        Self {
            operation: Operation::Request,
            sender_ip_addr: nic.address,
            sender_hw_addr: nic.phy_address,
            target_ip_addr,
            target_hw_addr: ethernet::Addr::zero(),
        }
    }
}

} // verus!

verus! {

/// Writing a packet and reading it back, whatever follows it, gives the
/// packet, and parsing does not panic.
pub proof fn lemma_serialize_parse_roundtrip(p: Packet, rest: Seq<u8>)
    ensures
        parse_is_safe(serialize_packet(p) + rest),
        parse_packet(serialize_packet(p) + rest) == Ok::<(int, Packet), int>((28, p)),
{
    let b = serialize_packet(p) + rest;
    assert(be16(b, 6) == operation_number(p.operation));
    ethernet::lemma_addr_from_view(p.sender_hw_addr);
    ethernet::lemma_addr_from_view(p.target_hw_addr);
    ipv4::lemma_addr_from_view(p.sender_ip_addr);
    ipv4::lemma_addr_from_view(p.target_ip_addr);
    assert(b.subrange(8, 14) =~= p.sender_hw_addr.0@);
    assert(b.subrange(14, 18) =~= p.sender_ip_addr.0@);
    assert(b.subrange(18, 24) =~= p.target_hw_addr.0@);
    assert(b.subrange(24, 28) =~= p.target_ip_addr.0@);
    let q = parse_packet(b)->Ok_0.1;
    assert(q.sender_hw_addr == p.sender_hw_addr);
    assert(q.target_hw_addr == p.target_hw_addr);
    assert(q.sender_ip_addr == p.sender_ip_addr);
    assert(q.target_ip_addr == p.target_ip_addr);
}

/// Reading a packet whose fixed fields are those this crate writes
/// (Ethernet hardware, IPv4 protocol, lengths 6 and 4) and writing it back
/// gives the 28 bytes read.
pub proof fn lemma_parse_serialize_roundtrip(s: Seq<u8>)
    requires
        s.len() >= 28,
        parse_is_safe(s),
        s.subrange(0, 6) == seq![0u8, 1u8, 8u8, 0u8, 6u8, 4u8],
    ensures
        serialize_packet(parse_packet(s)->Ok_0.1) == s.subrange(0, 28),
{
    let p = parse_packet(s)->Ok_0.1;
    assert(s.subrange(0, 6)[0] == s[0] && s.subrange(0, 6)[1] == s[1]);
    assert(s.subrange(0, 6)[2] == s[2] && s.subrange(0, 6)[3] == s[3]);
    assert(s.subrange(0, 6)[4] == s[4] && s.subrange(0, 6)[5] == s[5]);
    assert(be16_bytes(operation_number(p.operation)) =~= s.subrange(6, 8));
    assert(p.sender_hw_addr.0@ =~= s.subrange(8, 14));
    assert(p.sender_ip_addr.0@ =~= s.subrange(14, 18));
    assert(p.target_hw_addr.0@ =~= s.subrange(18, 24));
    assert(p.target_ip_addr.0@ =~= s.subrange(24, 28));
    assert(serialize_packet(p) =~= s.subrange(0, 28));
}

} // verus!

verus! {

/// Writing an operation and reading it back gives it.
pub proof fn lemma_operation_roundtrip(op: Operation, rest: Seq<u8>)
    ensures
        parse_operation(be16_bytes(operation_number(op)) + rest) == Ok::<
            (int, Option<Operation>),
            int,
        >((2, Some(op))),
{
}

} // verus!

verus! {

/// The fields of a parsed packet are read from their places: the operation
/// from the big-endian number at 6 (1 a request, 2 a reply), the sender's
/// MAC and IPv4 addresses at 8..14 and 14..18, the target's at 18..24 and
/// 24..28; 28 bytes are read.
pub proof fn lemma_parse_reads_fields(s: Seq<u8>)
    requires
        parse_is_safe(s),
        parse_packet(s) is Ok,
    ensures
        s.len() >= 28,
        parse_packet(s)->Ok_0.0 == 28,
        ({
            let p = parse_packet(s)->Ok_0.1;
            &&& (p.operation == Operation::Request <==> (s[6] == 0 && s[7] == 1))
            &&& (p.operation == Operation::Reply <==> (s[6] == 0 && s[7] == 2))
            &&& p.sender_hw_addr.0@ == s.subrange(8, 14)
            &&& p.sender_ip_addr.0@ == s.subrange(14, 18)
            &&& p.target_hw_addr.0@ == s.subrange(18, 24)
            &&& p.target_ip_addr.0@ == s.subrange(24, 28)
        }),
{
    let p = parse_packet(s)->Ok_0.1;
    assert(p.sender_hw_addr.0@ =~= s.subrange(8, 14));
    assert(p.sender_ip_addr.0@ =~= s.subrange(14, 18));
    assert(p.target_hw_addr.0@ =~= s.subrange(18, 24));
    assert(p.target_ip_addr.0@ =~= s.subrange(24, 28));
}

} // verus!
