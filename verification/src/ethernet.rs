//! Ethernet II frames.
use vstd::prelude::*;
use crate::arp;
use crate::ipv4;
use crate::parse::{be16, fail_at, outcome_of, read_be16, rest_after, Input, PResult};
use crate::serialize::{be16_bytes, write_be16, write_bytes};
use crate::text::{hex2, push_char, push_hex2};

verus! {

/// A MAC address.
#[derive(Clone, Copy, Debug)]
pub struct Addr(pub [u8; 6]);

impl PartialEq for Addr {
    fn eq(&self, other: &Self) -> (r: bool) {
        let a = &self.0;
        let b = &other.0;
        let r = a[0] == b[0] && a[1] == b[1] && a[2] == b[2] && a[3] == b[3] && a[4] == b[4]
            && a[5] == b[5];
        proof {
            if r {
                assert(self.0 =~= other.0);
            }
        }
        r
    }
}

impl Eq for Addr {

}

impl vstd::std_specs::cmp::PartialEqSpecImpl for Addr {
    open spec fn obeys_eq_spec() -> bool {
        true
    }

    open spec fn eq_spec(&self, other: &Self) -> bool {
        *self == *other
    }
}

impl View for Addr {
    type V = Addr;

    open spec fn view(&self) -> Addr {
        *self
    }
}

/// The address held in the first six bytes of `s`.
pub open spec fn addr_from(s: Seq<u8>) -> Addr {
    Addr([s[0], s[1], s[2], s[3], s[4], s[5]])
}

/// Reading a MAC address: six bytes.
pub open spec fn parse_addr(s: Seq<u8>) -> Result<(int, Addr), int> {
    if s.len() < 6 {
        Err(0)
    } else {
        Ok((6, addr_from(s)))
    }
}

/// The text of a MAC address: six upper-case two-digit hexadecimal numbers
/// joined by `-`.
pub open spec fn mac_text(a: Addr) -> Seq<char> {
    hex2(a.0[0]) + seq!['-'] + hex2(a.0[1]) + seq!['-'] + hex2(a.0[2]) + seq!['-'] + hex2(a.0[3])
        + seq!['-'] + hex2(a.0[4]) + seq!['-'] + hex2(a.0[5])
}

pub proof fn lemma_addr_from_view(a: Addr)
    ensures
        addr_from(a.0@) == a,
{
    assert(addr_from(a.0@).0 =~= a.0);
}

impl Addr {
    /// The address held in the first six bytes of `slice`, which must have
    /// at least six.
    pub fn new(slice: &[u8]) -> (r: Self)
        requires
            slice@.len() >= 6,
        ensures
            r == addr_from(slice@),
            r.0@ == slice@.subrange(0, 6),
    {
        let r = Addr([slice[0], slice[1], slice[2], slice[3], slice[4], slice[5]]);
        assert(r.0@ =~= slice@.subrange(0, 6));
        r
    }

    pub fn parse<'a>(i: Input<'a>) -> (r: PResult<'a, Self>)
        ensures
            outcome_of(i, r, parse_addr(i@)),
    {
        if i.len() < 6 {
            return fail_at(i, 0);
        }
        Ok((rest_after(i, 6), Self::new(i)))
    }

    pub fn serialize(&self, out: &mut Vec<u8>)
        ensures
            final(out)@ == old(out)@ + self.0@,
    {
        write_bytes(out, vstd::array::array_as_slice(&self.0));
    }

    pub fn zero() -> (r: Self)
        ensures
            r == Addr([0u8, 0u8, 0u8, 0u8, 0u8, 0u8]),
    {
        Self([0, 0, 0, 0, 0, 0])
    }

    pub fn broadcast() -> (r: Self)
        ensures
            r == Addr([255u8, 255u8, 255u8, 255u8, 255u8, 255u8]),
    {
        Self([0xFF, 0xFF, 0xFF, 0xFF, 0xFF, 0xFF])
    }

    /// The address as text, such as `00-1A-2B-3C-4D-5E`.
    pub fn to_string(&self) -> (r: String)
        ensures
            r@ == mac_text(*self),
    {
        let mut s = String::new();
        push_hex2(&mut s, self.0[0]);
        push_char(&mut s, '-');
        push_hex2(&mut s, self.0[1]);
        push_char(&mut s, '-');
        push_hex2(&mut s, self.0[2]);
        push_char(&mut s, '-');
        push_hex2(&mut s, self.0[3]);
        push_char(&mut s, '-');
        push_hex2(&mut s, self.0[4]);
        push_char(&mut s, '-');
        push_hex2(&mut s, self.0[5]);
        assert(s@ =~= mac_text(*self));
        s
    }
}

/// The protocols an Ethernet frame can carry that this crate knows.
#[derive(Debug, Clone, Copy, PartialEq, Eq, Structural)]
pub enum EtherType {
    IPv4,
    ARP,
}

impl View for EtherType {
    type V = EtherType;

    open spec fn view(&self) -> EtherType {
        *self
    }
}

/// The EtherType with number `v`, if this crate knows it.
pub open spec fn ether_type_from(v: u16) -> Option<EtherType> {
    if v == 0x0800 {
        Some(EtherType::IPv4)
    } else if v == 0x0806 {
        Some(EtherType::ARP)
    } else {
        None
    }
}

/// The number of an EtherType.
pub open spec fn ether_type_number(t: EtherType) -> u16 {
    match t {
        EtherType::IPv4 => 0x0800,
        EtherType::ARP => 0x0806,
    }
}

/// Reading an EtherType: a big-endian 16-bit number, unknown numbers giving `None`.
pub open spec fn parse_ether_type(s: Seq<u8>) -> Result<(int, Option<EtherType>), int> {
    if s.len() < 2 {
        Err(0)
    } else {
        Ok((2, ether_type_from(be16(s, 0))))
    }
}

impl EtherType {
    /// The EtherType with number `v`, if this crate knows it.
    pub fn from_u16(v: u16) -> (r: Option<Self>)
        ensures
            r == ether_type_from(v),
    {
        if v == 0x0800 {
            Some(EtherType::IPv4)
        } else if v == 0x0806 {
            Some(EtherType::ARP)
        } else {
            None
        }
    }

    /// The number of this EtherType.
    pub fn value(&self) -> (r: u16)
        ensures
            r == ether_type_number(*self),
    {
        match self {
            EtherType::IPv4 => 0x0800,
            EtherType::ARP => 0x0806,
        }
    }

    pub fn parse<'a>(i: Input<'a>) -> (r: PResult<'a, Option<Self>>)
        ensures
            outcome_of(i, r, parse_ether_type(i@)),
    {
        if i.len() < 2 {
            return fail_at(i, 0);
        }
        let v = read_be16(i, 0);
        Ok((rest_after(i, 2), Self::from_u16(v)))
    }

    pub fn serialize(&self, out: &mut Vec<u8>)
        ensures
            final(out)@ == old(out)@ + be16_bytes(ether_type_number(*self)),
    {
        write_be16(out, self.value());
    }
}

} // verus!

verus! {

/// What an Ethernet frame carries.
#[derive(Debug)]
pub enum Payload {
    IPv4(ipv4::Packet),
    ARP(arp::Packet),
    Unknown,
}

/// What an Ethernet frame carries, as values.
#[verifier::ext_equal]
pub enum PayloadModel {
    IPv4(ipv4::PacketModel),
    ARP(arp::Packet),
    Unknown,
}

impl View for Payload {
    type V = PayloadModel;

    open spec fn view(&self) -> PayloadModel {
        match self {
            Payload::IPv4(p) => PayloadModel::IPv4(p@),
            Payload::ARP(p) => PayloadModel::ARP(*p),
            Payload::Unknown => PayloadModel::Unknown,
        }
    }
}

/// An Ethernet II frame.
#[derive(Debug)]
pub struct Frame {
    pub dst: Addr,
    pub src: Addr,
    pub ether_type: Option<EtherType>,
    pub payload: Payload,
}

/// An Ethernet II frame as values.
#[verifier::ext_equal]
pub struct FrameModel {
    pub dst: Addr,
    pub src: Addr,
    pub ether_type: Option<EtherType>,
    pub payload: PayloadModel,
}

impl View for Frame {
    type V = FrameModel;

    open spec fn view(&self) -> FrameModel {
        FrameModel {
            dst: self.dst,
            src: self.src,
            ether_type: self.ether_type,
            payload: self.payload@,
        }
    }
}

/// Parsing panics when the IPv4 or ARP packet it reads panics; these are
/// the inputs on which it does not.
pub open spec fn parse_is_safe(s: Seq<u8>) -> bool {
    s.len() >= 14 ==> match ether_type_from(be16(s, 12)) {
        Some(EtherType::IPv4) => ipv4::parse_is_safe(s.skip(14)),
        Some(EtherType::ARP) => arp::parse_is_safe(s.skip(14)),
        None => true,
    }
}

/// Reading a frame: destination and source addresses, the EtherType, then
/// an IPv4 or ARP packet as the EtherType says; nothing more is read for
/// an unknown EtherType.
pub open spec fn parse_frame(s: Seq<u8>) -> Result<(int, FrameModel), int> {
    if s.len() < 6 {
        Err(0)
    } else if s.len() < 12 {
        Err(6)
    } else if s.len() < 14 {
        Err(12)
    } else {
        let et = ether_type_from(be16(s, 12));
        let dst = addr_from(s);
        let src = addr_from(s.skip(6));
        match et {
            Some(EtherType::IPv4) => match ipv4::parse_packet(s.skip(14)) {
                Err(k) => Err(14 + k),
                Ok((n, p)) => Ok(
                    (14 + n, FrameModel { dst, src, ether_type: et, payload: PayloadModel::IPv4(p) }),
                ),
            },
            Some(EtherType::ARP) => match arp::parse_packet(s.skip(14)) {
                Err(k) => Err(14 + k),
                Ok((n, p)) => Ok(
                    (14 + n, FrameModel { dst, src, ether_type: et, payload: PayloadModel::ARP(p) }),
                ),
            },
            None => Ok((14, FrameModel { dst, src, ether_type: et, payload: PayloadModel::Unknown })),
        }
    }
}

/// Only frames carrying an ARP packet or a writable IPv4 packet can be written.
pub open spec fn serializable(p: PayloadModel) -> bool {
    match p {
        PayloadModel::IPv4(q) => ipv4::serializable(q),
        PayloadModel::ARP(_) => true,
        PayloadModel::Unknown => false,
    }
}

/// The bytes of a payload: its EtherType, then the packet.
pub open spec fn payload_bytes(p: PayloadModel) -> Seq<u8> {
    match p {
        PayloadModel::IPv4(q) => be16_bytes(0x0800) + ipv4::serialize_packet(q),
        PayloadModel::ARP(a) => be16_bytes(0x0806) + arp::serialize_packet(a),
        PayloadModel::Unknown => Seq::empty(),
    }
}

/// The bytes of a frame. The EtherType written is that of the payload; the
/// `ether_type` field is not looked at.
pub open spec fn serialize_frame(f: FrameModel) -> Seq<u8> {
    f.dst.0@ + f.src.0@ + payload_bytes(f.payload)
}

impl Payload {
    pub fn serialize(&self, out: &mut Vec<u8>)
        requires
            serializable(self@),
        ensures
            final(out)@ == old(out)@ + payload_bytes(self@),
    {
        match self {
            Payload::ARP(packet) => {
                EtherType::ARP.serialize(out);
                packet.serialize(out);
            },
            Payload::IPv4(packet) => {
                EtherType::IPv4.serialize(out);
                packet.serialize(out);
            },
            Payload::Unknown => {},
        }
        assert(out@ =~= old(out)@ + payload_bytes(self@));
    }

    /// A frame from `nic` to `dst` carrying this payload.
    pub fn as_frame(self, nic: &crate::netinfo::NIC, dst: Addr) -> (r: Frame)
        ensures
            r@ == (FrameModel { dst, src: nic.phy_address, ether_type: None, payload: self@ }),
    {
        Frame { src: nic.phy_address, dst, ether_type: None, payload: self }
    }

    /// A frame from `nic` to every station carrying this payload.
    pub fn as_broadcast_frame(self, nic: &crate::netinfo::NIC) -> (r: Frame)
        ensures
            r@ == (FrameModel {
                dst: Addr([255u8, 255u8, 255u8, 255u8, 255u8, 255u8]),
                src: nic.phy_address,
                ether_type: None,
                payload: self@,
            }),
    {
        self.as_frame(nic, Addr::broadcast())
    }
}

impl Frame {
    pub fn parse<'a>(i: Input<'a>) -> (r: PResult<'a, Self>)
        requires
            parse_is_safe(i@),
        ensures
            outcome_of(i, r, parse_frame(i@)),
    {
        if i.len() < 6 {
            return fail_at(i, 0);
        }
        let dst = Addr::new(i);
        if i.len() < 12 {
            return fail_at(i, 6);
        }
        let src = Addr::new(rest_after(i, 6));
        if i.len() < 14 {
            return fail_at(i, 12);
        }
        let ether_type = EtherType::from_u16(read_be16(i, 12));
        let after = rest_after(i, 14);
        let ghost m = parse_frame(i@);
        proof {
            assert(src == addr_from(i@.skip(6)));
        }
        let (rest, payload) = match ether_type {
            Some(EtherType::IPv4) => match ipv4::Packet::parse(after) {
                Err(e) => {
                    let k = i.len() - e.errors[0].0.len();
                    return fail_at(i, k);
                },
                Ok((rest, p)) => (rest, Payload::IPv4(p)),
            },
            Some(EtherType::ARP) => match arp::Packet::parse(after) {
                Err(e) => {
                    let k = i.len() - e.errors[0].0.len();
                    return fail_at(i, k);
                },
                Ok((rest, p)) => (rest, Payload::ARP(p)),
            },
            None => (after, Payload::Unknown),
        };
        let res = Frame { dst, src, ether_type, payload };
        proof {
            assert(rest@ =~= i@.skip(m->Ok_0.0));
        }
        Ok((rest, res))
    }

    /// Whether `parse` returns on `i` rather than panic.
    pub fn is_safe_to_parse(i: &[u8]) -> (r: bool)
        ensures
            r == parse_is_safe(i@),
    {
        if i.len() < 14 {
            return true;
        }
        let after = rest_after(i, 14);
        match EtherType::from_u16(read_be16(i, 12)) {
            Some(EtherType::IPv4) => ipv4::Packet::is_safe_to_parse(after),
            Some(EtherType::ARP) => arp::Packet::is_safe_to_parse(after),
            None => true,
        }
    }

    /// The bytes of this frame.
    pub fn serialize(&self, out: &mut Vec<u8>)
        requires
            serializable(self.payload@),
        ensures
            final(out)@ == old(out)@ + serialize_frame(self@),
    {
        let ghost start = out@;
        self.dst.serialize(out);
        self.src.serialize(out);
        self.payload.serialize(out);
        assert(out@ =~= start + serialize_frame(self@));
    }
}

} // verus!

verus! {

/// Writing an address and reading it back, whatever follows, gives the address.
pub proof fn lemma_addr_serialize_parse(a: Addr, rest: Seq<u8>)
    ensures
        parse_addr(a.0@ + rest) == Ok::<(int, Addr), int>((6, a)),
{
    lemma_addr_from_view(a);
    assert(addr_from(a.0@ + rest).0 =~= a.0);
}

/// Reading an address and writing it back gives the six bytes read.
pub proof fn lemma_addr_parse_serialize(s: Seq<u8>)
    requires
        s.len() >= 6,
    ensures
        addr_from(s).0@ == s.subrange(0, 6),
{
    assert(addr_from(s).0@ =~= s.subrange(0, 6));
}

/// What reading back a written frame gives: the EtherType field names what
/// the frame carries, and an IPv4 packet reads back as `ipv4::normalize` says.
pub open spec fn normalize(f: FrameModel) -> FrameModel {
    FrameModel {
        dst: f.dst,
        src: f.src,
        ether_type: match f.payload {
            PayloadModel::ARP(_) => Some(EtherType::ARP),
            _ => Some(EtherType::IPv4),
        },
        payload: match f.payload {
            PayloadModel::IPv4(q) => PayloadModel::IPv4(ipv4::normalize(q)),
            other => other,
        },
    }
}

proof fn lemma_frame_addrs(f: FrameModel)
    ensures
        addr_from(serialize_frame(f)) == f.dst,
        addr_from(serialize_frame(f).skip(6)) == f.src,
{
    let b = serialize_frame(f);
    lemma_addr_from_view(f.dst);
    lemma_addr_from_view(f.src);
    assert(addr_from(b).0 =~= f.dst.0);
    assert(addr_from(b.skip(6)).0 =~= f.src.0);
}

proof fn lemma_roundtrip_ipv4(f: FrameModel, q: ipv4::PacketModel)
    requires
        f.payload == PayloadModel::IPv4(q),
        ipv4::serializable(q),
    ensures
        parse_is_safe(serialize_frame(f)),
        parse_frame(serialize_frame(f)) is Ok,
        parse_frame(serialize_frame(f))->Ok_0.0 == 42,
        parse_frame(serialize_frame(f))->Ok_0.1 == normalize(f),
{
    let b = serialize_frame(f);
    let qb = ipv4::serialize_packet(q);
    lemma_frame_addrs(f);
    assert(b =~= f.dst.0@ + f.src.0@ + be16_bytes(0x0800) + qb);
    assert(b.skip(14) =~= qb);
    assert(be16(b, 12) == 0x0800);
    ipv4::lemma_serialize_parse_roundtrip(q);
    let m = parse_frame(b)->Ok_0.1;
    assert(m =~= normalize(f));
}

proof fn lemma_roundtrip_arp(f: FrameModel, a: arp::Packet)
    requires
        f.payload == PayloadModel::ARP(a),
    ensures
        parse_is_safe(serialize_frame(f)),
        parse_frame(serialize_frame(f)) is Ok,
        parse_frame(serialize_frame(f))->Ok_0.0 == 42,
        parse_frame(serialize_frame(f))->Ok_0.1 == normalize(f),
{
    let b = serialize_frame(f);
    let ab = arp::serialize_packet(a);
    lemma_frame_addrs(f);
    assert(b =~= f.dst.0@ + f.src.0@ + be16_bytes(0x0806) + ab);
    assert(b.skip(14) =~= ab + Seq::<u8>::empty());
    assert(be16(b, 12) == 0x0806);
    arp::lemma_serialize_parse_roundtrip(a, Seq::<u8>::empty());
    let m = parse_frame(b)->Ok_0.1;
    assert(m =~= normalize(f));
}

/// Writing a frame and reading it back gives `normalize` of it, and parsing
/// the written bytes does not panic.
pub proof fn lemma_serialize_parse_roundtrip(f: FrameModel)
    requires
        serializable(f.payload),
    ensures
        parse_is_safe(serialize_frame(f)),
        parse_frame(serialize_frame(f)) is Ok,
        parse_frame(serialize_frame(f))->Ok_0.0 == 42,
        parse_frame(serialize_frame(f))->Ok_0.1 == normalize(f),
{
    match f.payload {
        PayloadModel::IPv4(q) => lemma_roundtrip_ipv4(f, q),
        PayloadModel::ARP(a) => lemma_roundtrip_arp(f, a),
        PayloadModel::Unknown => {},
    }
}

} // verus!

verus! {

/// Writing an EtherType and reading it back gives it.
pub proof fn lemma_ether_type_roundtrip(t: EtherType, rest: Seq<u8>)
    ensures
        parse_ether_type(be16_bytes(ether_type_number(t)) + rest) == Ok::<
            (int, Option<EtherType>),
            int,
        >((2, Some(t))),
{
}

} // verus!

verus! {

/// The value of the two hexadecimal digits at `3 * k` of a MAC address's
/// text, or -1 when one of them is not an upper-case hexadecimal digit.
pub open spec fn hex_pair_at(t: Seq<char>, k: int) -> int {
    let hi = crate::text::upper_hex_value(t[3 * k]);
    let lo = crate::text::upper_hex_value(t[3 * k + 1]);
    if hi < 0 || lo < 0 {
        -1
    } else {
        hi * 16 + lo
    }
}

/// The text of a MAC address is seventeen characters: six pairs of
/// upper-case hexadecimal digits that read back as the address's bytes, in
/// order, with a `-` between pairs.
pub proof fn lemma_mac_text_reads_back(a: Addr)
    ensures
        mac_text(a).len() == 17,
        mac_text(a)[2] == '-' && mac_text(a)[5] == '-' && mac_text(a)[8] == '-' && mac_text(a)[11]
            == '-' && mac_text(a)[14] == '-',
        forall|k: int| 0 <= k < 6 ==> #[trigger] hex_pair_at(mac_text(a), k) == a.0[k] as int,
{
    let t = mac_text(a);
    crate::text::lemma_hex2_reads_back(a.0[0]);
    crate::text::lemma_hex2_reads_back(a.0[1]);
    crate::text::lemma_hex2_reads_back(a.0[2]);
    crate::text::lemma_hex2_reads_back(a.0[3]);
    crate::text::lemma_hex2_reads_back(a.0[4]);
    crate::text::lemma_hex2_reads_back(a.0[5]);
    assert forall|k: int| 0 <= k < 6 implies #[trigger] hex_pair_at(t, k) == a.0[k] as int by {
        assert(t[3 * k] == hex2(a.0[k])[0]);
        assert(t[3 * k + 1] == hex2(a.0[k])[1]);
    }
}

/// Whatever the EtherType, a frame that parses has the first six bytes as
/// its destination and the next six as its source; its EtherType is IPv4
/// exactly when bytes 12..14 are 08 00, ARP exactly when they are 08 06,
/// and otherwise there is none, nothing is read past byte 14 and nothing is
/// carried.
pub proof fn lemma_parse_reads_frame_header(s: Seq<u8>)
    requires
        parse_frame(s) is Ok,
    ensures
        s.len() >= 14,
        parse_frame(s)->Ok_0.1.dst.0@ == s.subrange(0, 6),
        parse_frame(s)->Ok_0.1.src.0@ == s.subrange(6, 12),
        parse_frame(s)->Ok_0.1.ether_type == Some(EtherType::IPv4) <==> (s[12] == 8 && s[13]
            == 0),
        parse_frame(s)->Ok_0.1.ether_type == Some(EtherType::ARP) <==> (s[12] == 8 && s[13]
            == 6),
        parse_frame(s)->Ok_0.1.ether_type is None ==> {
            &&& parse_frame(s)->Ok_0.0 == 14
            &&& parse_frame(s)->Ok_0.1.payload is Unknown
        },
        parse_frame(s)->Ok_0.1.payload is IPv4 <==> (s[12] == 8 && s[13] == 0),
        parse_frame(s)->Ok_0.1.payload is ARP <==> (s[12] == 8 && s[13] == 6),
{
    let f = parse_frame(s)->Ok_0.1;
    assert(f.dst.0@ =~= s.subrange(0, 6));
    assert(f.src.0@ =~= s.subrange(6, 12));
}

} // verus!
