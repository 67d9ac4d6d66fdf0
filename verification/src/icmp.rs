//! ICMP packets.
use vstd::prelude::*;
use crate::blob::Blob;
use crate::inet_sum::{internet_checksum, set_le16};
use crate::parse::{be16, be32, fail_at, outcome_of, read_be16, read_be32, rest_after, Input, PResult};
use crate::serialize::{be16_bytes, be32_bytes, patch_le16, write_be16, write_be32, write_bytes, write_u8};

verus! {

/// The kind of an ICMP message, read from its type and code bytes.
#[derive(Debug, Clone, Copy, PartialEq, Eq, Structural)]
pub enum Type {
    EchoReply,
    DestinationUnreachable(DestinationUnreachable),
    EchoRequest,
    TimeExceeded(TimeExceeded),
    /// Any other message: its type and code.
    Other(u8, u8),
}

#[derive(Debug, Clone, Copy, PartialEq, Eq, Structural)]
pub enum DestinationUnreachable {
    HostUnreachable,
    Other(u8),
}

#[derive(Debug, Clone, Copy, PartialEq, Eq, Structural)]
pub enum TimeExceeded {
    TTLExpired,
    Other(u8),
}

/// The meaning of code `x` in a destination-unreachable message.
pub open spec fn destination_unreachable_from(x: u8) -> DestinationUnreachable {
    if x == 1 {
        DestinationUnreachable::HostUnreachable
    } else {
        DestinationUnreachable::Other(x)
    }
}

/// The meaning of code `x` in a time-exceeded message.
pub open spec fn time_exceeded_from(x: u8) -> TimeExceeded {
    if x == 0 {
        TimeExceeded::TTLExpired
    } else {
        TimeExceeded::Other(x)
    }
}

/// The kind of a message with type `typ` and code `code`. The code of an
/// echo request or reply is not looked at.
pub open spec fn type_from(typ: u8, code: u8) -> Type {
    if typ == 0 {
        Type::EchoReply
    } else if typ == 3 {
        Type::DestinationUnreachable(destination_unreachable_from(code))
    } else if typ == 8 {
        Type::EchoRequest
    } else if typ == 11 {
        Type::TimeExceeded(time_exceeded_from(code))
    } else {
        Type::Other(typ, code)
    }
}

impl From<(u8, u8)> for Type {
    fn from(x: (u8, u8)) -> Self {
        let (typ, code) = x;
        if typ == 0 {
            Type::EchoReply
        } else if typ == 3 {
            Type::DestinationUnreachable(DestinationUnreachable::from(code))
        } else if typ == 8 {
            Type::EchoRequest
        } else if typ == 11 {
            Type::TimeExceeded(TimeExceeded::from(code))
        } else {
            Type::Other(typ, code)
        }
    }
}

impl vstd::std_specs::convert::FromSpecImpl<(u8, u8)> for Type {
    open spec fn obeys_from_spec() -> bool {
        true
    }

    open spec fn from_spec(x: (u8, u8)) -> Self {
        type_from(x.0, x.1)
    }
}

impl From<u8> for DestinationUnreachable {
    fn from(x: u8) -> Self {
        if x == 1 {
            DestinationUnreachable::HostUnreachable
        } else {
            DestinationUnreachable::Other(x)
        }
    }
}

impl vstd::std_specs::convert::FromSpecImpl<u8> for DestinationUnreachable {
    open spec fn obeys_from_spec() -> bool {
        true
    }

    open spec fn from_spec(x: u8) -> Self {
        destination_unreachable_from(x)
    }
}

impl From<u8> for TimeExceeded {
    fn from(x: u8) -> Self {
        if x == 0 {
            TimeExceeded::TTLExpired
        } else {
            TimeExceeded::Other(x)
        }
    }
}

impl vstd::std_specs::convert::FromSpecImpl<u8> for TimeExceeded {
    open spec fn obeys_from_spec() -> bool {
        true
    }

    open spec fn from_spec(x: u8) -> Self {
        time_exceeded_from(x)
    }
}

/// The identifier and sequence number of an echo request or reply.
#[derive(Debug, Clone, Copy, PartialEq, Eq, Structural)]
pub struct Echo {
    pub identifier: u16,
    pub sequence_number: u16,
}

impl View for Echo {
    type V = Echo;

    open spec fn view(&self) -> Echo {
        *self
    }
}

/// The four header bytes after the checksum.
#[derive(Debug, Clone, Copy, PartialEq, Eq, Structural)]
pub enum Header {
    EchoRequest(Echo),
    EchoReply(Echo),
    /// The header of any other message, as a big-endian word.
    Other(u32),
}

/// An ICMP packet as values: `payload` is the bytes after the header.
#[verifier::ext_equal]
pub struct PacketModel {
    pub typ: Type,
    pub checksum: u16,
    pub header: Header,
    pub payload: Seq<u8>,
}

/// An ICMP packet.
#[derive(Debug, Clone)]
pub struct Packet {
    pub typ: Type,
    pub checksum: u16,
    pub header: Header,
    pub payload: Blob,
}

impl View for Packet {
    type V = PacketModel;

    open spec fn view(&self) -> PacketModel {
        PacketModel {
            typ: self.typ,
            checksum: self.checksum,
            header: self.header,
            payload: self.payload@,
        }
    }
}

/// Reading an echo header: identifier, then sequence number.
pub open spec fn parse_echo(s: Seq<u8>) -> Result<(int, Echo), int> {
    if s.len() < 2 {
        Err(0)
    } else if s.len() < 4 {
        Err(2)
    } else {
        Ok((4, Echo { identifier: be16(s, 0), sequence_number: be16(s, 2) }))
    }
}

/// Reading an ICMP packet: type and code, checksum, the header that the
/// type calls for, and a copy of the rest of the input as payload. Only
/// the eight bytes up to the end of the header count as read: the payload
/// bytes are left as the rest of the input.
pub open spec fn parse_packet(s: Seq<u8>) -> Result<(int, PacketModel), int> {
    if s.len() < 2 {
        Err(0)
    } else if s.len() < 4 {
        Err(2)
    } else {
        let typ = type_from(s[0], s[1]);
        let header = if typ is EchoRequest || typ is EchoReply {
            match parse_echo(s.subrange(4, s.len() as int)) {
                Err(k) => Err(4 + k),
                Ok((_, e)) => Ok(
                    if typ is EchoRequest {
                        Header::EchoRequest(e)
                    } else {
                        Header::EchoReply(e)
                    },
                ),
            }
        } else if s.len() < 8 {
            Err(4)
        } else {
            Ok(Header::Other(be32(s, 4)))
        };
        match header {
            Err(k) => Err(k),
            Ok(h) => Ok(
                (
                    8,
                    PacketModel {
                        typ,
                        checksum: be16(s, 2),
                        header: h,
                        payload: s.subrange(8, s.len() as int),
                    },
                ),
            ),
        }
    }
}

/// Only echo requests and replies can be written.
pub open spec fn serializable(p: PacketModel) -> bool {
    !(p.header is Other)
}

/// The type and code bytes written for a header.
pub open spec fn type_and_code(h: Header) -> Seq<u8> {
    match h {
        Header::EchoRequest(_) => seq![8u8, 0u8],
        Header::EchoReply(_) => seq![0u8, 0u8],
        Header::Other(_) => Seq::empty(),
    }
}

/// The bytes of a header.
pub open spec fn header_bytes(h: Header) -> Seq<u8> {
    match h {
        Header::EchoRequest(e) => be16_bytes(e.identifier) + be16_bytes(e.sequence_number),
        Header::EchoReply(e) => be16_bytes(e.identifier) + be16_bytes(e.sequence_number),
        Header::Other(x) => be32_bytes(x),
    }
}

/// The bytes of a packet with a zero checksum. Only the header and the
/// payload are written: the type and code come from the header, and the
/// `typ` and `checksum` fields are not looked at.
pub open spec fn serialize_no_checksum(p: PacketModel) -> Seq<u8> {
    type_and_code(p.header) + seq![0u8, 0u8] + header_bytes(p.header) + p.payload
}

/// The bytes of a packet, with the Internet checksum of the bytes written
/// in little-endian order into the checksum field.
pub open spec fn serialize_packet(p: PacketModel) -> Seq<u8> {
    let b = serialize_no_checksum(p);
    set_le16(b, 2, internet_checksum(b))
}

/// Parsing writes the packet it read back out and panics when that does
/// not give the input again; these are the inputs on which it does not.
pub open spec fn parse_is_safe(s: Seq<u8>) -> bool {
    match parse_packet(s) {
        Ok((_, p)) => serializable(p) && serialize_packet(p) == s,
        Err(_) => true,
    }
}

impl Echo {
    fn parse<'a>(i: Input<'a>) -> (r: PResult<'a, Self>)
        ensures
            outcome_of(i, r, parse_echo(i@)),
    {
        if i.len() < 2 {
            return fail_at(i, 0);
        }
        if i.len() < 4 {
            return fail_at(i, 2);
        }
        let identifier = read_be16(i, 0);
        let sequence_number = read_be16(i, 2);
        Ok((rest_after(i, 4), Echo { identifier, sequence_number }))
    }

    pub fn serialize(&self, out: &mut Vec<u8>)
        ensures
            final(out)@ == old(out)@ + be16_bytes(self.identifier) + be16_bytes(
                self.sequence_number,
            ),
    {
        write_be16(out, self.identifier);
        write_be16(out, self.sequence_number);
    }

    /// An echo request with this identifier and sequence number carrying `payload`.
    pub fn as_echo_request(self, payload: &[u8]) -> (r: Packet)
        ensures
            r@ == (PacketModel {
                typ: Type::EchoRequest,
                checksum: 0,
                header: Header::EchoRequest(self),
                payload: payload@,
            }),
    {
        Packet {
            typ: Type::EchoRequest,
            checksum: 0,
            header: Header::EchoRequest(self),
            payload: Blob::new(payload),
        }
    }
}

impl Header {
    fn serialize(&self, out: &mut Vec<u8>)
        ensures
            final(out)@ == old(out)@ + header_bytes(*self),
    {
        match self {
            Header::EchoRequest(echo) => echo.serialize(out),
            Header::EchoReply(echo) => echo.serialize(out),
            Header::Other(x) => write_be32(out, *x),
        }
    }

    fn serialize_type_and_code(&self, out: &mut Vec<u8>)
        requires
            !(*self is Other),
        ensures
            final(out)@ == old(out)@ + type_and_code(*self),
    {
        match self {
            Header::EchoRequest(_) => {
                write_u8(out, 8);
                write_u8(out, 0);
            },
            Header::EchoReply(_) => {
                write_u8(out, 0);
                write_u8(out, 0);
            },
            Header::Other(_) => {},
        }
        assert(out@ =~= old(out)@ + type_and_code(*self));
    }
}

impl Packet {
    /// Parse without the check that the packet writes back to the input.
    fn parse_fields<'a>(i: Input<'a>) -> (r: PResult<'a, Self>)
        ensures
            outcome_of(i, r, parse_packet(i@)),
    {
        if i.len() < 2 {
            return fail_at(i, 0);
        }
        if i.len() < 4 {
            return fail_at(i, 2);
        }
        let typ = Type::from((i[0], i[1]));
        let checksum = read_be16(i, 2);
        let after = rest_after(i, 4);
        let header = match typ {
            Type::EchoRequest => match Echo::parse(after) {
                Err(_) => {
                    return if i.len() < 6 {
                        fail_at(i, 4)
                    } else {
                        fail_at(i, 6)
                    };
                },
                Ok((_, e)) => Header::EchoRequest(e),
            },
            Type::EchoReply => match Echo::parse(after) {
                Err(_) => {
                    return if i.len() < 6 {
                        fail_at(i, 4)
                    } else {
                        fail_at(i, 6)
                    };
                },
                Ok((_, e)) => Header::EchoReply(e),
            },
            _ => {
                if i.len() < 8 {
                    return fail_at(i, 4);
                }
                Header::Other(read_be32(i, 4))
            },
        };
        let payload = Blob::new(rest_after(i, 8));
        let res = Packet { typ, checksum, header, payload };
        Ok((rest_after(i, 8), res))
    }

    /// Read an ICMP packet whose payload is all the rest of `i`; the rest
    /// returned starts after the header.
    pub fn parse<'a>(i: Input<'a>) -> (r: PResult<'a, Self>)
        requires
            parse_is_safe(i@),
        ensures
            outcome_of(i, r, parse_packet(i@)),
            r matches Ok((_, p)) ==> serializable(p@) && serialize_packet(p@) == i@,
    {
        Self::parse_fields(i)
    }

    /// Whether `parse` returns on `i` rather than panic.
    pub fn is_safe_to_parse(i: &[u8]) -> (r: bool)
        ensures
            r == parse_is_safe(i@),
    {
        match Self::parse_fields(i) {
            Err(_) => true,
            Ok((_, p)) => {
                if let Header::Other(_) = p.header {
                    return false;
                }
                let mut buf = Vec::new();
                p.serialize(&mut buf);
                crate::parse::bytes_equal(buf.as_slice(), i)
            },
        }
    }

    /// This packet as the payload of an IPv4 packet.
    pub fn as_ipv4_payload(self) -> (r: crate::ipv4::Payload)
        ensures
            r@ == crate::ipv4::PayloadModel::ICMP(self@),
    {
        crate::ipv4::Payload::ICMP(self)
    }

    /// The bytes of this packet with a zero checksum.
    pub fn serialize_no_checksum(&self, out: &mut Vec<u8>)
        requires
            serializable(self@),
        ensures
            final(out)@ == old(out)@ + serialize_no_checksum(self@),
    {
        let ghost start = out@;
        self.header.serialize_type_and_code(out);
        write_be16(out, 0);
        self.header.serialize(out);
        self.payload.serialize(out);
        assert(be16_bytes(0) =~= seq![0u8, 0u8]);
        assert(out@ =~= start + serialize_no_checksum(self@));
    }

    /// The bytes of this packet with its checksum.
    pub fn serialize(&self, out: &mut Vec<u8>)
        requires
            serializable(self@),
        ensures
            final(out)@ == old(out)@ + serialize_packet(self@),
    {
        let mut buf = Vec::new();
        self.serialize_no_checksum(&mut buf);
        assert(buf@ == serialize_no_checksum(self@));
        let c = crate::ipv4::checksum(buf.as_slice());
        patch_le16(&mut buf, 2, c);
        write_bytes(out, buf.as_slice());
    }
}

} // verus!

verus! {

/// The kind of message that a header is written as.
pub open spec fn header_type(h: Header) -> Type {
    match h {
        Header::EchoReply(_) => Type::EchoReply,
        _ => Type::EchoRequest,
    }
}

/// What reading back a written packet gives: the kind follows the header,
/// and the checksum field holds the written checksum bytes read big-endian.
pub open spec fn normalize(p: PacketModel) -> PacketModel {
    PacketModel {
        typ: header_type(p.header),
        checksum: be16(serialize_packet(p), 2),
        header: p.header,
        payload: p.payload,
    }
}

/// Writing a packet and reading it back gives the packet with its kind and
/// checksum fields brought in line with its header and bytes; the bytes
/// read back pass the check that parsing makes.
pub proof fn lemma_serialize_parse_roundtrip(p: PacketModel)
    requires
        serializable(p),
    ensures
        parse_packet(serialize_packet(p)) == Ok::<(int, PacketModel), int>(
            (8, normalize(p)),
        ),
        parse_is_safe(serialize_packet(p)),
{
    let nc = serialize_no_checksum(p);
    let b = serialize_packet(p);
    let (id, sq) = match p.header {
        Header::EchoRequest(e) => (e.identifier, e.sequence_number),
        Header::EchoReply(e) => (e.identifier, e.sequence_number),
        Header::Other(_) => (0u16, 0u16),
    };
    assert(nc.len() == 8 + p.payload.len());
    assert(b.len() == nc.len());
    assert(b[0] == nc[0] && b[1] == nc[1]);
    assert(b[4] == (id / 256) as u8 && b[5] == (id % 256) as u8);
    assert(b[6] == (sq / 256) as u8 && b[7] == (sq % 256) as u8);
    assert(b.skip(8) =~= p.payload);
    let e = parse_echo(b.skip(4))->Ok_0.1;
    assert(e.identifier == id);
    assert(e.sequence_number == sq);
    let q = parse_packet(b)->Ok_0.1;
    assert(q =~= normalize(p));
    assert(serialize_no_checksum(normalize(p)) == nc);
}

/// A written packet checks to zero: the Internet checksum of its bytes,
/// checksum field included, is 0.
pub proof fn lemma_serialized_checksum_is_zero(p: PacketModel)
    requires
        serializable(p),
    ensures
        internet_checksum(serialize_packet(p)) == 0,
{
    let nc = serialize_no_checksum(p);
    assert(nc[2] == 0 && nc[3] == 0);
    crate::inet_sum::lemma_checksum_fills_to_zero(nc, 2);
}

/// Reading a packet and writing it back gives the input: this is the
/// promise that parsing checks.
pub proof fn lemma_parse_serialize_roundtrip(s: Seq<u8>)
    requires
        parse_is_safe(s),
        parse_packet(s) is Ok,
    ensures
        serialize_packet(parse_packet(s)->Ok_0.1) == s,
{
}

} // verus!

verus! {

/// The kind of a message follows its type byte: 0 is an echo reply, 8 an
/// echo request (whatever the code), 3 destination unreachable and 11 time
/// exceeded, whose codes keep their number except that code 1 of
/// destination unreachable means host unreachable and code 0 of time
/// exceeded means the TTL expired; any other type keeps its type and code.
pub proof fn lemma_type_codes(t: u8, c: u8)
    ensures
        (type_from(t, c) == Type::EchoReply) <==> t == 0,
        (type_from(t, c) == Type::EchoRequest) <==> t == 8,
        (type_from(t, c) is DestinationUnreachable) <==> t == 3,
        (type_from(t, c) is TimeExceeded) <==> t == 11,
        (type_from(t, c) is Other) <==> (t != 0 && t != 3 && t != 8 && t != 11),
        type_from(t, c) matches Type::Other(a, b) ==> a == t && b == c,
        t == 3 ==> (type_from(t, c) == Type::DestinationUnreachable(
            DestinationUnreachable::HostUnreachable,
        ) <==> c == 1),
        t == 3 && c != 1 ==> type_from(t, c) == Type::DestinationUnreachable(
            DestinationUnreachable::Other(c),
        ),
        t == 11 ==> (type_from(t, c) == Type::TimeExceeded(TimeExceeded::TTLExpired) <==> c == 0),
        t == 11 && c != 0 ==> type_from(t, c) == Type::TimeExceeded(TimeExceeded::Other(c)),
        (destination_unreachable_from(c) == DestinationUnreachable::HostUnreachable) <==> c == 1,
        c != 1 ==> destination_unreachable_from(c) == DestinationUnreachable::Other(c),
        (time_exceeded_from(c) == TimeExceeded::TTLExpired) <==> c == 0,
        c != 0 ==> time_exceeded_from(c) == TimeExceeded::Other(c),
{
}

/// Whatever the type, the fields of a parsed packet are read from their
/// places: the kind from bytes 0 and 1, the checksum as the big-endian
/// number at 2, the header from bytes 4..8 (identifier and sequence number
/// as big-endian numbers for an echo request or reply, the big-endian word
/// otherwise), and the payload is every byte after the eighth, of which
/// none counts as read.
pub proof fn lemma_parse_reads_fields(s: Seq<u8>)
    requires
        parse_packet(s) is Ok,
    ensures
        s.len() >= 8,
        parse_packet(s)->Ok_0.0 == 8,
        ({
            let p = parse_packet(s)->Ok_0.1;
            let id = s[4] as int * 256 + s[5] as int;
            let sq = s[6] as int * 256 + s[7] as int;
            &&& p.typ == type_from(s[0], s[1])
            &&& p.checksum as int == s[2] as int * 256 + s[3] as int
            &&& p.payload == s.subrange(8, s.len() as int)
            &&& s[0] == 8 ==> (p.header matches Header::EchoRequest(e) && e.identifier as int == id
                && e.sequence_number as int == sq)
            &&& s[0] == 0 ==> (p.header matches Header::EchoReply(e) && e.identifier as int == id
                && e.sequence_number as int == sq)
            &&& (s[0] != 0 && s[0] != 8) ==> (p.header matches Header::Other(x) && x as int == id
                * 65536 + sq)
        }),
{
}

} // verus!
