//! IPv4 addresses and packets, and the Internet checksum.
use vstd::prelude::*;
use crate::icmp;
use crate::parse::{be16, fail_at, outcome_of, read_be16, rest_after, Input, PResult};
use crate::serialize::{be16_bytes, patch_be16, patch_le16, write_be16, write_bytes, write_u8};
use vstd::string::StringSliceAdditionalSpecFns;
use crate::inet_sum::{
    set_be16, set_le16,
    add_carry, fold_ones, internet_checksum, lemma_add_carry_folds, lemma_fold_ones_range,
    lemma_word_sum_prefix_step, lemma_word_sum_prefix_tail, word_sum,
};

verus! {

/// An IPv4 address.
#[derive(Debug, Clone, Copy, Hash)]
pub struct Addr(pub [u8; 4]);

impl PartialEq for Addr {
    fn eq(&self, other: &Self) -> (r: bool) {
        let a = &self.0;
        let b = &other.0;
        let r = a[0] == b[0] && a[1] == b[1] && a[2] == b[2] && a[3] == b[3];
        proof {
            if r {
                assert(self.0 =~= other.0);
            }
        }
        r
    }
}

impl Eq for Addr {

}

impl vstd::std_specs::cmp::PartialEqSpecImpl for Addr {
    open spec fn obeys_eq_spec() -> bool {
        true
    }

    open spec fn eq_spec(&self, other: &Self) -> bool {
        *self == *other
    }
}

impl View for Addr {
    type V = Addr;

    open spec fn view(&self) -> Addr {
        *self
    }
}

/// The address held in the first four bytes of `s`.
pub open spec fn addr_from(s: Seq<u8>) -> Addr {
    Addr([s[0], s[1], s[2], s[3]])
}

/// Reading an IPv4 address: four bytes.
pub open spec fn parse_addr(s: Seq<u8>) -> Result<(int, Addr), int> {
    if s.len() < 4 {
        Err(0)
    } else {
        Ok((4, addr_from(s)))
    }
}

pub proof fn lemma_addr_from_view(a: Addr)
    ensures
        addr_from(a.0@) == a,
{
    assert(addr_from(a.0@).0 =~= a.0);
}

impl Addr {
    pub fn zero() -> (r: Self)
        ensures
            r == Addr([0u8, 0u8, 0u8, 0u8]),
    {
        Self([0, 0, 0, 0])
    }

    pub fn parse<'a>(i: Input<'a>) -> (r: PResult<'a, Self>)
        ensures
            outcome_of(i, r, parse_addr(i@)),
    {
        if i.len() < 4 {
            return fail_at(i, 0);
        }
        let res = Self([i[0], i[1], i[2], i[3]]);
        Ok((rest_after(i, 4), res))
    }

    pub fn serialize(&self, out: &mut Vec<u8>)
        ensures
            final(out)@ == old(out)@ + self.0@,
    {
        write_bytes(out, vstd::array::array_as_slice(&self.0));
    }

    /// The address written in dotted-decimal notation in `s`, such as
    /// `192.168.0.1`: exactly four parts separated by `.`, each a decimal
    /// number that fits in a byte.
    pub fn from_dotted(s: &str) -> (r: Result<Self, ParseAddrError>)
        ensures
            r == dotted_addr(s.spec_bytes()),
    {
        let b = s.as_bytes();
        match parse_octets(b) {
            Err(e) => Err(e),
            Ok((o, more)) => {
                if more {
                    Err(ParseAddrError::TooManyParts)
                } else {
                    proof {
                        let ghost octs = octets_from(b@, Some(0), Seq::empty()).unwrap().0;
                        assert(Addr(o).0 =~= addr_from(octs).0);
                    }
                    Ok(Addr(o))
                }
            },
        }
    }
}

impl std::str::FromStr for Addr {
    type Err = ParseAddrError;

    fn from_str(s: &str) -> (r: Result<Self, ParseAddrError>)
        ensures
            r == dotted_addr(s.spec_bytes()),
    {
        Addr::from_dotted(s)
    }
}

/// Why a decimal number could not be read (the cases of
/// `std::num::IntErrorKind` that reading a byte can give).
#[derive(Debug, Clone, Copy, PartialEq, Eq, Structural)]
pub enum IntErrorKind {
    /// The text is empty.
    Empty,
    /// The text holds something other than decimal digits after an optional `+`.
    InvalidDigit,
    /// The number does not fit in a byte.
    PosOverflow,
}

/// Why a dotted-decimal address could not be read.
#[derive(Debug, Clone, Copy, PartialEq, Eq, Structural)]
pub enum ParseAddrError {
    NotEnoughParts,
    TooManyParts,
    ParseIntError(IntErrorKind),
}

pub open spec fn is_digit(c: u8) -> bool {
    48 <= c <= 57
}

/// The value of the decimal digits `d` read after the value `acc`, as the
/// standard library reads a `u8`: digit by digit, a non-digit giving
/// `InvalidDigit` and a value above 255 giving `PosOverflow`, whichever
/// comes first.
pub open spec fn decimal_digits(d: Seq<u8>, acc: int) -> Result<u8, IntErrorKind>
    decreases d.len(),
{
    if d.len() == 0 {
        Ok(acc as u8)
    } else if !is_digit(d[0]) {
        Err(IntErrorKind::InvalidDigit)
    } else if acc * 10 + (d[0] - 48) > 255 {
        Err(IntErrorKind::PosOverflow)
    } else {
        decimal_digits(d.subrange(1, d.len() as int), acc * 10 + (d[0] - 48))
    }
}

/// A byte written in decimal, as `str::parse::<u8>` reads it: an optional
/// leading `+`, then at least one digit.
pub open spec fn decimal_u8(s: Seq<u8>) -> Result<u8, IntErrorKind> {
    if s.len() == 0 {
        Err(IntErrorKind::Empty)
    } else if s.len() == 1 && (s[0] == 43 || s[0] == 45) {
        Err(IntErrorKind::InvalidDigit)
    } else if s[0] == 43 {
        decimal_digits(s.subrange(1, s.len() as int), 0)
    } else {
        decimal_digits(s, 0)
    }
}

/// The position of the first `.` at or after `from`, or the length of `b`.
pub open spec fn next_dot(b: Seq<u8>, from: int) -> int
    decreases b.len() - from,
{
    if from >= b.len() || from < 0 {
        b.len() as int
    } else if b[from] == 46 {
        from
    } else {
        next_dot(b, from + 1)
    }
}

/// Reading the parts of `b` split at `.`, from the part that starts at
/// `pos` (`None` once the parts are used up), until `acc` holds four bytes.
/// Gives the four bytes and where the next part starts, if there is one.
pub open spec fn octets_from(b: Seq<u8>, pos: Option<int>, acc: Seq<u8>) -> Result<
    (Seq<u8>, Option<int>),
    ParseAddrError,
>
    decreases 4 - acc.len(),
{
    if acc.len() >= 4 {
        Ok((acc, pos))
    } else {
        match pos {
            None => Err(ParseAddrError::NotEnoughParts),
            Some(p) => {
                let end = next_dot(b, p);
                match decimal_u8(b.subrange(p, end)) {
                    Err(e) => Err(ParseAddrError::ParseIntError(e)),
                    Ok(v) => octets_from(
                        b,
                        if end < b.len() {
                            Some(end + 1)
                        } else {
                            None
                        },
                        acc.push(v),
                    ),
                }
            },
        }
    }
}

/// The address written in `b` in dotted-decimal notation.
pub open spec fn dotted_addr(b: Seq<u8>) -> Result<Addr, ParseAddrError> {
    match octets_from(b, Some(0), Seq::empty()) {
        Err(e) => Err(e),
        Ok((o, more)) => if more is Some {
            Err(ParseAddrError::TooManyParts)
        } else {
            Ok(addr_from(o))
        },
    }
}

/// Read a byte written in decimal in `b[start..end]`.
pub fn parse_u8_decimal(b: &[u8], start: usize, end: usize) -> (r: Result<u8, IntErrorKind>)
    requires
        start <= end <= b@.len(),
    ensures
        r == decimal_u8(b@.subrange(start as int, end as int)),
{
    let ghost s = b@.subrange(start as int, end as int);
    if start == end {
        return Err(IntErrorKind::Empty);
    }
    if end - start == 1 && (b[start] == 43 || b[start] == 45) {
        return Err(IntErrorKind::InvalidDigit);
    }
    let mut k: usize = if b[start] == 43 {
        start + 1
    } else {
        start
    };
    proof {
        if b[start as int] == 43 {
            assert(s.subrange(1, s.len() as int) =~= b@.subrange(k as int, end as int));
        } else {
            assert(s =~= b@.subrange(k as int, end as int));
        }
    }
    let mut acc: u16 = 0;
    while k < end
        invariant
            start <= k <= end <= b@.len(),
            acc <= 255,
            s == b@.subrange(start as int, end as int),
            decimal_u8(s) == decimal_digits(b@.subrange(k as int, end as int), acc as int),
        decreases end - k,
    {
        let c = b[k];
        let ghost d = b@.subrange(k as int, end as int);
        assert(d[0] == c);
        assert(d.len() > 0);
        if !(48 <= c && c <= 57) {
            assert(decimal_digits(d, acc as int) == Err::<u8, IntErrorKind>(
                IntErrorKind::InvalidDigit,
            ));
            return Err(IntErrorKind::InvalidDigit);
        }
        let v = acc * 10 + (c - 48) as u16;
        if v > 255 {
            assert(decimal_digits(d, acc as int) == Err::<u8, IntErrorKind>(
                IntErrorKind::PosOverflow,
            ));
            return Err(IntErrorKind::PosOverflow);
        }
        assert(d.subrange(1, d.len() as int) =~= b@.subrange(k + 1, end as int));
        acc = v;
        k = k + 1;
    }
    Ok(acc as u8)
}

/// The position of the first `.` at or after `from`, or the length of `b`.
fn find_dot(b: &[u8], from: usize) -> (r: usize)
    requires
        from <= b@.len(),
    ensures
        r == next_dot(b@, from as int),
        from <= r <= b@.len(),
{
    let mut j = from;
    while j < b.len() && b[j] != 46
        invariant
            from <= j <= b@.len(),
            next_dot(b@, j as int) == next_dot(b@, from as int),
        decreases b@.len() - j,
    {
        j = j + 1;
    }
    j
}

/// Read the first four `.`-separated parts of `b` as bytes; also says
/// whether more parts follow.
pub fn parse_octets(b: &[u8]) -> (r: Result<([u8; 4], bool), ParseAddrError>)
    ensures
        match octets_from(b@, Some(0), Seq::empty()) {
            Err(e) => r == Err::<([u8; 4], bool), ParseAddrError>(e),
            Ok((o, more)) => r matches Ok((a, m)) && a@ == o && m == (more is Some),
        },
{
    let mut o: [u8; 4] = [0, 0, 0, 0];
    let mut pos: usize = 0;
    let mut done = false;
    let mut k: usize = 0;
    let ghost acc: Seq<u8> = Seq::empty();
    while k < 4
        invariant
            k <= 4,
            acc.len() == k,
            o@.len() == 4,
            forall|j: int| 0 <= j < k ==> o@[j] == acc[j],
            pos <= b@.len(),
            octets_from(b@, Some(0), Seq::empty()) == octets_from(
                b@,
                if done {
                    None
                } else {
                    Some(pos as int)
                },
                acc,
            ),
        decreases 4 - k,
    {
        if done {
            return Err(ParseAddrError::NotEnoughParts);
        }
        let end = find_dot(b, pos);
        let v = match parse_u8_decimal(b, pos, end) {
            Err(e) => {
                return Err(ParseAddrError::ParseIntError(e));
            },
            Ok(v) => v,
        };
        o[k] = v;
        proof {
            acc = acc.push(v);
        }
        if end < b.len() {
            pos = end + 1;
        } else {
            done = true;
        }
        k = k + 1;
    }
    assert(o@ =~= acc);
    Ok((o, !done))
}

/// The transport protocols this crate knows.
#[derive(Debug, Clone, Copy, PartialEq, Eq, Structural)]
pub enum Protocol {
    ICMP,
    TCP,
    UDP,
}

impl View for Protocol {
    type V = Protocol;

    open spec fn view(&self) -> Protocol {
        *self
    }
}

/// The protocol with number `v`, if this crate knows it.
pub open spec fn protocol_from(v: u8) -> Option<Protocol> {
    if v == 1 {
        Some(Protocol::ICMP)
    } else if v == 6 {
        Some(Protocol::TCP)
    } else if v == 0x11 {
        Some(Protocol::UDP)
    } else {
        None
    }
}

pub open spec fn protocol_number(p: Protocol) -> u8 {
    match p {
        Protocol::ICMP => 1,
        Protocol::TCP => 6,
        Protocol::UDP => 0x11,
    }
}

/// Reading a protocol: one byte, unknown numbers giving `None`.
pub open spec fn parse_protocol(s: Seq<u8>) -> Result<(int, Option<Protocol>), int> {
    if s.len() < 1 {
        Err(0)
    } else {
        Ok((1, protocol_from(s[0])))
    }
}

impl Protocol {
    /// The protocol with number `v`, if this crate knows it.
    pub fn from_u8(v: u8) -> (r: Option<Self>)
        ensures
            r == protocol_from(v),
    {
        if v == 1 {
            Some(Protocol::ICMP)
        } else if v == 6 {
            Some(Protocol::TCP)
        } else if v == 0x11 {
            Some(Protocol::UDP)
        } else {
            None
        }
    }

    pub fn value(&self) -> (r: u8)
        ensures
            r == protocol_number(*self),
    {
        match self {
            Protocol::ICMP => 1,
            Protocol::TCP => 6,
            Protocol::UDP => 0x11,
        }
    }

    pub fn parse<'a>(i: Input<'a>) -> (r: PResult<'a, Option<Self>>)
        ensures
            outcome_of(i, r, parse_protocol(i@)),
    {
        if i.len() < 1 {
            return fail_at(i, 0);
        }
        Ok((rest_after(i, 1), Self::from_u8(i[0])))
    }

    pub fn serialize(&self, out: &mut Vec<u8>)
        ensures
            final(out)@ == old(out)@.push(protocol_number(*self)),
    {
        write_u8(out, self.value());
    }
}

/// What an IPv4 packet carries.
#[derive(Debug, Clone)]
pub enum Payload {
    ICMP(icmp::Packet),
    Unknown,
}

/// What an IPv4 packet carries, as values.
#[verifier::ext_equal]
pub enum PayloadModel {
    ICMP(icmp::PacketModel),
    Unknown,
}

impl View for Payload {
    type V = PayloadModel;

    open spec fn view(&self) -> PayloadModel {
        match self {
            Payload::ICMP(p) => PayloadModel::ICMP(p@),
            Payload::Unknown => PayloadModel::Unknown,
        }
    }
}

/// An IPv4 packet. The fields narrower than a byte hold values of their
/// width: `version` and `ihl` 4 bits, `dscp` 6, `ecn` 2, `flags` 3 and
/// `fragment_offset` 13.
#[derive(Debug, Clone)]
pub struct Packet {
    pub version: u8,
    pub ihl: u8,
    pub dscp: u8,
    pub ecn: u8,
    pub length: u16,
    pub identification: u16,
    pub flags: u8,
    pub fragment_offset: u16,
    pub ttl: u8,
    pub protocol: Option<Protocol>,
    pub checksum: u16,
    pub src: Addr,
    pub dst: Addr,
    pub payload: Payload,
}

/// An IPv4 packet as values.
#[verifier::ext_equal]
pub struct PacketModel {
    pub version: u8,
    pub ihl: u8,
    pub dscp: u8,
    pub ecn: u8,
    pub length: u16,
    pub identification: u16,
    pub flags: u8,
    pub fragment_offset: u16,
    pub ttl: u8,
    pub protocol: Option<Protocol>,
    pub checksum: u16,
    pub src: Addr,
    pub dst: Addr,
    pub payload: PayloadModel,
}

impl View for Packet {
    type V = PacketModel;

    open spec fn view(&self) -> PacketModel {
        PacketModel {
            version: self.version,
            ihl: self.ihl,
            dscp: self.dscp,
            ecn: self.ecn,
            length: self.length,
            identification: self.identification,
            flags: self.flags,
            fragment_offset: self.fragment_offset,
            ttl: self.ttl,
            protocol: self.protocol,
            checksum: self.checksum,
            src: self.src,
            dst: self.dst,
            payload: self.payload@,
        }
    }
}

/// The bit fields hold values of their widths.
pub open spec fn fields_in_range(p: PacketModel) -> bool {
    &&& p.version < 16
    &&& p.ihl < 16
    &&& p.dscp < 64
    &&& p.ecn < 4
    &&& p.flags < 8
    &&& p.fragment_offset < 8192
}

/// Parsing panics when the version is not 4, or when it reads an ICMP
/// payload that panics; these are the inputs on which it does not.
pub open spec fn parse_is_safe(s: Seq<u8>) -> bool {
    &&& s.len() >= 1 ==> s[0] / 16 == 4
    &&& s.len() >= 20 && s[9] == 1 ==> icmp::parse_is_safe(s.skip(20))
}

/// The fixed twenty-byte header of `s` read as a packet carrying `payload`.
pub open spec fn header_fields(s: Seq<u8>, payload: PayloadModel) -> PacketModel {
    PacketModel {
        version: s[0] / 16,
        ihl: s[0] % 16,
        dscp: s[1] / 4,
        ecn: s[1] % 4,
        length: be16(s, 2),
        identification: be16(s, 4),
        flags: s[6] / 32,
        fragment_offset: (be16(s, 6) % 8192) as u16,
        ttl: s[8],
        protocol: protocol_from(s[9]),
        checksum: be16(s, 10),
        src: addr_from(s.subrange(12, 16)),
        dst: addr_from(s.subrange(16, 20)),
        payload,
    }
}

/// Reading an IPv4 packet: the fixed twenty-byte header (options are not
/// read, and `ihl` and `length` are not looked at), then, when the protocol
/// is ICMP, an ICMP packet from all the rest of the input.
pub open spec fn parse_packet(s: Seq<u8>) -> Result<(int, PacketModel), int> {
    if s.len() < 1 {
        Err(0)
    } else if s.len() < 2 {
        Err(1)
    } else if s.len() < 4 {
        Err(2)
    } else if s.len() < 6 {
        Err(4)
    } else if s.len() < 8 {
        Err(6)
    } else if s.len() < 9 {
        Err(8)
    } else if s.len() < 10 {
        Err(9)
    } else if s.len() < 12 {
        Err(10)
    } else if s.len() < 16 {
        Err(12)
    } else if s.len() < 20 {
        Err(16)
    } else if protocol_from(s[9]) == Some(Protocol::ICMP) {
        match icmp::parse_packet(s.skip(20)) {
            Err(k) => Err(20 + k),
            Ok((n, p)) => Ok((20 + n, header_fields(s, PayloadModel::ICMP(p)))),
        }
    } else {
        Ok((20, header_fields(s, PayloadModel::Unknown)))
    }
}

/// Only packets carrying a writable ICMP packet can be written.
pub open spec fn serializable(p: PacketModel) -> bool {
    p.payload matches PayloadModel::ICMP(q) && icmp::serializable(q)
}

/// The bytes of what a packet carries.
pub open spec fn payload_bytes(p: PayloadModel) -> Seq<u8> {
    match p {
        PayloadModel::ICMP(q) => icmp::serialize_packet(q),
        PayloadModel::Unknown => Seq::empty(),
    }
}

/// The bytes of a packet with zero length and checksum fields: version 4,
/// header length 5, DSCP, ECN, flags and fragment offset zero, protocol
/// ICMP; the identification, TTL and addresses of `p`, then its payload.
pub open spec fn serialize_no_checksum(p: PacketModel) -> Seq<u8> {
    seq![0x45u8, 0u8, 0u8, 0u8] + be16_bytes(p.identification) + seq![0u8, 0u8, p.ttl, 1u8, 0u8, 0u8]
        + p.src.0@ + p.dst.0@ + payload_bytes(p.payload)
}

/// The total length written into a packet of `n` bytes (modulo 2^16).
pub open spec fn length_field(n: nat) -> u16 {
    (n % 65536) as u16
}

/// The bytes of a packet: `serialize_no_checksum` with the total length
/// written big-endian, then the Internet checksum of the twenty header bytes
/// written little-endian into the checksum field.
pub open spec fn serialize_packet(p: PacketModel) -> Seq<u8> {
    let b = serialize_no_checksum(p);
    let b1 = set_be16(b, 2, length_field(b.len()));
    set_le16(b1, 10, internet_checksum(b1.subrange(0, 20)))
}

impl Payload {
    /// The protocol of what is carried; only ICMP is known.
    pub fn protocol(&self) -> (r: Protocol)
        requires
            self is ICMP,
        ensures
            r == Protocol::ICMP,
    {
        Protocol::ICMP
    }

    pub fn serialize(&self, out: &mut Vec<u8>)
        requires
            self@ matches PayloadModel::ICMP(q) && icmp::serializable(q),
        ensures
            final(out)@ == old(out)@ + payload_bytes(self@),
    {
        match self {
            Payload::ICMP(icmp) => icmp.serialize(out),
            Payload::Unknown => {},
        }
    }

    /// A packet from `src` to `dst` carrying this payload, with the
    /// defaults of `Packet::default` and a fresh random identification.
    pub fn as_packet(self, src: Addr, dst: Addr) -> (r: Packet)
        requires
            self is ICMP,
        ensures
            r@ == (PacketModel {
                protocol: Some(Protocol::ICMP),
                payload: self@,
                src,
                dst,
                identification: r.identification,
                ..default_model(r.identification)
            }),
    {
        let protocol = Some(self.protocol());
        let d = Packet::default();
        Packet {
            protocol,
            payload: self,
            src,
            dst,
            length: d.length,
            identification: d.identification,
            version: d.version,
            ihl: d.ihl,
            dscp: d.dscp,
            ecn: d.ecn,
            flags: d.flags,
            fragment_offset: d.fragment_offset,
            ttl: d.ttl,
            checksum: d.checksum,
        }
    }
}

/// The default packet with identification `id`: version 4, header length
/// 5, TTL 128, every other field zero, no protocol, addresses zero, no
/// payload.
pub open spec fn default_model(id: u16) -> PacketModel {
    PacketModel {
        version: 4,
        ihl: 5,
        dscp: 0,
        ecn: 0,
        length: 0,
        identification: id,
        flags: 0,
        fragment_offset: 0,
        ttl: 128,
        protocol: None,
        checksum: 0,
        src: Addr([0u8, 0u8, 0u8, 0u8]),
        dst: Addr([0u8, 0u8, 0u8, 0u8]),
        payload: PayloadModel::Unknown,
    }
}

/// A random 16-bit number from `rand::random`. Nothing is stated of which
/// number comes out.
#[verifier::external_body]
fn random_u16() -> u16 {
    rand::random::<u16>()
}

impl Default for Packet {
    /// The default packet, with a random identification.
    fn default() -> (r: Self)
        ensures
            r@ == default_model(r.identification),
    {
        Self {
            length: 0,
            identification: random_u16(),
            version: 4,
            ihl: 5,
            dscp: 0,
            ecn: 0,
            flags: 0,
            fragment_offset: 0,
            ttl: 128,
            protocol: None,
            checksum: 0,
            src: Addr::zero(),
            dst: Addr::zero(),
            payload: Payload::Unknown,
        }
    }
}

impl Packet {
    pub fn parse<'a>(i: Input<'a>) -> (r: PResult<'a, Self>)
        requires
            parse_is_safe(i@),
        ensures
            outcome_of(i, r, parse_packet(i@)),
            r matches Ok((_, p)) ==> fields_in_range(p@),
    {
        if i.len() < 1 {
            return fail_at(i, 0);
        }
        let version = i[0] / 16;
        let ihl = i[0] % 16;
        if i.len() < 2 {
            return fail_at(i, 1);
        }
        let dscp = i[1] / 4;
        let ecn = i[1] % 4;
        if i.len() < 4 {
            return fail_at(i, 2);
        }
        let length = read_be16(i, 2);
        if i.len() < 6 {
            return fail_at(i, 4);
        }
        let identification = read_be16(i, 4);
        if i.len() < 8 {
            return fail_at(i, 6);
        }
        let flags = i[6] / 32;
        let fragment_offset = read_be16(i, 6) % 8192;
        if i.len() < 9 {
            return fail_at(i, 8);
        }
        let ttl = i[8];
        if i.len() < 10 {
            return fail_at(i, 9);
        }
        let protocol = Protocol::from_u8(i[9]);
        if i.len() < 12 {
            return fail_at(i, 10);
        }
        let checksum = read_be16(i, 10);
        if i.len() < 16 {
            return fail_at(i, 12);
        }
        let src = Addr([i[12], i[13], i[14], i[15]]);
        if i.len() < 20 {
            return fail_at(i, 16);
        }
        let dst = Addr([i[16], i[17], i[18], i[19]]);
        let after = rest_after(i, 20);
        let (rest, payload) = match protocol {
            Some(Protocol::ICMP) => match icmp::Packet::parse(after) {
                Err(e) => {
                    let k = i.len() - e.errors[0].0.len();
                    proof {
                        let kk = icmp::parse_packet(after@)->Err_0;
                        assert(e.errors@[0].0@.len() == after@.len() - kk);
                    }
                    return fail_at(i, k);
                },
                Ok((rest, p)) => (rest, Payload::ICMP(p)),
            },
            _ => (after, Payload::Unknown),
        };
        let res = Packet {
            version,
            ihl,
            dscp,
            ecn,
            length,
            identification,
            flags,
            fragment_offset,
            ttl,
            protocol,
            checksum,
            src,
            dst,
            payload,
        };
        proof {
            let m = parse_packet(i@)->Ok_0.1;
            assert(m.src.0 =~= src.0);
            assert(m.dst.0 =~= dst.0);
            assert(rest@ =~= i@.skip(parse_packet(i@)->Ok_0.0));
        }
        Ok((rest, res))
    }

    /// Whether `parse` returns on `i` rather than panic.
    pub fn is_safe_to_parse(i: &[u8]) -> (r: bool)
        ensures
            r == parse_is_safe(i@),
    {
        if i.len() >= 1 && i[0] / 16 != 4 {
            return false;
        }
        if i.len() >= 20 && i[9] == 1 {
            return icmp::Packet::is_safe_to_parse(rest_after(i, 20));
        }
        true
    }

    /// This packet as the payload of an Ethernet frame.
    pub fn as_ethernet_payload(self) -> (r: crate::ethernet::Payload)
        ensures
            r@ == crate::ethernet::PayloadModel::IPv4(self@),
    {
        crate::ethernet::Payload::IPv4(self)
    }

    /// The bytes of this packet with zero length and checksum fields.
    pub fn serialize_no_checksum(&self, out: &mut Vec<u8>)
        requires
            serializable(self@),
        ensures
            final(out)@ == old(out)@ + serialize_no_checksum(self@),
    {
        let ghost start = out@;
        write_u8(out, 0x45);
        write_u8(out, 0);
        write_be16(out, 0);
        write_be16(out, self.identification);
        write_u8(out, 0);
        write_u8(out, 0);
        write_u8(out, self.ttl);
        self.payload.protocol().serialize(out);
        write_be16(out, 0);
        self.src.serialize(out);
        self.dst.serialize(out);
        self.payload.serialize(out);
        assert(out@ =~= start + serialize_no_checksum(self@));
    }

    /// The bytes of this packet, with its total length and header checksum.
    pub fn serialize(&self, out: &mut Vec<u8>)
        requires
            serializable(self@),
        ensures
            final(out)@ == old(out)@ + serialize_packet(self@),
    {
        let mut buf = Vec::new();
        self.serialize_no_checksum(&mut buf);
        let length = (buf.len() % 65536) as u16;
        patch_be16(&mut buf, 2, length);
        let c = checksum(vstd::slice::slice_subrange(buf.as_slice(), 0, 20));
        patch_le16(&mut buf, 10, c);
        write_bytes(out, buf.as_slice());
    }
}

/// The Internet checksum of `slice`: its 16-bit little-endian words (an odd
/// last byte counting as a word of its own) added with end-around carry,
/// then complemented. Written into a packet in little-endian order it makes
/// the whole packet check to zero.
pub fn checksum(slice: &[u8]) -> (r: u16)
    ensures
        r == internet_checksum(slice@),
{
    let n = slice.len();
    let mut acc: u16 = 0;
    let mut i: usize = 0;
    while i + 1 < n
        invariant
            n == slice@.len(),
            i <= n,
            i % 2 == 0,
            acc as int == fold_ones(word_sum(slice@.subrange(0, i as int)) as int),
        decreases n - i,
    {
        let w: u16 = (slice[i] as u16) + 256 * (slice[i + 1] as u16);
        proof {
            lemma_word_sum_prefix_step(slice@, i as int);
            lemma_add_carry_folds(word_sum(slice@.subrange(0, i as int)) as int, w as int);
        }
        acc = self::add(acc, w);
        i = i + 2;
    }
    let tail: u16 = if i < n { slice[i] as u16 } else { 0 };
    proof {
        if i < n {
            lemma_word_sum_prefix_tail(slice@, i as int);
        } else {
            assert(slice@.subrange(0, i as int) =~= slice@);
        }
        lemma_add_carry_folds(word_sum(slice@.subrange(0, i as int)) as int, tail as int);
        lemma_fold_ones_range(word_sum(slice@) as int);
    }
    let s = self::add(acc, tail);
    65535 - s
}

/// Addition with end-around carry.
fn add(a: u16, b: u16) -> (r: u16)
    ensures
        r == add_carry(a, b),
{
    let s: u32 = (a as u32) + (b as u32);
    if s >= 65536 {
        (s + 1 - 65536) as u16
    } else {
        s as u16
    }
}

} // verus!

verus! {

/// What reading back a written packet gives: the fields that writing fixes
/// take the values written (version 4, header length 5, DSCP, ECN, flags
/// and fragment offset 0, protocol ICMP, the total length and the written
/// checksum bytes read big-endian), and the ICMP payload reads back as
/// `icmp::normalize` says.
pub open spec fn normalize(p: PacketModel) -> PacketModel {
    let b = serialize_packet(p);
    PacketModel {
        version: 4,
        ihl: 5,
        dscp: 0,
        ecn: 0,
        length: length_field(b.len()),
        identification: p.identification,
        flags: 0,
        fragment_offset: 0,
        ttl: p.ttl,
        protocol: Some(Protocol::ICMP),
        checksum: be16(b, 10),
        src: p.src,
        dst: p.dst,
        payload: match p.payload {
            PayloadModel::ICMP(q) => PayloadModel::ICMP(icmp::normalize(q)),
            PayloadModel::Unknown => PayloadModel::Unknown,
        },
    }
}

/// Writing a packet and reading it back gives `normalize` of it, and
/// parsing the written bytes does not panic.
pub proof fn lemma_serialize_parse_roundtrip(p: PacketModel)
    requires
        serializable(p),
    ensures
        parse_is_safe(serialize_packet(p)),
        parse_packet(serialize_packet(p)) is Ok,
        parse_packet(serialize_packet(p))->Ok_0.0 == 28,
        parse_packet(serialize_packet(p))->Ok_0.1 == normalize(p),
{
    let q = p.payload->ICMP_0;
    let nc = serialize_no_checksum(p);
    let b = serialize_packet(p);
    let l = length_field(nc.len());
    let b1 = set_be16(nc, 2, l);
    let c = internet_checksum(b1.subrange(0, 20));
    icmp::lemma_serialize_parse_roundtrip(q);
    let ib = icmp::serialize_packet(q);
    assert(nc.skip(20) =~= ib);
    assert(b.skip(20) =~= ib);
    assert(b.len() == nc.len());
    assert(b[0] == 0x45u8 && b[1] == 0u8 && b[9] == 1u8 && b[8] == p.ttl);
    assert(b[6] == 0u8 && b[7] == 0u8);
    assert(be16(b, 2) == l);
    assert(be16(b, 4) == p.identification);
    lemma_addr_from_view(p.src);
    lemma_addr_from_view(p.dst);
    assert(b.subrange(12, 16) =~= p.src.0@);
    assert(b.subrange(16, 20) =~= p.dst.0@);
    let m = parse_packet(b)->Ok_0.1;
    assert(m =~= normalize(p));
}

/// The header of a written packet checks to zero: the Internet checksum of
/// its twenty header bytes, checksum field included, is 0.
pub proof fn lemma_header_checksum_is_zero(p: PacketModel)
    requires
        serializable(p),
    ensures
        internet_checksum(serialize_packet(p).subrange(0, 20)) == 0,
{
    let nc = serialize_no_checksum(p);
    let b1 = set_be16(nc, 2, length_field(nc.len()));
    let h = b1.subrange(0, 20);
    let c = internet_checksum(h);
    assert(h[10] == 0 && h[11] == 0);
    assert(serialize_packet(p).subrange(0, 20) =~= set_le16(h, 10, c));
    crate::inet_sum::lemma_checksum_fills_to_zero(h, 10);
}

/// Reading an address and writing it back gives the bytes read.
pub proof fn lemma_addr_parse_serialize(s: Seq<u8>)
    requires
        s.len() >= 4,
    ensures
        addr_from(s).0@ == s.subrange(0, 4),
{
    assert(addr_from(s).0@ =~= s.subrange(0, 4));
}

/// Writing an address and reading it back gives the address.
pub proof fn lemma_addr_serialize_parse(a: Addr, rest: Seq<u8>)
    ensures
        parse_addr(a.0@ + rest) == Ok::<(int, Addr), int>((4, a)),
{
    lemma_addr_from_view(a);
    assert(addr_from(a.0@ + rest).0 =~= a.0);
}

} // verus!

verus! {

/// Writing a protocol and reading it back gives it.
pub proof fn lemma_protocol_roundtrip(p: Protocol, rest: Seq<u8>)
    ensures
        parse_protocol(seq![protocol_number(p)] + rest) == Ok::<(int, Option<Protocol>), int>(
            (1, Some(p)),
        ),
{
}

} // verus!

verus! {

/// Whatever the protocol, every field of a parsed packet is read from its
/// place in the twenty-byte header: version and header length from the two
/// halves of byte 0, DSCP and ECN from the top six and low two bits of byte
/// 1, the length, identification and checksum as big-endian numbers at 2, 4
/// and 10, flags and fragment offset from the top three and low thirteen
/// bits of bytes 6..8, the TTL at 8, the protocol number at 9, the source at
/// 12..16 and the destination at 16..20. An ICMP packet is carried exactly
/// when the protocol byte is 1; otherwise nothing past the header is read.
pub proof fn lemma_parse_reads_header(s: Seq<u8>)
    requires
        parse_packet(s) is Ok,
    ensures
        s.len() >= 20,
        ({
            let p = parse_packet(s)->Ok_0.1;
            &&& p.version as int * 16 + p.ihl as int == s[0] as int
            &&& p.ihl < 16
            &&& p.dscp as int * 4 + p.ecn as int == s[1] as int
            &&& p.ecn < 4
            &&& p.length as int == s[2] as int * 256 + s[3] as int
            &&& p.identification as int == s[4] as int * 256 + s[5] as int
            &&& p.flags as int * 8192 + p.fragment_offset as int == s[6] as int * 256 + s[7] as int
            &&& p.fragment_offset < 8192
            &&& p.ttl == s[8]
            &&& (p.protocol == Some(Protocol::ICMP) <==> s[9] == 1)
            &&& (p.protocol == Some(Protocol::TCP) <==> s[9] == 6)
            &&& (p.protocol == Some(Protocol::UDP) <==> s[9] == 17)
            &&& (p.protocol is None <==> (s[9] != 1 && s[9] != 6 && s[9] != 17))
            &&& p.checksum as int == s[10] as int * 256 + s[11] as int
            &&& p.src.0@ == s.subrange(12, 16)
            &&& p.dst.0@ == s.subrange(16, 20)
            &&& (p.payload is ICMP <==> s[9] == 1)
            &&& (s[9] != 1 ==> parse_packet(s)->Ok_0.0 == 20)
        }),
{
    let p = parse_packet(s)->Ok_0.1;
    assert(p.src.0@ =~= s.subrange(12, 16));
    assert(p.dst.0@ =~= s.subrange(16, 20));
    let w = s[6] as int * 256 + s[7] as int;
    assert((w / 8192) == s[6] as int / 32 && w % 8192 == (s[6] as int % 32) * 256 + s[7] as int)
        by (nonlinear_arith)
        requires
            w == s[6] as int * 256 + s[7] as int,
            0 <= (s[6] as int) && (s[6] as int) < 256,
            0 <= (s[7] as int) && (s[7] as int) < 256,
    ;
    assert(s[6] as int / 32 * 8192 + (s[6] as int % 32) * 256 == s[6] as int * 256)
        by (nonlinear_arith)
        requires
            0 <= (s[6] as int) && (s[6] as int) < 256,
    ;
}

} // verus!

verus! {

/// The number that the decimal digits `d` write.
pub open spec fn digits_value(d: Seq<u8>) -> int
    decreases d.len(),
{
    if d.len() == 0 {
        0
    } else {
        digits_value(d.drop_last()) * 10 + (d.last() as int - 48)
    }
}

pub open spec fn all_digits(d: Seq<u8>) -> bool {
    forall|i: int| 0 <= i < d.len() ==> is_digit(#[trigger] d[i])
}

proof fn lemma_digits_value_grows(a: Seq<u8>, b: Seq<u8>)
    requires
        all_digits(a + b),
    ensures
        digits_value(a + b) >= digits_value(a),
        digits_value(a) >= 0,
    decreases a.len() + b.len(),
{
    if b.len() == 0 {
        assert(a + b =~= a);
        if a.len() > 0 {
            assert(all_digits(a.drop_last())) by {
                assert forall|i: int| 0 <= i < a.drop_last().len() implies is_digit(
                    #[trigger] a.drop_last()[i],
                ) by {
                    assert(a.drop_last()[i] == (a + b)[i]);
                }
            }
            lemma_digits_value_grows(a.drop_last(), Seq::empty());
            assert(a.drop_last() + Seq::<u8>::empty() =~= a.drop_last());
            assert(is_digit((a + b)[a.len() - 1]));
        }
    } else {
        let c = a + b.drop_last();
        assert((a + b).drop_last() =~= c);
        assert(all_digits(c)) by {
            assert forall|i: int| 0 <= i < c.len() implies is_digit(#[trigger] c[i]) by {
                assert(c[i] == (a + b)[i]);
            }
        }
        lemma_digits_value_grows(a, b.drop_last());
        assert(is_digit((a + b)[(a + b).len() - 1]));
    }
}

proof fn lemma_digits_from(p: Seq<u8>, d: Seq<u8>)
    requires
        all_digits(p + d),
        digits_value(p) <= 255,
    ensures
        decimal_digits(d, digits_value(p)) == if digits_value(p + d) <= 255 {
            Ok::<u8, IntErrorKind>(digits_value(p + d) as u8)
        } else {
            Err::<u8, IntErrorKind>(IntErrorKind::PosOverflow)
        },
    decreases d.len(),
{
    if d.len() == 0 {
        assert(p + d =~= p);
    } else {
        let p1 = p.push(d[0]);
        let d1 = d.subrange(1, d.len() as int);
        assert(p1 + d1 =~= p + d);
        assert(p1.drop_last() =~= p);
        assert(is_digit((p + d)[p.len() as int]));
        lemma_digits_value_grows(p1, d1);
        if digits_value(p1) <= 255 {
            lemma_digits_from(p1, d1);
        }
    }
}

/// A run of decimal digits, with or without a leading `+`, reads as the
/// number it writes when that fits in a byte, and as `PosOverflow` when it
/// does not; empty text reads as `Empty`.
pub proof fn lemma_decimal_u8_of_digits(s: Seq<u8>)
    requires
        s.len() > 0,
        all_digits(s),
    ensures
        decimal_u8(s) == (if digits_value(s) <= 255 {
            Ok::<u8, IntErrorKind>(digits_value(s) as u8)
        } else {
            Err::<u8, IntErrorKind>(IntErrorKind::PosOverflow)
        }),
        decimal_u8(seq![43u8] + s) == decimal_u8(s),
        decimal_u8(Seq::empty()) == Err::<u8, IntErrorKind>(IntErrorKind::Empty),
{
    assert(Seq::<u8>::empty() + s =~= s);
    lemma_digits_from(Seq::empty(), s);
    assert(is_digit(s[0]));
    let t = seq![43u8] + s;
    assert(t.subrange(1, t.len() as int) =~= s);
}

} // verus!
