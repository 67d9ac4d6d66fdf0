//! IPv4 addresses as the ping tool reads and prints them.
use vstd::prelude::*;
use vstd::string::StringSliceAdditionalSpecFns;
use crate::ipv4::{octets_from, parse_octets, IntErrorKind};
use crate::text::{decimal, push_char, push_decimal};

verus! {

/// An IPv4 address.
pub struct Addr(pub [u8; 4]);

/// Why a dotted-decimal address could not be read.
#[derive(Debug, Clone, Copy, PartialEq, Eq, Structural)]
pub enum ParseAddrError {
    NotEnoughParts,
    ParseIntError(IntErrorKind),
}

/// The text of an address: its four bytes in decimal joined by `.`.
pub open spec fn dotted_text(a: [u8; 4]) -> Seq<char> {
    decimal(a[0]) + seq!['.'] + decimal(a[1]) + seq!['.'] + decimal(a[2]) + seq!['.'] + decimal(
        a[3],
    )
}

/// Reading the parts of `b` never finds too many of them: that is only
/// looked at after the fourth.
pub proof fn lemma_octets_never_too_many(b: Seq<u8>, pos: Option<int>, acc: Seq<u8>)
    ensures
        octets_from(b, pos, acc) != Err::<(Seq<u8>, Option<int>), crate::ipv4::ParseAddrError>(
            crate::ipv4::ParseAddrError::TooManyParts,
        ),
    decreases 4 - acc.len(),
{
    if acc.len() < 4 {
        if let Some(p) = pos {
            let end = crate::ipv4::next_dot(b, p);
            let next = if end < b.len() {
                Some(end + 1)
            } else {
                None
            };
            if let Ok(v) = crate::ipv4::decimal_u8(b.subrange(p, end)) {
                lemma_octets_never_too_many(b, next, acc.push(v));
            }
        }
    }
}

/// The address that the first four `.`-separated parts of `b` give; parts
/// after the fourth are not looked at.
pub open spec fn leading_addr(b: Seq<u8>) -> Result<[u8; 4], ParseAddrError> {
    match octets_from(b, Some(0), Seq::empty()) {
        Err(crate::ipv4::ParseAddrError::ParseIntError(k)) => Err(ParseAddrError::ParseIntError(k)),
        Err(_) => Err(ParseAddrError::NotEnoughParts),
        Ok((o, _)) => Ok([o[0], o[1], o[2], o[3]]),
    }
}

impl Addr {
    /// The address written in `s` in dotted-decimal notation: its first
    /// four `.`-separated parts, each a decimal number that fits in a byte.
    pub fn parse(s: &str) -> (r: Result<Self, ParseAddrError>)
        ensures
            match leading_addr(s.spec_bytes()) {
                Ok(a) => r matches Ok(x) && x.0 == a,
                Err(e) => r matches Err(f) && f == e,
            },
    {
        proof {
            lemma_octets_never_too_many(s.spec_bytes(), Some(0), Seq::empty());
        }
        match parse_octets(s.as_bytes()) {
            Err(crate::ipv4::ParseAddrError::ParseIntError(k)) => Err(
                ParseAddrError::ParseIntError(k),
            ),
            Err(_) => Err(ParseAddrError::NotEnoughParts),
            Ok((o, _)) => {
                let ghost octs = octets_from(s.spec_bytes(), Some(0), Seq::empty())->Ok_0.0;
                assert(o =~= [octs[0], octs[1], octs[2], octs[3]]);
                Ok(Addr(o))
            },
        }
    }

    /// The address as text, such as `192.168.0.1`.
    pub fn to_string(&self) -> (r: String)
        ensures
            r@ == dotted_text(self.0),
    {
        let mut s = String::new();
        push_decimal(&mut s, self.0[0]);
        push_char(&mut s, '.');
        push_decimal(&mut s, self.0[1]);
        push_char(&mut s, '.');
        push_decimal(&mut s, self.0[2]);
        push_char(&mut s, '.');
        push_decimal(&mut s, self.0[3]);
        assert(s@ =~= dotted_text(self.0));
        s
    }
}

} // verus!

verus! {

/// The ASCII bytes of the decimal digits of `b`.
pub open spec fn decimal_bytes(b: u8) -> Seq<u8> {
    if b < 10 {
        seq![(48 + b) as u8]
    } else if b < 100 {
        seq![(48 + b / 10) as u8, (48 + b % 10) as u8]
    } else {
        seq![(48 + b / 100) as u8, (48 + (b / 10) % 10) as u8, (48 + b % 10) as u8]
    }
}

proof fn lemma_decimal_bytes_read(v: u8)
    ensures
        crate::ipv4::decimal_u8(decimal_bytes(v)) == Ok::<u8, IntErrorKind>(v),
        forall|i: int|
            0 <= i < decimal_bytes(v).len() ==> crate::ipv4::is_digit(#[trigger] decimal_bytes(v)[i]),
        1 <= decimal_bytes(v).len() <= 3,
{
    let d = decimal_bytes(v);
    reveal_with_fuel(crate::ipv4::decimal_digits, 4);
    if v < 10 {
        assert(d.subrange(1, 1) =~= Seq::<u8>::empty());
    } else if v < 100 {
        assert(d.subrange(1, 2) =~= seq![(48 + v % 10) as u8]);
        assert(seq![(48 + v % 10) as u8].subrange(1, 1) =~= Seq::<u8>::empty());
    } else {
        assert(d.subrange(1, 3) =~= seq![(48 + (v / 10) % 10) as u8, (48 + v % 10) as u8]);
        assert(seq![(48 + (v / 10) % 10) as u8, (48 + v % 10) as u8].subrange(1, 2) =~= seq![
            (48 + v % 10) as u8,
        ]);
        assert(seq![(48 + v % 10) as u8].subrange(1, 1) =~= Seq::<u8>::empty());
        assert((v / 100) * 10 + (v / 10) % 10 == v / 10);
        assert((v / 10) * 10 + v % 10 == v);
    }
}

/// The first `.` at or after a run of digits is right after it.
proof fn lemma_next_dot_after_digits(b: Seq<u8>, p: int, k: int)
    requires
        0 <= p,
        0 <= k,
        p + k <= b.len(),
        forall|i: int| p <= i < p + k ==> crate::ipv4::is_digit(#[trigger] b[i]),
        p + k == b.len() || b[p + k] == 46,
    ensures
        crate::ipv4::next_dot(b, p) == p + k,
    decreases k,
{
    if k > 0 {
        assert(crate::ipv4::is_digit(b[p]));
        lemma_next_dot_after_digits(b, p + 1, k - 1);
    }
}

/// The ASCII bytes of the text of an address.
pub open spec fn dotted_bytes(a: [u8; 4]) -> Seq<u8> {
    decimal_bytes(a[0]) + seq![46u8] + decimal_bytes(a[1]) + seq![46u8] + decimal_bytes(a[2])
        + seq![46u8] + decimal_bytes(a[3])
}

/// Reading one part: the digits of `v` at `p`, followed by a `.` or the end.
proof fn lemma_octet_step(b: Seq<u8>, p: int, v: u8, acc: Seq<u8>)
    requires
        0 <= p,
        acc.len() < 4,
        p + decimal_bytes(v).len() <= b.len(),
        b.subrange(p, p + decimal_bytes(v).len()) == decimal_bytes(v),
        p + decimal_bytes(v).len() == b.len() || b[p + decimal_bytes(v).len()] == 46,
    ensures
        crate::ipv4::octets_from(b, Some(p), acc) == crate::ipv4::octets_from(
            b,
            if p + decimal_bytes(v).len() < b.len() {
                Some(p + decimal_bytes(v).len() + 1)
            } else {
                None
            },
            acc.push(v),
        ),
{
    let k = decimal_bytes(v).len() as int;
    lemma_decimal_bytes_read(v);
    assert forall|i: int| p <= i < p + k implies crate::ipv4::is_digit(#[trigger] b[i]) by {
        assert(b[i] == decimal_bytes(v)[i - p]);
    }
    lemma_next_dot_after_digits(b, p, k);
}

/// Reading the bytes of the text of an address gives the address, with no
/// parts left over.
pub proof fn lemma_dotted_bytes_read(a: [u8; 4])
    ensures
        crate::ipv4::octets_from(dotted_bytes(a), Some(0), Seq::empty()) == Ok::<
            (Seq<u8>, Option<int>),
            crate::ipv4::ParseAddrError,
        >((a@, None)),
{
    let b = dotted_bytes(a);
    let l0 = decimal_bytes(a[0]).len() as int;
    let l1 = decimal_bytes(a[1]).len() as int;
    let l2 = decimal_bytes(a[2]).len() as int;
    let l3 = decimal_bytes(a[3]).len() as int;
    lemma_decimal_bytes_read(a[0]);
    lemma_decimal_bytes_read(a[1]);
    lemma_decimal_bytes_read(a[2]);
    lemma_decimal_bytes_read(a[3]);
    let p1 = l0 + 1;
    let p2 = p1 + l1 + 1;
    let p3 = p2 + l2 + 1;
    assert(b.len() == p3 + l3);
    assert(b.subrange(0, l0) =~= decimal_bytes(a[0]));
    assert(b[l0] == 46);
    assert(b.subrange(p1, p1 + l1) =~= decimal_bytes(a[1]));
    assert(b[p1 + l1] == 46);
    assert(b.subrange(p2, p2 + l2) =~= decimal_bytes(a[2]));
    assert(b[p2 + l2] == 46);
    assert(b.subrange(p3, p3 + l3) =~= decimal_bytes(a[3]));
    let s0 = Seq::<u8>::empty();
    lemma_octet_step(b, 0, a[0], s0);
    lemma_octet_step(b, p1, a[1], s0.push(a[0]));
    lemma_octet_step(b, p2, a[2], s0.push(a[0]).push(a[1]));
    lemma_octet_step(b, p3, a[3], s0.push(a[0]).push(a[1]).push(a[2]));
    assert(s0.push(a[0]).push(a[1]).push(a[2]).push(a[3]) =~= a@);
}

/// The text of an address is ASCII, with the bytes `dotted_bytes`.
proof fn lemma_dotted_text_bytes(a: [u8; 4], s: &str)
    requires
        s@ == dotted_text(a),
    ensures
        s.spec_bytes() == dotted_bytes(a),
{
    let t = dotted_text(a);
    let b = dotted_bytes(a);
    assert(t.len() == b.len());
    assert forall|i: int| 0 <= i < t.len() implies (t[i] as u8) == b[i] && (t[i] as u32)
        < 128 by {
        let l0 = decimal(a[0]).len() as int;
        let l1 = decimal(a[1]).len() as int;
        let l2 = decimal(a[2]).len() as int;
        assert(decimal(a[0]).len() == decimal_bytes(a[0]).len());
        assert(decimal(a[1]).len() == decimal_bytes(a[1]).len());
        assert(decimal(a[2]).len() == decimal_bytes(a[2]).len());
        assert(decimal(a[3]).len() == decimal_bytes(a[3]).len());
    }
    assert(vstd::string::is_ascii(s));
    vstd::string::is_ascii_spec_bytes(s);
    assert(s.spec_bytes() =~= b);
}

/// Reading the text of an address, with either reader, gives the address back.
pub proof fn lemma_text_parse_roundtrip(a: [u8; 4], s: &str)
    requires
        s@ == dotted_text(a),
    ensures
        leading_addr(s.spec_bytes()) == Ok::<[u8; 4], ParseAddrError>(a),
        crate::ipv4::dotted_addr(s.spec_bytes()) == Ok::<
            crate::ipv4::Addr,
            crate::ipv4::ParseAddrError,
        >(crate::ipv4::Addr(a)),
{
    lemma_dotted_text_bytes(a, s);
    lemma_dotted_bytes_read(a);
    assert([a@[0], a@[1], a@[2], a@[3]] =~= a);
    assert(crate::ipv4::addr_from(a@).0 =~= a);
}

} // verus!
