//! Writing fields to an output buffer.
use vstd::prelude::*;

verus! {

/// The big-endian bytes of a 16-bit value.
pub open spec fn be16_bytes(v: u16) -> Seq<u8> {
    seq![(v / 256) as u8, (v % 256) as u8]
}

/// The big-endian bytes of a 32-bit value.
pub open spec fn be32_bytes(v: u32) -> Seq<u8> {
    seq![(v / 16777216) as u8, ((v / 65536) % 256) as u8, ((v / 256) % 256) as u8, (v % 256) as u8]
}

pub fn write_u8(out: &mut Vec<u8>, b: u8)
    ensures
        final(out)@ == old(out)@.push(b),
{
    out.push(b);
}

pub fn write_be16(out: &mut Vec<u8>, v: u16)
    ensures
        final(out)@ == old(out)@ + be16_bytes(v),
{
    out.push((v / 256) as u8);
    out.push((v % 256) as u8);
    assert(out@ =~= old(out)@ + be16_bytes(v));
}

pub fn write_be32(out: &mut Vec<u8>, v: u32)
    ensures
        final(out)@ == old(out)@ + be32_bytes(v),
{
    out.push((v / 16777216) as u8);
    out.push(((v / 65536) % 256) as u8);
    out.push(((v / 256) % 256) as u8);
    out.push((v % 256) as u8);
    assert(out@ =~= old(out)@ + be32_bytes(v));
}

pub fn write_bytes(out: &mut Vec<u8>, s: &[u8])
    ensures
        final(out)@ == old(out)@ + s@,
{
    let ghost start = out@;
    let mut k: usize = 0;
    while k < s.len()
        invariant
            k <= s@.len(),
            out@ == start + s@.subrange(0, k as int),
        decreases s@.len() - k,
    {
        out.push(s[k]);
        k = k + 1;
        assert(out@ =~= start + s@.subrange(0, k as int));
    }
    assert(s@.subrange(0, s@.len() as int) =~= s@);
}

/// Overwrite the two bytes at `k` with `v` in little-endian order.
pub fn patch_le16(buf: &mut Vec<u8>, k: usize, v: u16)
    requires
        k + 1 < old(buf)@.len(),
    ensures
        final(buf)@ == crate::inet_sum::set_le16(old(buf)@, k as int, v),
{
    let n = buf.len();
    assert(k + 1 < n);
    buf.set(k, (v % 256) as u8);
    buf.set(k + 1, (v / 256) as u8);
}

/// Overwrite the two bytes at `k` with `v` in big-endian order.
pub fn patch_be16(buf: &mut Vec<u8>, k: usize, v: u16)
    requires
        k + 1 < old(buf)@.len(),
    ensures
        final(buf)@ == crate::inet_sum::set_be16(old(buf)@, k as int, v),
{
    let n = buf.len();
    assert(k + 1 < n);
    buf.set(k, (v / 256) as u8);
    buf.set(k + 1, (v % 256) as u8);
}

} // verus!
