//! Parser plumbing: the input type, the error that a failed parse returns,
//! and the relation between an executable parse result and its
//! mathematical outcome.
use vstd::prelude::*;

verus! {

/// What a parser reads from.
pub type Input<'a> = &'a [u8];

/// Why a parser stopped. Every parser of this crate reads fixed-size
/// fields, so the only way it fails is by running out of input.
#[derive(Debug, Clone, Copy, PartialEq, Eq, Structural)]
pub enum ErrorKind {
    Eof,
}

/// A parse error: the input that was left where each failure happened,
/// innermost first, with its kind.
#[derive(Debug)]
pub struct Error<I> {
    pub errors: Vec<(I, ErrorKind)>,
}

impl<I> Error<I> {
    /// An error with a single failure.
    pub fn from_error_kind(input: I, kind: ErrorKind) -> (e: Self)
        ensures
            e.errors@ == seq![(input, kind)],
    {
        let mut errors = Vec::new();
        errors.push((input, kind));
        Error { errors }
    }

    /// `other` with one more failure recorded after the ones it holds.
    pub fn append(input: I, kind: ErrorKind, other: Self) -> (e: Self)
        ensures
            e.errors@ == other.errors@.push((input, kind)),
    {
        let mut other = other;
        other.errors.push((input, kind));
        other
    }
}

/// What a parser returns: the input left over and the value read, or the error.
pub type PResult<'a, T> = Result<(Input<'a>, T), Error<Input<'a>>>;

/// The big-endian 16-bit value at `k`.
pub open spec fn be16(s: Seq<u8>, k: int) -> u16 {
    (s[k] as int * 256 + s[k + 1] as int) as u16
}

/// The big-endian 32-bit value at `k`.
pub open spec fn be32(s: Seq<u8>, k: int) -> u32 {
    (s[k] as int * 16777216 + s[k + 1] as int * 65536 + s[k + 2] as int * 256
        + s[k + 3] as int) as u32
}

/// `r` is the executable form of the outcome `o` of parsing `i`, where `o`
/// is `Ok((n, v))` when the parser reads the value `v` from the first `n`
/// bytes, and `Err(k)` when it runs out of input in a field that starts at
/// byte `k`.
pub open spec fn outcome_of<'a, T: View>(
    i: Input<'a>,
    r: PResult<'a, T>,
    o: Result<(int, T::V), int>,
) -> bool {
    match r {
        Ok((rest, v)) => match o {
            Ok((n, w)) => 0 <= n <= i@.len() && rest@ == i@.subrange(n, i@.len() as int) && v@
                == w,
            Err(_) => false,
        },
        Err(e) => match o {
            Err(k) => {
                &&& 0 <= k <= i@.len()
                &&& e.errors@.len() == 1
                &&& e.errors@[0].0@ == i@.subrange(k, i@.len() as int)
                &&& e.errors@[0].1 == ErrorKind::Eof
            },
            Ok(_) => false,
        },
    }
}

/// The input after its first `k` bytes.
pub fn rest_after<'a>(i: Input<'a>, k: usize) -> (r: Input<'a>)
    requires
        k <= i@.len(),
    ensures
        r@ == i@.subrange(k as int, i@.len() as int),
{
    vstd::slice::slice_subrange(i, k, i.len())
}

/// The result of running out of input in a field that starts at byte `k`.
pub fn fail_at<'a, T: View>(i: Input<'a>, k: usize) -> (r: PResult<'a, T>)
    requires
        k <= i@.len(),
    ensures
        outcome_of(i, r, Err(k as int)),
{
    Err(Error::from_error_kind(rest_after(i, k), ErrorKind::Eof))
}

/// The big-endian 16-bit value at `k`.
pub fn read_be16(i: &[u8], k: usize) -> (r: u16)
    requires
        k + 1 < i@.len(),
    ensures
        r == be16(i@, k as int),
{
    (i[k] as u16) * 256 + (i[k + 1] as u16)
}

/// The big-endian 32-bit value at `k`.
pub fn read_be32(i: &[u8], k: usize) -> (r: u32)
    requires
        k + 3 < i@.len(),
    ensures
        r == be32(i@, k as int),
{
    (i[k] as u32) * 16777216 + (i[k + 1] as u32) * 65536 + (i[k + 2] as u32) * 256 + (i[k
        + 3] as u32)
}

} // verus!

verus! {

/// Whether `a` and `b` hold the same bytes.
pub fn bytes_equal(a: &[u8], b: &[u8]) -> (r: bool)
    ensures
        r == (a@ == b@),
{
    if a.len() != b.len() {
        return false;
    }
    let mut k: usize = 0;
    while k < a.len()
        invariant
            a@.len() == b@.len(),
            k <= a@.len(),
            forall|j: int| 0 <= j < k ==> a@[j] == b@[j],
        decreases a@.len() - k,
    {
        if a[k] != b[k] {
            return false;
        }
        k = k + 1;
    }
    assert(a@ =~= b@);
    true
}

} // verus!

verus! {

/// The input of a parser that reads bits: the bytes, and the position of
/// the next bit within the first of them.
pub type BitInput<'a> = (&'a [u8], usize);

impl<'a> Error<BitInput<'a>> {
    /// The errors of a bit reader as errors of a byte reader: each points
    /// at the byte that holds the bit where it happened.
    pub fn convert(self) -> (r: Error<Input<'a>>)
        requires
            forall|k: int|
                0 <= k < self.errors@.len() ==> (#[trigger] self.errors@[k]).0.1 / 8
                    <= self.errors@[k].0.0@.len(),
        ensures
            r.errors@.len() == self.errors@.len(),
            forall|k: int|
                0 <= k < self.errors@.len() ==> {
                    &&& (#[trigger] r.errors@[k]).0@ == self.errors@[k].0.0@.subrange(
                        (self.errors@[k].0.1 / 8) as int,
                        self.errors@[k].0.0@.len() as int,
                    )
                    &&& r.errors@[k].1 == self.errors@[k].1
                },
    {
        let mut errors: Vec<(Input<'a>, ErrorKind)> = Vec::new();
        let mut k: usize = 0;
        while k < self.errors.len()
            invariant
                k <= self.errors@.len(),
                errors@.len() == k,
                forall|j: int|
                    0 <= j < self.errors@.len() ==> (#[trigger] self.errors@[j]).0.1 / 8
                        <= self.errors@[j].0.0@.len(),
                forall|j: int|
                    0 <= j < k ==> {
                        &&& (#[trigger] errors@[j]).0@ == self.errors@[j].0.0@.subrange(
                            (self.errors@[j].0.1 / 8) as int,
                            self.errors@[j].0.0@.len() as int,
                        )
                        &&& errors@[j].1 == self.errors@[j].1
                    },
            decreases self.errors@.len() - k,
        {
            let ((rest, offset), kind) = self.errors[k];
            errors.push((rest_after(rest, offset / 8), kind));
            k = k + 1;
        }
        Error { errors }
    }
}

} // verus!
