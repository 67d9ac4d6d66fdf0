//! An owned run of bytes carried as a packet's payload.
use vstd::prelude::*;
use crate::serialize::write_bytes;

verus! {

/// An owned run of bytes.
#[derive(Debug, Clone)]
pub struct Blob(pub Vec<u8>);

impl View for Blob {
    type V = Seq<u8>;

    open spec fn view(&self) -> Seq<u8> {
        self.0@
    }
}

impl Blob {
    /// A copy of `s`.
    pub fn new(s: &[u8]) -> (r: Self)
        ensures
            r@ == s@,
    {
        let mut v = Vec::new();
        write_bytes(&mut v, s);
        Blob(v)
    }

    pub fn serialize(&self, out: &mut Vec<u8>)
        ensures
            final(out)@ == old(out)@ + self@,
    {
        write_bytes(out, self.0.as_slice());
    }
}

} // verus!
