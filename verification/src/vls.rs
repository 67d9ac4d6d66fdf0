//! Variable-length structures filled by Win32 calls that are made twice:
//! once with no buffer to learn the size, then with a buffer of that size.
use vstd::prelude::*;
use core::marker::PhantomData;
use crate::error::Error;

verus! {

/// The status of the size query when the buffer was too small (none given).
pub const ERROR_INSUFFICIENT_MEMORY: u32 = 122;

/// The other status of the size query when the buffer was too small.
pub const ERROR_BUFFER_OVERFLOW: u32 = 111;

/// The bytes of a variable-length structure of type `T` that a Win32 call
/// filled.
pub struct VLS<T> {
    v: Vec<u8>,
    _phantom: PhantomData<T>,
}

impl<T> View for VLS<T> {
    type V = Seq<u8>;

    closed spec fn view(&self) -> Seq<u8> {
        self.v@
    }
}

impl<T> VLS<T> {
    /// What to do after the size query answered `status` and `size`: a
    /// zeroed buffer of `size` bytes when the status says that the (absent)
    /// buffer was too small, otherwise the Win32 error.
    pub fn buffer_for(status: u32, size: u32) -> (r: Result<Vec<u8>, Error>)
        ensures
            (status == ERROR_INSUFFICIENT_MEMORY || status == ERROR_BUFFER_OVERFLOW) ==> (r matches Ok(
                buf,
            ) && buf@ == Seq::new(size as nat, |k: int| 0u8)),
            !(status == ERROR_INSUFFICIENT_MEMORY || status == ERROR_BUFFER_OVERFLOW) ==> r
                == Err::<Vec<u8>, Error>(Error::Win32(status)),
    {
        if status != ERROR_INSUFFICIENT_MEMORY && status != ERROR_BUFFER_OVERFLOW {
            return Err(Error::Win32(status));
        }
        let mut v: Vec<u8> = Vec::new();
        let mut k: u32 = 0;
        while k < size
            invariant
                k <= size,
                v@ == Seq::new(k as nat, |j: int| 0u8),
            decreases size - k,
        {
            v.push(0);
            k = k + 1;
            assert(v@ =~= Seq::new(k as nat, |j: int| 0u8));
        }
        Ok(v)
    }

    /// The structure in `buffer` once the filling call answered `status`:
    /// the structure when the status is 0, otherwise the Win32 error.
    pub fn new(buffer: Vec<u8>, status: u32) -> (r: Result<Self, Error>)
        ensures
            status == 0 ==> (r matches Ok(x) && x@ == buffer@),
            status != 0 ==> (r matches Err(e) && e == Error::Win32(status)),
    {
        if status != 0 {
            return Err(Error::Win32(status));
        }
        Ok(VLS { v: buffer, _phantom: PhantomData })
    }

    /// The bytes of the structure.
    pub fn as_bytes(&self) -> (r: &[u8])
        ensures
            r@ == self@,
    {
        self.v.as_slice()
    }
}

} // verus!
