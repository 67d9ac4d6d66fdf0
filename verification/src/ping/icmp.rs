//! Pinging through the system's ICMP service: the sizes handed to it and
//! what its answer means.
use vstd::prelude::*;

verus! {

/// A ping request.
pub struct Request {}

/// A ping response.
pub struct Response {}

/// The IP options an echo request can be sent with.
#[derive(Debug, Clone, Copy)]
pub struct IpOptionInformation {
    pub ttl: u8,
    pub tos: u8,
    pub flags: u8,
    pub options_size: u8,
    pub options_data: u32,
}

/// How long an echo request waits for its reply, in milliseconds.
pub const ECHO_TIMEOUT_MS: u32 = 4000;

/// The bytes an echo request carries: the text `Foo Bar Baz`.
pub open spec fn echo_data_spec() -> Seq<u8> {
    seq![70u8, 111u8, 111u8, 32u8, 66u8, 97u8, 114u8, 32u8, 66u8, 97u8, 122u8]
}

/// The bytes an echo request carries.
pub fn echo_data() -> (r: Vec<u8>)
    ensures
        r@ == echo_data_spec(),
{
    let r = vec![70u8, 111u8, 111u8, 32u8, 66u8, 97u8, 114u8, 32u8, 66u8, 97u8, 122u8];
    assert(r@ =~= echo_data_spec());
    r
}

/// The request size handed to the echo call for `data_len` bytes of data:
/// the length as a 16-bit number (modulo 2^16).
pub fn request_size(data_len: usize) -> (r: u16)
    ensures
        r == data_len % 65536,
{
    (data_len % 65536) as u16
}

/// The size of the buffer that receives the reply to an echo request
/// carrying `data_len` bytes: one reply structure of `reply_size` bytes,
/// eight bytes for an ICMP error, and the data.
pub fn reply_buffer_size(reply_size: usize, data_len: usize) -> (r: usize)
    requires
        reply_size + 8 + data_len <= usize::MAX,
    ensures
        r == reply_size + 8 + data_len,
{
    reply_size + 8 + data_len
}

/// The outcome of a ping once the echo call answered `replies`, the number
/// of replies it received: an error when there were none.
pub fn ping(replies: u32) -> (r: Result<(), String>)
    ensures
        replies != 0 ==> r is Ok,
        replies == 0 ==> (r matches Err(m) && m@ == "icmp_send_echo failed"@),
{
    match replies {
        0 => Err(String::from_str("icmp_send_echo failed")),
        _ => Ok(()),
    }
}

} // verus!
