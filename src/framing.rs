//! Length-prefixed framing of inbound messages: each message is a big-endian
//! `u32` byte count followed by that many bytes.

use vstd::prelude::*;
use byteorder::ByteOrder;

verus! {

/// Number of bytes in the length prefix of a message.
pub const HEADER_LEN: usize = 4;

/// The big-endian value of four bytes.
pub open spec fn be_u32(b: Seq<u8>) -> int {
    b[0] as int * 0x1000000 + b[1] as int * 0x10000 + b[2] as int * 0x100 + b[3] as int
}

/// Relies on `byteorder::BigEndian::read_u32`: the first four bytes read as a
/// big-endian integer (it panics on fewer than four).
#[verifier::external_body]
fn read_be_u32(buf: &[u8]) -> (r: u32)
    requires
        buf@.len() >= 4,
    ensures
        r as int == be_u32(buf@),
{
    byteorder::BigEndian::read_u32(buf)
}

/// The length of the message body announced by a header.
pub fn message_len(header: &[u8]) -> (r: u32)
    requires
        header@.len() >= HEADER_LEN,
    ensures
        r as int == be_u32(header@),
{
    read_be_u32(header)
}

/// Where the first complete message of `buf` lies: `Some((start, end))` when
/// the header and the whole body it announces are present, `None` while more
/// bytes are needed.
pub fn split_message(buf: &[u8]) -> (r: Option<(usize, usize)>)
    ensures
        buf@.len() < HEADER_LEN ==> r is None,
        buf@.len() >= HEADER_LEN ==> (match r {
            Some((start, end)) => start == HEADER_LEN && end as int == HEADER_LEN + be_u32(buf@)
                && end <= buf@.len(),
            None => HEADER_LEN + be_u32(buf@) > buf@.len(),
        }),
{
    if buf.len() < HEADER_LEN {
        return None;
    }
    let len = message_len(buf);
    if (len as usize) <= buf.len() - HEADER_LEN {
        Some((HEADER_LEN, HEADER_LEN + len as usize))
    } else {
        None
    }
}

} // verus!
