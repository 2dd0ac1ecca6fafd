//! The output buffer of the encoder: `bytes::BytesMut`, with what the library
//! relies on of it.

use bytes::{BufMut, BytesMut};
use vstd::prelude::*;

verus! {

/// `bytes::BytesMut`: a growable buffer of bytes.
#[verifier::external_type_specification]
#[verifier::external_body]
pub struct ExBytesMut(BytesMut);

/// The bytes that a buffer holds, in the order in which they were written.
pub uninterp spec fn buf_bytes(buf: BytesMut) -> Seq<u8>;

/// The number of bytes that a buffer was made to hold: the capacity that it
/// was asked for when it was made.
pub uninterp spec fn buf_limit(buf: BytesMut) -> nat;

/// `BytesMut::with_capacity` makes its buffer from `Vec::with_capacity`, which
/// panics on a capacity above `isize::MAX`. Trusted: the new buffer is empty,
/// and holds `capacity` bytes without growing.
pub assume_specification[ BytesMut::with_capacity ](capacity: usize) -> (buf: BytesMut)
    requires
        capacity <= isize::MAX,
    ensures
        buf_bytes(buf) == Seq::<u8>::empty(),
        buf_limit(buf) == capacity,
;

/// Calls `BufMut::put_slice` on a buffer that has room for `src`, so that the
/// buffer does not grow. Trusted: the bytes of `src` are appended, and the
/// limit stays.
#[verifier::external_body]
pub(crate) fn put_slice(buf: &mut BytesMut, src: &[u8])
    requires
        buf_bytes(*old(buf)).len() + src@.len() <= buf_limit(*old(buf)),
    ensures
        buf_bytes(*final(buf)) == buf_bytes(*old(buf)) + src@,
        buf_limit(*final(buf)) == buf_limit(*old(buf)),
{
    buf.put_slice(src)
}

/// Calls `BufMut::put_u8` on a buffer that has room for one more byte.
/// Trusted: the byte is appended, and the limit stays.
#[verifier::external_body]
pub(crate) fn put_u8(buf: &mut BytesMut, byte: u8)
    requires
        buf_bytes(*old(buf)).len() + 1 <= buf_limit(*old(buf)),
    ensures
        buf_bytes(*final(buf)) == buf_bytes(*old(buf)).push(byte),
        buf_limit(*final(buf)) == buf_limit(*old(buf)),
{
    buf.put_u8(byte)
}

/// Copies the buffer's bytes out with `to_vec`, which the buffer has as a
/// slice of bytes. Trusted: the vector holds the buffer's bytes.
#[verifier::external_body]
pub(crate) fn to_vec(buf: &BytesMut) -> (bytes: Vec<u8>)
    ensures
        bytes@ == buf_bytes(*buf),
{
    buf.to_vec()
}

} // verus!
