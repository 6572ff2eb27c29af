//! The byte buffer that frames are written into and read from.
//!
//! Frames travel in a `bytes::BytesMut`. Verus does not look inside one, so
//! what it holds is given a name here, and the few operations the protocol
//! needs are stated over that name. None of these statements is proved: each
//! is taken from the source of the `bytes` crate.

use bytes::BufMut;
use bytes::BytesMut;
use vstd::prelude::*;

verus! {

#[verifier::external_type_specification]
#[verifier::external_body]
pub struct ExBytesMut(bytes::BytesMut);

/// The bytes a buffer holds, first to last.
pub uninterp spec fn buffer_bytes(b: BytesMut) -> Seq<u8>;

/// `BytesMut::with_capacity`: a buffer that holds nothing. The capacity is
/// room set aside, not content; a request beyond `isize::MAX` would panic.
#[verifier::external_body]
pub(crate) fn buffer_with_capacity(capacity: usize) -> (b: BytesMut)
    requires
        capacity <= isize::MAX,
    ensures
        buffer_bytes(b) == Seq::<u8>::empty(),
{
    BytesMut::with_capacity(capacity)
}

/// `BufMut::put_u8` on a `BytesMut`: the byte is appended after what the
/// buffer held, and the buffer grows when it is full.
#[verifier::external_body]
pub(crate) fn buffer_put_u8(b: &mut BytesMut, n: u8)
    ensures
        buffer_bytes(*final(b)) == buffer_bytes(*old(b)).push(n),
{
    b.put_u8(n);
}

/// `BytesMut::clear`: nothing is left in the buffer.
#[verifier::external_body]
pub(crate) fn buffer_clear(b: &mut BytesMut)
    ensures
        buffer_bytes(*final(b)) == Seq::<u8>::empty(),
{
    b.clear();
}

/// `BytesMut`'s `AsRef<[u8]>`: the buffer's content as a slice.
#[verifier::external_body]
pub(crate) fn buffer_as_slice(b: &BytesMut) -> (s: &[u8])
    ensures
        s@ == buffer_bytes(*b),
{
    b.as_ref()
}

} // verus!
