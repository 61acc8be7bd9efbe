//! The growable byte buffer of the `bytes` crate, as the incremental reader
//! uses it. Verus sees a `BytesMut` only through the contract of each call.
use bytes::BytesMut;
use vstd::prelude::*;

verus! {

/// `bytes::BytesMut`, opaque to Verus.
#[verifier::external_type_specification]
#[verifier::external_body]
pub struct ExBytesMut(BytesMut);

/// The bytes that a `BytesMut` holds, in order.
pub uninterp spec fn bytes_mut_contents(buffer: BytesMut) -> Seq<u8>;

/// `BytesMut::new`: an empty buffer (it allocates nothing).
#[verifier::external_body]
pub(crate) fn bytes_mut_new() -> (buffer: BytesMut)
    ensures
        bytes_mut_contents(buffer) == Seq::<u8>::empty(),
{
    BytesMut::new()
}

/// `BytesMut::with_capacity`: an empty buffer with room for at least
/// `capacity` bytes. What it allocates beyond that is left unsaid; the
/// allocation panics beyond `isize::MAX` bytes, hence the `requires`.
#[verifier::external_body]
pub(crate) fn bytes_mut_with_capacity(capacity: usize) -> (buffer: BytesMut)
    requires
        capacity <= isize::MAX,
    ensures
        bytes_mut_contents(buffer) == Seq::<u8>::empty(),
{
    BytesMut::with_capacity(capacity)
}

/// `BytesMut::len`: the number of bytes held.
#[verifier::external_body]
pub(crate) fn bytes_mut_len(buffer: &BytesMut) -> (len: usize)
    ensures
        len == bytes_mut_contents(*buffer).len(),
{
    buffer.len()
}

/// `BytesMut::extend_from_slice`: appends `extra` to the buffer. Growing past
/// `isize::MAX` bytes panics in the allocation, hence the `requires`.
#[verifier::external_body]
pub(crate) fn bytes_mut_extend_from_slice(buffer: &mut BytesMut, extra: &[u8])
    requires
        bytes_mut_contents(*old(buffer)).len() + extra@.len() <= isize::MAX,
    ensures
        bytes_mut_contents(*final(buffer)) == bytes_mut_contents(*old(buffer)) + extra@,
{
    buffer.extend_from_slice(extra)
}

/// `<BytesMut as AsRef<[u8]>>::as_ref`: the held bytes as a slice.
#[verifier::external_body]
pub(crate) fn bytes_mut_as_slice(buffer: &BytesMut) -> (bytes: &[u8])
    ensures
        bytes@ == bytes_mut_contents(*buffer),
{
    buffer.as_ref()
}

} // verus!
