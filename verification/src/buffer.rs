//! The byte buffer that frames are read from and written to.

use bytes::{Buf, BufMut, BytesMut};
use vstd::prelude::*;

verus! {

#[verifier::external_type_specification]
#[verifier::external_body]
pub struct ExBytesMut(BytesMut);

/// The bytes that a buffer holds, first to last.
pub uninterp spec fn contents(buffer: BytesMut) -> Seq<u8>;

/// The most bytes that a buffer is asked to hold: an eighth of the address space.
pub open spec fn buffer_limit() -> nat {
    usize::MAX as nat / 8
}

/// `BytesMut::len` is the number of bytes held.
pub assume_specification[ BytesMut::len ](buffer: &BytesMut) -> (res: usize)
    ensures
        res == contents(*buffer).len(),
;

/// `BytesMut::is_empty` tells whether no byte is held.
pub assume_specification[ BytesMut::is_empty ](buffer: &BytesMut) -> (res: bool)
    ensures
        res == (contents(*buffer).len() == 0),
;

/// `BytesMut::split_to` takes the first `at` bytes out of the buffer and returns them. It
/// panics on an `at` past the end.
pub assume_specification[ BytesMut::split_to ](buffer: &mut BytesMut, at: usize) -> (res: BytesMut)
    requires
        at <= contents(*old(buffer)).len(),
    ensures
        contents(res) == contents(*old(buffer)).take(at as int),
        contents(*final(buffer)) == contents(*old(buffer)).skip(at as int),
;

/// `Buf::advance` on a `BytesMut` drops its first `count` bytes. It panics on a `count` past the
/// end.
#[verifier::external_body]
pub(crate) fn advance(buffer: &mut BytesMut, count: usize)
    requires
        count <= contents(*old(buffer)).len(),
    ensures
        contents(*final(buffer)) == contents(*old(buffer)).skip(count as int),
{
    buffer.advance(count)
}

/// Indexing a `BytesMut` (a slice, through `Deref`) yields the byte at that place. It panics on
/// an index past the end.
#[verifier::external_body]
pub(crate) fn byte_at(buffer: &BytesMut, index: usize) -> (res: u8)
    requires
        index < contents(*buffer).len(),
    ensures
        res == contents(*buffer)[index as int],
{
    buffer[index]
}

/// `BufMut::put_u8` on a `BytesMut` appends one byte and grows the buffer where it is full. The
/// growth panics where the allocation would pass half of the address space. It allocates only where
/// the old allocation is below twice `buffer_limit`, and then at most doubles it or takes what is
/// needed, so that a buffer within `buffer_limit` does not get there.
#[verifier::external_body]
pub(crate) fn put_byte(buffer: &mut BytesMut, byte: u8)
    requires
        contents(*old(buffer)).len() + 1 <= buffer_limit(),
    ensures
        contents(*final(buffer)) == contents(*old(buffer)).push(byte),
{
    buffer.put_u8(byte)
}

/// `BufMut::put_slice` on a `BytesMut` appends all of `bytes`, and grows the buffer as
/// `put_byte` says.
#[verifier::external_body]
pub(crate) fn put_bytes(buffer: &mut BytesMut, bytes: &[u8])
    requires
        contents(*old(buffer)).len() + bytes@.len() <= buffer_limit(),
    ensures
        contents(*final(buffer)) == contents(*old(buffer)) + bytes@,
{
    buffer.put_slice(bytes)
}

} // verus!
