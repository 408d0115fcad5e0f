//! The byte buffers of the `bytes` crate, as the decoders use them.
//!
//! Nothing in this file is proved. Each contract states what the buffer's own
//! source shows of one of its methods, over the bytes that the buffer holds.

use tokio_util::bytes::{Buf, Bytes, BytesMut};
use vstd::prelude::*;

verus! {

/// `bytes::BytesMut`, a growable buffer of bytes.
#[verifier::external_type_specification]
#[verifier::external_body]
pub struct ExBytesMut(BytesMut);

/// `bytes::Bytes`, a chunk of bytes that no longer changes.
#[verifier::external_type_specification]
#[verifier::external_body]
pub struct ExBytes(Bytes);

/// The bytes that a buffer holds, from the first to the last.
pub uninterp spec fn buffered(buffer: BytesMut) -> Seq<u8>;

/// The bytes of a chunk, from the first to the last.
pub uninterp spec fn chunk(bytes: Bytes) -> Seq<u8>;

/// `BytesMut::deref`: the buffer's bytes as a slice.
#[verifier::external_body]
pub(crate) fn buffer_bytes(buffer: &BytesMut) -> (bytes: &[u8])
    ensures
        bytes@ == buffered(*buffer),
{
    buffer
}

/// `Bytes::deref`: the chunk's bytes as a slice.
#[verifier::external_body]
pub(crate) fn chunk_bytes(bytes: &Bytes) -> (slice: &[u8])
    ensures
        slice@ == chunk(*bytes),
{
    bytes
}

/// `BytesMut::split_to` takes the first `at` bytes out of the buffer and
/// returns them; the buffer keeps the rest. It panics where `at` is past the
/// end.
pub assume_specification[ BytesMut::split_to ](buffer: &mut BytesMut, at: usize) -> (head: BytesMut)
    requires
        at <= buffered(*old(buffer)).len(),
    ensures
        buffered(head) == buffered(*old(buffer)).take(at as int),
        buffered(*final(buffer)) == buffered(*old(buffer)).skip(at as int),
;

/// `BytesMut::split_off` keeps the first `at` bytes in the buffer and returns
/// the rest. It panics where `at` is past the capacity, which is never less
/// than the length.
pub assume_specification[ BytesMut::split_off ](buffer: &mut BytesMut, at: usize) -> (tail:
    BytesMut)
    requires
        at <= buffered(*old(buffer)).len(),
    ensures
        buffered(tail) == buffered(*old(buffer)).skip(at as int),
        buffered(*final(buffer)) == buffered(*old(buffer)).take(at as int),
;

/// `BytesMut::truncate` keeps the first `len` bytes, and everything where the
/// buffer holds no more than that.
pub assume_specification[ BytesMut::truncate ](buffer: &mut BytesMut, len: usize)
    ensures
        len <= buffered(*old(buffer)).len() ==> buffered(*final(buffer)) == buffered(
            *old(buffer),
        ).take(len as int),
        len > buffered(*old(buffer)).len() ==> buffered(*final(buffer)) == buffered(*old(buffer)),
;

/// `BytesMut::unsplit` puts the bytes of `other` behind those of the buffer.
/// Where the two do not lie side by side in memory it reserves room for the
/// bytes of `other`, which panics where the new length overflows `usize`.
pub assume_specification[ BytesMut::unsplit ](buffer: &mut BytesMut, other: BytesMut)
    requires
        buffered(*old(buffer)).len() + buffered(other).len() <= usize::MAX,
    ensures
        buffered(*final(buffer)) == buffered(*old(buffer)) + buffered(other),
;

/// `BytesMut::freeze` turns the buffer into a chunk of the same bytes.
pub assume_specification[ BytesMut::freeze ](buffer: BytesMut) -> (bytes: Bytes)
    ensures
        chunk(bytes) == buffered(buffer),
;

/// `Bytes::len` is the number of bytes of the chunk.
pub assume_specification[ Bytes::len ](bytes: &Bytes) -> (len: usize)
    ensures
        len == chunk(*bytes).len(),
;

/// `Bytes::slice` is the part of a chunk between two places. It panics
/// where the first place is past the second, or the second past the end.
#[verifier::external_body]
pub(crate) fn chunk_slice(bytes: &Bytes, begin: usize, end: usize) -> (res: Bytes)
    requires
        begin <= end <= chunk(*bytes).len(),
    ensures
        chunk(res) == chunk(*bytes).subrange(begin as int, end as int),
{
    bytes.slice(begin..end)
}

/// `Bytes::clone` hands out another handle on the same bytes.
pub assume_specification[ <Bytes as Clone>::clone ](bytes: &Bytes) -> (res: Bytes)
    ensures
        chunk(res) == chunk(*bytes),
;

/// `Buf::advance` on a `BytesMut` drops the first `cnt` bytes. It panics
/// where `cnt` is past the end.
#[verifier::external_body]
pub(crate) fn buffer_advance(buffer: &mut BytesMut, cnt: usize)
    requires
        cnt <= buffered(*old(buffer)).len(),
    ensures
        buffered(*final(buffer)) == buffered(*old(buffer)).skip(cnt as int),
{
    buffer.advance(cnt)
}

} // verus!
