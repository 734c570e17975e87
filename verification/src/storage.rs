//! What this crate takes on trust about the byte buffers of the `bytes`
//! crate, which back [`crate::buffer::AlignedBuffer`].
//!
//! Nothing in this file is proved. Each item says what the named function of
//! `bytes` does to the bytes a buffer holds.

use bytes::{Bytes, BytesMut};
use vstd::arithmetic::power2::is_pow2;
use vstd::prelude::*;

verus! {

/// `bytes::BytesMut`, a growable byte buffer. The verifier sees nothing
/// inside it.
#[verifier::external_type_specification]
#[verifier::external_body]
pub struct ExBytesMut(bytes::BytesMut);

/// `bytes::Bytes`, an immutable, shareable handle to a byte buffer. The
/// verifier sees nothing inside it.
#[verifier::external_type_specification]
#[verifier::external_body]
pub struct ExBytes(bytes::Bytes);

/// The bytes that a `BytesMut` holds, from its start up to its length.
pub uninterp spec fn bytes_mut_contents(buf: BytesMut) -> Seq<u8>;

/// The number of bytes, counted from its start, that a `BytesMut` was made to
/// hold without reallocating.
pub uninterp spec fn bytes_mut_reserved(buf: BytesMut) -> nat;

/// The bytes that a `Bytes` holds.
pub uninterp spec fn bytes_contents(frozen: Bytes) -> Seq<u8>;

/// `BytesMut::with_capacity`: the new buffer is empty and can hold at least
/// `capacity` bytes without reallocating. The underlying `Vec` refuses a
/// capacity above `isize::MAX`.
pub assume_specification[ BytesMut::with_capacity ](capacity: usize) -> (buf: BytesMut)
    requires
        capacity <= isize::MAX,
    ensures
        bytes_mut_contents(buf) == Seq::<u8>::empty(),
        bytes_mut_reserved(buf) == capacity,
;

/// `BytesMut::split_off`: the buffer keeps what lies before `at`, the result
/// takes what lies from `at` on, bytes and room alike. `bytes` panics where
/// `at` is beyond the buffer's capacity.
pub assume_specification[ BytesMut::split_off ](buf: &mut BytesMut, at: usize) -> (tail: BytesMut)
    requires
        at <= bytes_mut_reserved(*old(buf)),
    ensures
        at <= bytes_mut_contents(*old(buf)).len() ==> {
            &&& bytes_mut_contents(*final(buf)) == bytes_mut_contents(*old(buf)).take(at as int)
            &&& bytes_mut_contents(tail) == bytes_mut_contents(*old(buf)).skip(at as int)
        },
        at > bytes_mut_contents(*old(buf)).len() ==> {
            &&& bytes_mut_contents(*final(buf)) == bytes_mut_contents(*old(buf))
            &&& bytes_mut_contents(tail) == Seq::<u8>::empty()
        },
        bytes_mut_reserved(*final(buf)) == at,
        bytes_mut_reserved(tail) == bytes_mut_reserved(*old(buf)) - at,
;

/// `BytesMut::clear`: the buffer holds nothing afterwards and keeps its
/// room.
pub assume_specification[ BytesMut::clear ](buf: &mut BytesMut)
    ensures
        bytes_mut_contents(*final(buf)) == Seq::<u8>::empty(),
        bytes_mut_reserved(*final(buf)) == bytes_mut_reserved(*old(buf)),
;

/// `BytesMut::extend_from_slice`: the given bytes are appended. Where they
/// fit the room that the buffer has, it is not reallocated and keeps that
/// room. `bytes` panics where the new length overflows `usize`.
pub assume_specification[ BytesMut::extend_from_slice ](buf: &mut BytesMut, extend: &[u8])
    requires
        bytes_mut_contents(*old(buf)).len() + extend@.len() <= usize::MAX,
    ensures
        bytes_mut_contents(*final(buf)) == bytes_mut_contents(*old(buf)) + extend@,
        bytes_mut_contents(*old(buf)).len() + extend@.len() <= bytes_mut_reserved(*old(buf))
            ==> bytes_mut_reserved(*final(buf)) == bytes_mut_reserved(*old(buf)),
;

/// `BytesMut::len`: the number of bytes held.
pub assume_specification[ BytesMut::len ](buf: &BytesMut) -> (len: usize)
    ensures
        len == bytes_mut_contents(*buf).len(),
;

/// `BytesMut::freeze`: the immutable handle holds the same bytes.
pub assume_specification[ BytesMut::freeze ](buf: BytesMut) -> (frozen: Bytes)
    ensures
        bytes_contents(frozen) == bytes_mut_contents(buf),
;

/// `Bytes::try_into_mut`: where the handle is the only one to its buffer, a
/// mutable buffer with the same bytes; else the handle itself. Which of the
/// two comes depends on who else holds the buffer.
pub assume_specification[ Bytes::try_into_mut ](frozen: Bytes) -> (thawed: Result<BytesMut, Bytes>)
    ensures
        match thawed {
            Ok(buf) => bytes_mut_contents(buf) == bytes_contents(frozen),
            Err(still) => bytes_contents(still) == bytes_contents(frozen),
        },
;

/// `Extend::<u8>::extend` of `BytesMut`, fed `count` copies of `value`: they
/// are appended. Where they fit the room that the buffer has, it is not
/// reallocated and keeps that room. `bytes` panics where the new length
/// overflows `usize`.
#[verifier::external_body]
pub(crate) fn extend_repeated(buf: &mut BytesMut, value: u8, count: usize)
    requires
        bytes_mut_contents(*old(buf)).len() + count <= usize::MAX,
    ensures
        bytes_mut_contents(*final(buf)) == bytes_mut_contents(*old(buf)) + Seq::new(
            count as nat,
            |i: int| value,
        ),
        bytes_mut_contents(*old(buf)).len() + count <= bytes_mut_reserved(*old(buf))
            ==> bytes_mut_reserved(*final(buf)) == bytes_mut_reserved(*old(buf)),
{
    buf.extend(std::iter::repeat(value).take(count));
}

/// `Deref` of `BytesMut`: the held bytes as a slice.
#[verifier::external_body]
pub(crate) fn held_bytes(buf: &BytesMut) -> (bytes: &[u8])
    ensures
        bytes@ == bytes_mut_contents(*buf),
{
    &buf[..]
}

/// `align_offset` of the buffer's start address: how many bytes lie between
/// the start and the next address that is a multiple of `align`, or
/// `usize::MAX`. The address is the allocator's choice, so nothing is said of
/// the result. std panics where `align` is no power of two.
#[verifier::external_body]
pub(crate) fn start_align_offset(buf: &BytesMut, align: usize) -> (offset: usize)
    requires
        is_pow2(align as int),
{
    buf.as_ptr().align_offset(align)
}

} // verus!
