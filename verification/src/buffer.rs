//! The byte buffers of the `bytes` crate, as far as the decoders and encoders
//! use them. Nothing in this file is proved: each contract restates what the
//! `bytes` crate documents for the function it names.

use crate::wire::{be_bytes, be_value};
use bytes::{Buf, BufMut, Bytes, BytesMut};
use vstd::prelude::*;

verus! {

#[verifier::external_type_specification]
#[verifier::external_body]
pub struct ExBytes(bytes::Bytes);

#[verifier::external_type_specification]
#[verifier::external_body]
pub struct ExBytesMut(bytes::BytesMut);

/// The bytes that a `Bytes` still holds, from its read position to its end.
pub uninterp spec fn unread(buf: Bytes) -> Seq<u8>;

/// The bytes that have been written into a `BytesMut`, in order.
pub uninterp spec fn written(buf: BytesMut) -> Seq<u8>;

/// `Bytes::copy_from_slice`: a new buffer that holds a copy of `data`.
#[verifier::external_body]
pub(crate) fn copy_from_slice(data: &[u8]) -> (buf: Bytes)
    ensures
        unread(buf) == data@,
{
    Bytes::copy_from_slice(data)
}

/// `Buf::remaining` on `Bytes`: the number of bytes between the read position
/// and the end.
#[verifier::external_body]
pub(crate) fn remaining(buf: &Bytes) -> (n: usize)
    ensures
        n == unread(*buf).len(),
{
    buf.remaining()
}

/// `Buf::get_u8` on `Bytes`: returns the next byte and advances by one. The
/// call panics on an empty buffer, which `requires` leaves out.
#[verifier::external_body]
pub(crate) fn get_u8(buf: &mut Bytes) -> (value: u8)
    requires
        unread(*old(buf)).len() >= 1,
    ensures
        value == unread(*old(buf))[0],
        unread(*final(buf)) == unread(*old(buf)).skip(1),
{
    buf.get_u8()
}

/// `Buf::get_u16` on `Bytes`: reads the next two bytes as a big-endian number
/// and advances by two. The call panics on fewer than two bytes.
#[verifier::external_body]
pub(crate) fn get_u16(buf: &mut Bytes) -> (value: u16)
    requires
        unread(*old(buf)).len() >= 2,
    ensures
        value == be_value(unread(*old(buf)).take(2)),
        unread(*final(buf)) == unread(*old(buf)).skip(2),
{
    buf.get_u16()
}

/// `Buf::get_u32` on `Bytes`: reads the next four bytes as a big-endian number
/// and advances by four. The call panics on fewer than four bytes.
#[verifier::external_body]
pub(crate) fn get_u32(buf: &mut Bytes) -> (value: u32)
    requires
        unread(*old(buf)).len() >= 4,
    ensures
        value == be_value(unread(*old(buf)).take(4)),
        unread(*final(buf)) == unread(*old(buf)).skip(4),
{
    buf.get_u32()
}

/// `Buf::get_u128` on `Bytes`: reads the next sixteen bytes as a big-endian
/// number and advances by sixteen. The call panics on fewer than sixteen bytes.
#[verifier::external_body]
pub(crate) fn get_u128(buf: &mut Bytes) -> (value: u128)
    requires
        unread(*old(buf)).len() >= 16,
    ensures
        value == be_value(unread(*old(buf)).take(16)),
        unread(*final(buf)) == unread(*old(buf)).skip(16),
{
    buf.get_u128()
}

/// `BytesMut::with_capacity`: a new buffer with nothing written into it.
#[verifier::external_body]
pub(crate) fn with_capacity(capacity: usize) -> (buf: BytesMut)
    ensures
        written(buf) == Seq::<u8>::empty(),
{
    BytesMut::with_capacity(capacity)
}

/// `BufMut::put_u8` on `BytesMut`: appends one byte. The buffer grows as
/// needed; growing panics only when the new length overflows `usize`.
#[verifier::external_body]
pub(crate) fn put_u8(buf: &mut BytesMut, value: u8)
    requires
        written(*old(buf)).len() + 1 <= usize::MAX,
    ensures
        written(*final(buf)) == written(*old(buf)).push(value),
{
    buf.put_u8(value)
}

/// `BufMut::put_u16` on `BytesMut`: appends the two bytes of `value` in
/// big-endian order.
#[verifier::external_body]
pub(crate) fn put_u16(buf: &mut BytesMut, value: u16)
    requires
        written(*old(buf)).len() + 2 <= usize::MAX,
    ensures
        written(*final(buf)) == written(*old(buf)) + be_bytes(value as nat, 2),
{
    buf.put_u16(value)
}

/// `BufMut::put_u32` on `BytesMut`: appends the four bytes of `value` in
/// big-endian order.
#[verifier::external_body]
pub(crate) fn put_u32(buf: &mut BytesMut, value: u32)
    requires
        written(*old(buf)).len() + 4 <= usize::MAX,
    ensures
        written(*final(buf)) == written(*old(buf)) + be_bytes(value as nat, 4),
{
    buf.put_u32(value)
}

/// `BytesMut::freeze`: the same bytes, as an immutable buffer whose read
/// position is at its start.
#[verifier::external_body]
pub(crate) fn freeze(buf: BytesMut) -> (frozen: Bytes)
    ensures
        unread(frozen) == written(buf),
{
    buf.freeze()
}

} // verus!
