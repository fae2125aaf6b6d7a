//! The byte buffers of the `bytes` crate, as far as the tunnel code uses them.
//!
//! Verus does not look inside a `BytesMut`. What a buffer holds is named by
//! [`buffered`], and every function below states, without proof, what the
//! method it calls does to that content.

use bytes::{Buf, BufMut, BytesMut};
use vstd::prelude::*;

verus! {

/// `bytes::BytesMut`, known to Verus by name only.
#[verifier::external_type_specification]
#[verifier::external_body]
pub struct ExBytesMut(bytes::BytesMut);

/// The bytes that a buffer holds, first to last.
pub uninterp spec fn buffered(buf: BytesMut) -> Seq<u8>;

/// `BytesMut::new`: a buffer that holds nothing.
#[verifier::external_body]
pub(crate) fn buf_new() -> (buf: BytesMut)
    ensures
        buffered(buf) == Seq::<u8>::empty(),
{
    BytesMut::new()
}

/// `BytesMut::with_capacity`: a buffer that holds nothing, whatever room it
/// was given. The method panics where the room asked for is more than an
/// allocation can have, which the precondition rules out.
#[verifier::external_body]
pub(crate) fn buf_with_capacity(capacity: usize) -> (buf: BytesMut)
    requires
        capacity <= 0x7fff_ffff,
    ensures
        buffered(buf) == Seq::<u8>::empty(),
{
    BytesMut::with_capacity(capacity)
}

/// `AsRef<[u8]>::as_ref` on a `BytesMut`: the held bytes as a slice.
#[verifier::external_body]
pub(crate) fn buf_as_slice(buf: &BytesMut) -> (s: &[u8])
    ensures
        s@ == buffered(*buf),
{
    buf.as_ref()
}

/// `BufMut::put_u8` on a `BytesMut`: appends one byte. The buffer grows as
/// needed. The method panics only where the new length overflows `usize`,
/// which no buffer that fits in memory comes near.
#[verifier::external_body]
pub(crate) fn buf_put_u8(buf: &mut BytesMut, byte: u8)
    ensures
        buffered(*final(buf)) == buffered(*old(buf)).push(byte),
{
    buf.put_u8(byte)
}

/// `BufMut::put_u16` on a `BytesMut`: appends the two bytes of `value`, high
/// byte first.
#[verifier::external_body]
pub(crate) fn buf_put_u16(buf: &mut BytesMut, value: u16)
    ensures
        buffered(*final(buf)) == buffered(*old(buf)).push((value / 256) as u8).push(
            (value % 256) as u8,
        ),
{
    buf.put_u16(value)
}

/// `BytesMut::extend_from_slice`: appends the bytes of `data`, in order. The
/// buffer grows as needed. The method panics only where the new length
/// overflows `usize`, which a buffer and a slice that both fit in memory
/// cannot bring about.
#[verifier::external_body]
pub(crate) fn buf_extend_from_slice(buf: &mut BytesMut, data: &[u8])
    ensures
        buffered(*final(buf)) == buffered(*old(buf)) + data@,
{
    buf.extend_from_slice(data)
}

/// `Buf::advance` on a `BytesMut`: drops the first `count` bytes. The method
/// panics when fewer are held, which the precondition rules out.
#[verifier::external_body]
pub(crate) fn buf_advance(buf: &mut BytesMut, count: usize)
    requires
        count <= buffered(*old(buf)).len(),
    ensures
        buffered(*final(buf)) == buffered(*old(buf)).skip(count as int),
{
    buf.advance(count)
}

/// `Buf::get_u8` on a `BytesMut`: takes the first byte off the buffer. The
/// method panics on an empty buffer, which the precondition rules out.
#[verifier::external_body]
pub(crate) fn buf_get_u8(buf: &mut BytesMut) -> (byte: u8)
    requires
        buffered(*old(buf)).len() >= 1,
    ensures
        byte == buffered(*old(buf))[0],
        buffered(*final(buf)) == buffered(*old(buf)).skip(1),
{
    buf.get_u8()
}

/// `Buf::get_u16` on a `BytesMut`: takes the first two bytes off the buffer
/// and reads them as one number, high byte first. The method panics when
/// fewer than two bytes are held, which the precondition rules out.
#[verifier::external_body]
pub(crate) fn buf_get_u16(buf: &mut BytesMut) -> (value: u16)
    requires
        buffered(*old(buf)).len() >= 2,
    ensures
        value == buffered(*old(buf))[0] * 256 + buffered(*old(buf))[1],
        buffered(*final(buf)) == buffered(*old(buf)).skip(2),
{
    buf.get_u16()
}

/// `BytesMut::split`: hands out everything held and leaves the buffer empty.
#[verifier::external_body]
pub(crate) fn buf_split(buf: &mut BytesMut) -> (taken: BytesMut)
    ensures
        buffered(taken) == buffered(*old(buf)),
        buffered(*final(buf)) == Seq::<u8>::empty(),
{
    buf.split()
}

/// `BytesMut::clear`: empties the buffer.
#[verifier::external_body]
pub(crate) fn buf_clear(buf: &mut BytesMut)
    ensures
        buffered(*final(buf)) == Seq::<u8>::empty(),
{
    buf.clear()
}

} // verus!
