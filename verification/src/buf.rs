//! The byte buffer that the codecs read from and write to.
//!
//! The buffer is `bytes::BytesMut`.  Verus does not look inside it, so its
//! contents are named by [`buf_bytes`] and every operation the codecs use is
//! a small trusted function whose contract restates the documentation of the
//! `bytes` crate over that name.

use vstd::prelude::*;
use bytes::{Buf, BufMut, BytesMut};

verus! {

/// `bytes::BytesMut`, declared so that it can stand in signatures; nothing
/// is known of its inside.
#[verifier::external_type_specification]
#[verifier::external_body]
pub struct ExBytesMut(bytes::BytesMut);

/// The readable bytes of a buffer, first to last.
pub uninterp spec fn buf_bytes(buf: BytesMut) -> Seq<u8>;

/// The value of two bytes read as a big-endian 16-bit number.
pub open spec fn be16(hi: u8, lo: u8) -> u16 {
    (hi as int * 256 + lo as int) as u16
}

/// The two bytes of a 16-bit number, most significant first.
pub open spec fn be16_bytes(v: u16) -> Seq<u8> {
    seq![(v / 256) as u8, (v % 256) as u8]
}

/// `BytesMut::new`: a buffer that holds no bytes.
#[verifier::external_body]
pub(crate) fn buf_new() -> (buf: BytesMut)
    ensures
        buf_bytes(buf) == Seq::<u8>::empty(),
{
    BytesMut::new()
}

/// `BytesMut::len`: the number of readable bytes.
#[verifier::external_body]
pub(crate) fn buf_len(buf: &BytesMut) -> (n: usize)
    ensures
        n == buf_bytes(*buf).len(),
{
    buf.len()
}

/// Indexing through `Deref<Target = [u8]>`: the byte at position `i`,
/// leaving the buffer as it is.
#[verifier::external_body]
pub(crate) fn buf_peek(buf: &BytesMut, i: usize) -> (b: u8)
    requires
        i < buf_bytes(*buf).len(),
    ensures
        b == buf_bytes(*buf)[i as int],
{
    buf[i]
}

/// `Buf::advance`: drops the first `cnt` bytes.
#[verifier::external_body]
pub(crate) fn buf_advance(buf: &mut BytesMut, cnt: usize)
    requires
        cnt <= buf_bytes(*old(buf)).len(),
    ensures
        buf_bytes(*final(buf)) == buf_bytes(*old(buf)).skip(cnt as int),
{
    buf.advance(cnt)
}

/// `Buf::get_u8`: takes the first byte off the buffer.
#[verifier::external_body]
pub(crate) fn buf_get_u8(buf: &mut BytesMut) -> (b: u8)
    requires
        buf_bytes(*old(buf)).len() >= 1,
    ensures
        b == buf_bytes(*old(buf))[0],
        buf_bytes(*final(buf)) == buf_bytes(*old(buf)).skip(1),
{
    buf.get_u8()
}

/// `Buf::get_u16`: takes the first two bytes off the buffer and reads them
/// as a big-endian number.
#[verifier::external_body]
pub(crate) fn buf_get_u16(buf: &mut BytesMut) -> (v: u16)
    requires
        buf_bytes(*old(buf)).len() >= 2,
    ensures
        v == be16(buf_bytes(*old(buf))[0], buf_bytes(*old(buf))[1]),
        buf_bytes(*final(buf)) == buf_bytes(*old(buf)).skip(2),
{
    buf.get_u16()
}

/// `Buf::copy_to_slice` into an array of `N` bytes: takes the first `N`
/// bytes off the buffer.
#[verifier::external_body]
pub(crate) fn buf_get_array<const N: usize>(buf: &mut BytesMut) -> (out: [u8; N])
    requires
        buf_bytes(*old(buf)).len() >= N,
    ensures
        out@ == buf_bytes(*old(buf)).take(N as int),
        buf_bytes(*final(buf)) == buf_bytes(*old(buf)).skip(N as int),
{
    let mut out = [0u8; N];
    buf.copy_to_slice(&mut out);
    out
}

/// `BufMut::put_u8`: appends one byte.
#[verifier::external_body]
pub(crate) fn buf_put_u8(buf: &mut BytesMut, b: u8)
    ensures
        buf_bytes(*final(buf)) == buf_bytes(*old(buf)).push(b),
{
    buf.put_u8(b)
}

/// `BufMut::put_u16`: appends a 16-bit number, most significant byte first.
#[verifier::external_body]
pub(crate) fn buf_put_u16(buf: &mut BytesMut, v: u16)
    ensures
        buf_bytes(*final(buf)) == buf_bytes(*old(buf)) + be16_bytes(v),
{
    buf.put_u16(v)
}

/// `BufMut::put_slice`: appends the bytes of `src`.
#[verifier::external_body]
pub(crate) fn buf_put_slice(buf: &mut BytesMut, src: &[u8])
    ensures
        buf_bytes(*final(buf)) == buf_bytes(*old(buf)) + src@,
{
    buf.put_slice(src)
}

/// `BytesMut::from(&[u8])`: a buffer that holds a copy of `src`.
#[verifier::external_body]
pub(crate) fn buf_from_slice(src: &[u8]) -> (buf: BytesMut)
    ensures
        buf_bytes(buf) == src@,
{
    BytesMut::from(src)
}

/// Slicing through `Deref<Target = [u8]>` and `to_vec`: a copy of the bytes
/// at positions `start..end`, leaving the buffer as it is.
#[verifier::external_body]
pub(crate) fn buf_copy_range(buf: &BytesMut, start: usize, end: usize) -> (v: Vec<u8>)
    requires
        start <= end <= buf_bytes(*buf).len(),
    ensures
        v@ == buf_bytes(*buf).subrange(start as int, end as int),
{
    buf[start..end].to_vec()
}

} // verus!
