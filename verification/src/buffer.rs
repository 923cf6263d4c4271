//! The byte buffer that RTCP packets are written to and read from.
//!
//! Packets travel in `bytes::BytesMut`. Its contents are modelled as the
//! sequence of bytes it holds; the calls the library makes on it are given
//! contracts here, and the network byte order (big-endian) that the `bytes`
//! crate uses for its multi-byte integers is written out as spec functions.
use bytes::{Buf, BufMut, BytesMut};
use vstd::prelude::*;

verus! {

#[verifier::external_type_specification]
#[verifier::external_body]
pub struct ExBytesMut(bytes::BytesMut);

/// The bytes a `BytesMut` holds, from its read position to its end.
pub uninterp spec fn buffer_bytes(buf: BytesMut) -> Seq<u8>;

/// The number of bytes up to which appending to a `BytesMut` is taken not to
/// panic. Its storage is a `Vec<u8>`, whose capacity may not exceed
/// `isize::MAX` bytes, and growing it may reserve more than the bytes
/// appended (up to twice the old capacity); staying within half of
/// `isize::MAX` keeps every such reservation legal. A failed allocation
/// aborts the process, which no contract here speaks of.
pub open spec fn buffer_limit() -> int {
    isize::MAX as int / 2
}

// ----- big-endian encodings -----
/// The two bytes of `v`, most significant first.
pub open spec fn be16(v: u16) -> Seq<u8> {
    seq![(v / 0x100) as u8, (v % 0x100) as u8]
}

/// The four bytes of `v`, most significant first.
pub open spec fn be32(v: u32) -> Seq<u8> {
    seq![
        (v / 0x100_0000) as u8,
        (v / 0x1_0000 % 0x100) as u8,
        (v / 0x100 % 0x100) as u8,
        (v % 0x100) as u8,
    ]
}

/// The eight bytes of `v`, most significant first.
pub open spec fn be64(v: u64) -> Seq<u8> {
    be32((v / 0x1_0000_0000) as u32) + be32((v % 0x1_0000_0000) as u32)
}

/// The unsigned number that the two bytes of `s` starting at `i` spell, most
/// significant first.
pub open spec fn be16_at(s: Seq<u8>, i: int) -> int {
    s[i] * 0x100 + s[i + 1]
}

/// The unsigned number that the four bytes of `s` starting at `i` spell, most
/// significant first.
pub open spec fn be32_at(s: Seq<u8>, i: int) -> int {
    s[i] * 0x100_0000 + s[i + 1] * 0x1_0000 + s[i + 2] * 0x100 + s[i + 3]
}

/// The unsigned number that the eight bytes of `s` starting at `i` spell, most
/// significant first.
pub open spec fn be64_at(s: Seq<u8>, i: int) -> int {
    be32_at(s, i) * 0x1_0000_0000 + be32_at(s, i + 4)
}

/// Where two bytes of `s` are the encoding of `v`, they read back as `v`.
pub proof fn lemma_be16_read(s: Seq<u8>, i: int, v: u16)
    requires
        0 <= i,
        i + 2 <= s.len(),
        s.subrange(i, i + 2) == be16(v),
    ensures
        be16_at(s, i) == v,
{
    assert(s[i] == s.subrange(i, i + 2)[0]);
    assert(s[i + 1] == s.subrange(i, i + 2)[1]);
}

/// Where four bytes of `s` are the encoding of `v`, they read back as `v`.
pub proof fn lemma_be32_read(s: Seq<u8>, i: int, v: u32)
    requires
        0 <= i,
        i + 4 <= s.len(),
        s.subrange(i, i + 4) == be32(v),
    ensures
        be32_at(s, i) == v,
{
    assert(s[i] == s.subrange(i, i + 4)[0]);
    assert(s[i + 1] == s.subrange(i, i + 4)[1]);
    assert(s[i + 2] == s.subrange(i, i + 4)[2]);
    assert(s[i + 3] == s.subrange(i, i + 4)[3]);
}

/// Where eight bytes of `s` are the encoding of `v`, they read back as `v`.
pub proof fn lemma_be64_read(s: Seq<u8>, i: int, v: u64)
    requires
        0 <= i,
        i + 8 <= s.len(),
        s.subrange(i, i + 8) == be64(v),
    ensures
        be64_at(s, i) == v,
{
    let hi = (v / 0x1_0000_0000) as u32;
    let lo = (v % 0x1_0000_0000) as u32;
    assert(s.subrange(i, i + 4) =~= s.subrange(i, i + 8).subrange(0, 4));
    assert(s.subrange(i + 4, i + 8) =~= s.subrange(i, i + 8).subrange(4, 8));
    assert(be64(v).subrange(0, 4) =~= be32(hi));
    assert(be64(v).subrange(4, 8) =~= be32(lo));
    lemma_be32_read(s, i, hi);
    lemma_be32_read(s, i + 4, lo);
}

/// Encoding what two bytes of `s` spell gives those bytes back.
pub proof fn lemma_be16_write(s: Seq<u8>, i: int)
    requires
        0 <= i,
        i + 2 <= s.len(),
    ensures
        0 <= be16_at(s, i) <= u16::MAX,
        be16(be16_at(s, i) as u16) == s.subrange(i, i + 2),
{
    let a = s[i];
    let b = s[i + 1];
    let v = be16_at(s, i) as u16;
    assert(v / 0x100 == a && v % 0x100 == b) by (nonlinear_arith)
        requires
            v == a * 0x100 + b,
            0 <= a < 0x100,
            0 <= b < 0x100,
    ;
    assert(be16(v) =~= s.subrange(i, i + 2));
}

/// Encoding what four bytes of `s` spell gives those bytes back.
pub proof fn lemma_be32_write(s: Seq<u8>, i: int)
    requires
        0 <= i,
        i + 4 <= s.len(),
    ensures
        0 <= be32_at(s, i) <= u32::MAX,
        be32(be32_at(s, i) as u32) == s.subrange(i, i + 4),
{
    let a = s[i];
    let b = s[i + 1];
    let c = s[i + 2];
    let d = s[i + 3];
    let v = be32_at(s, i);
    assert(v / 0x100_0000 == a && v / 0x1_0000 % 0x100 == b && v / 0x100 % 0x100 == c && v
        % 0x100 == d && v <= u32::MAX) by (nonlinear_arith)
        requires
            v == a * 0x100_0000 + b * 0x1_0000 + c * 0x100 + d,
            0 <= a < 0x100,
            0 <= b < 0x100,
            0 <= c < 0x100,
            0 <= d < 0x100,
    ;
    assert(be32(v as u32) =~= s.subrange(i, i + 4));
}

/// Encoding what eight bytes of `s` spell gives those bytes back.
pub proof fn lemma_be64_write(s: Seq<u8>, i: int)
    requires
        0 <= i,
        i + 8 <= s.len(),
    ensures
        0 <= be64_at(s, i) <= u64::MAX,
        be64(be64_at(s, i) as u64) == s.subrange(i, i + 8),
{
    lemma_be32_write(s, i);
    lemma_be32_write(s, i + 4);
    let hi = be32_at(s, i);
    let lo = be32_at(s, i + 4);
    let v = be64_at(s, i);
    assert(v / 0x1_0000_0000 == hi && v % 0x1_0000_0000 == lo && v <= u64::MAX)
        by (nonlinear_arith)
        requires
            v == hi * 0x1_0000_0000 + lo,
            0 <= hi <= 0xffff_ffff,
            0 <= lo <= 0xffff_ffff,
    ;
    assert(be64(v as u64) =~= s.subrange(i, i + 8));
}

// ----- calls into `bytes` -----
/// `BytesMut::new`: an empty buffer.
#[verifier::external_body]
pub(crate) fn buffer_new() -> (buf: BytesMut)
    ensures
        buffer_bytes(buf) == Seq::<u8>::empty(),
{
    BytesMut::new()
}

/// `BytesMut::with_capacity`: an empty buffer (the capacity is not part of
/// the contents and is left unsaid).
#[verifier::external_body]
pub(crate) fn buffer_with_capacity(capacity: usize) -> (buf: BytesMut)
    ensures
        buffer_bytes(buf) == Seq::<u8>::empty(),
{
    BytesMut::with_capacity(capacity)
}

/// `BytesMut::len`: the number of bytes held.
#[verifier::external_body]
pub(crate) fn buffer_len(buf: &BytesMut) -> (n: usize)
    ensures
        n == buffer_bytes(*buf).len(),
{
    buf.len()
}

/// `BufMut::put_u8` on a `BytesMut`: appends the byte.
#[verifier::external_body]
pub(crate) fn buffer_put_u8(buf: &mut BytesMut, n: u8)
    requires
        buffer_bytes(*old(buf)).len() + 1 <= buffer_limit(),
    ensures
        buffer_bytes(*final(buf)) == buffer_bytes(*old(buf)).push(n),
{
    buf.put_u8(n)
}

/// `BufMut::put_u16` on a `BytesMut`: appends the two bytes of `n` in
/// big-endian order.
#[verifier::external_body]
pub(crate) fn buffer_put_u16(buf: &mut BytesMut, n: u16)
    requires
        buffer_bytes(*old(buf)).len() + 2 <= buffer_limit(),
    ensures
        buffer_bytes(*final(buf)) == buffer_bytes(*old(buf)) + be16(n),
{
    buf.put_u16(n)
}

/// `BufMut::put_u32` on a `BytesMut`: appends the four bytes of `n` in
/// big-endian order.
#[verifier::external_body]
pub(crate) fn buffer_put_u32(buf: &mut BytesMut, n: u32)
    requires
        buffer_bytes(*old(buf)).len() + 4 <= buffer_limit(),
    ensures
        buffer_bytes(*final(buf)) == buffer_bytes(*old(buf)) + be32(n),
{
    buf.put_u32(n)
}

/// `BufMut::put_u64` on a `BytesMut`: appends the eight bytes of `n` in
/// big-endian order.
#[verifier::external_body]
pub(crate) fn buffer_put_u64(buf: &mut BytesMut, n: u64)
    requires
        buffer_bytes(*old(buf)).len() + 8 <= buffer_limit(),
    ensures
        buffer_bytes(*final(buf)) == buffer_bytes(*old(buf)) + be64(n),
{
    buf.put_u64(n)
}

/// `BufMut::put` on a `BytesMut` with another `BytesMut` as the source:
/// appends all bytes of `src`.
#[verifier::external_body]
pub(crate) fn buffer_put(buf: &mut BytesMut, src: BytesMut)
    requires
        buffer_bytes(*old(buf)).len() + buffer_bytes(src).len() <= buffer_limit(),
    ensures
        buffer_bytes(*final(buf)) == buffer_bytes(*old(buf)) + buffer_bytes(src),
{
    buf.put(src)
}

/// `Buf::get_u8` on a `BytesMut`: removes and returns the first byte. The
/// call panics on an empty buffer, which the precondition leaves out.
#[verifier::external_body]
pub(crate) fn buffer_get_u8(buf: &mut BytesMut) -> (n: u8)
    requires
        buffer_bytes(*old(buf)).len() >= 1,
    ensures
        n == buffer_bytes(*old(buf))[0],
        buffer_bytes(*final(buf)) == buffer_bytes(*old(buf)).skip(1),
{
    buf.get_u8()
}

/// `Buf::get_u16` on a `BytesMut`: removes the first two bytes and returns
/// the number they spell in big-endian order. The call panics when fewer
/// than two bytes are held, which the precondition leaves out.
#[verifier::external_body]
pub(crate) fn buffer_get_u16(buf: &mut BytesMut) -> (n: u16)
    requires
        buffer_bytes(*old(buf)).len() >= 2,
    ensures
        n == be16_at(buffer_bytes(*old(buf)), 0),
        buffer_bytes(*final(buf)) == buffer_bytes(*old(buf)).skip(2),
{
    buf.get_u16()
}

/// `Buf::get_u32` on a `BytesMut`: removes the first four bytes and returns
/// the number they spell in big-endian order. The call panics when fewer
/// than four bytes are held, which the precondition leaves out.
#[verifier::external_body]
pub(crate) fn buffer_get_u32(buf: &mut BytesMut) -> (n: u32)
    requires
        buffer_bytes(*old(buf)).len() >= 4,
    ensures
        n == be32_at(buffer_bytes(*old(buf)), 0),
        buffer_bytes(*final(buf)) == buffer_bytes(*old(buf)).skip(4),
{
    buf.get_u32()
}

/// `Buf::get_u64` on a `BytesMut`: removes the first eight bytes and returns
/// the number they spell in big-endian order. The call panics when fewer
/// than eight bytes are held, which the precondition leaves out.
#[verifier::external_body]
pub(crate) fn buffer_get_u64(buf: &mut BytesMut) -> (n: u64)
    requires
        buffer_bytes(*old(buf)).len() >= 8,
    ensures
        n == be64_at(buffer_bytes(*old(buf)), 0),
        buffer_bytes(*final(buf)) == buffer_bytes(*old(buf)).skip(8),
{
    buf.get_u64()
}

} // verus!
