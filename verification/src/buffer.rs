//! Byte buffers.
//!
//! `bytes::Bytes` (a shared, immutable run of bytes) and `bytes::BytesMut` (a growing one) are
//! opaque to the verifier. What each holds is named by [`bytes_seq`] and [`buf_seq`], and the
//! functions below say over those names what the crate's operations do. Running out of memory is
//! not modelled, as it is not for `Vec`.

use bytes::{BufMut, Bytes, BytesMut};
use vstd::prelude::*;

verus! {

#[verifier::external_type_specification]
#[verifier::external_body]
pub struct ExBytes(bytes::Bytes);

#[verifier::external_type_specification]
#[verifier::external_body]
pub struct ExBytesMut(bytes::BytesMut);

/// The bytes that a `bytes::Bytes` holds.
pub uninterp spec fn bytes_seq(b: bytes::Bytes) -> Seq<u8>;

/// The bytes that a `bytes::BytesMut` holds.
pub uninterp spec fn buf_seq(b: bytes::BytesMut) -> Seq<u8>;

/// The two bytes of a 16-bit number, most significant first.
pub open spec fn be16(n: u16) -> Seq<u8> {
    seq![(n / 0x100) as u8, (n % 0x100) as u8]
}

/// The four bytes of a 32-bit number, most significant first.
pub open spec fn be32(n: u32) -> Seq<u8> {
    seq![
        (n / 0x1000000) as u8,
        (n / 0x10000 % 0x100) as u8,
        (n / 0x100 % 0x100) as u8,
        (n % 0x100) as u8,
    ]
}

/// The eight bytes of a 64-bit number, most significant first.
pub open spec fn be64(n: u64) -> Seq<u8> {
    be32((n / 0x1_0000_0000) as u32) + be32((n % 0x1_0000_0000) as u32)
}

/// `n` zero bytes.
pub open spec fn zeros(n: nat) -> Seq<u8> {
    Seq::new(n, |i: int| 0u8)
}

// ---------------------------------------------------------------------------
// bytes::Bytes
// ---------------------------------------------------------------------------

/// `Bytes::from(Vec<u8>)`: holds the bytes of the vector.
#[verifier::external_body]
pub(crate) fn bytes_from_vec(v: Vec<u8>) -> (r: Bytes)
    ensures
        bytes_seq(r) == v@,
{
    Bytes::from(v)
}

/// `Bytes::from(String)`: holds the UTF-8 encoding of the text.
#[verifier::external_body]
pub(crate) fn bytes_from_string(s: String) -> (r: Bytes)
    ensures
        bytes_seq(r) == vstd::utf8::encode_utf8(s@),
{
    Bytes::from(s)
}

/// `<Bytes as AsRef<[u8]>>::as_ref`: the bytes it holds, as a slice.
#[verifier::external_body]
pub(crate) fn bytes_slice(b: &Bytes) -> (r: &[u8])
    ensures
        r@ == bytes_seq(*b),
{
    b.as_ref()
}

/// `<Bytes as Clone>::clone`: another handle to the same bytes.
#[verifier::external_body]
pub(crate) fn bytes_clone(b: &Bytes) -> (r: Bytes)
    ensures
        bytes_seq(r) == bytes_seq(*b),
{
    b.clone()
}

/// `Bytes::slice(from..to)`: a handle to that part of the bytes. The crate panics on a range
/// that does not lie inside them.
#[verifier::external_body]
pub(crate) fn bytes_subrange(b: &Bytes, from: usize, to: usize) -> (r: Bytes)
    requires
        from <= to <= bytes_seq(*b).len(),
    ensures
        bytes_seq(r) == bytes_seq(*b).subrange(from as int, to as int),
{
    b.slice(from..to)
}

/// The number of bytes held.
pub fn bytes_len(b: &Bytes) -> (r: usize)
    ensures
        r == bytes_seq(*b).len(),
{
    bytes_slice(b).len()
}

/// A copy of a slice as `Bytes`.
pub fn bytes_copy(s: &[u8]) -> (r: Bytes)
    ensures
        bytes_seq(r) == s@,
{
    let mut v: Vec<u8> = Vec::new();
    let mut i: usize = 0;
    while i < s.len()
        invariant
            i <= s@.len(),
            v@ == s@.subrange(0, i as int),
        decreases s@.len() - i,
    {
        v.push(s[i]);
        i = i + 1;
    }
    assert(v@ =~= s@);
    bytes_from_vec(v)
}

// ---------------------------------------------------------------------------
// bytes::BytesMut
// ---------------------------------------------------------------------------

/// `BytesMut::new`: holds nothing.
#[verifier::external_body]
pub(crate) fn buf_new() -> (r: BytesMut)
    ensures
        buf_seq(r) == Seq::<u8>::empty(),
{
    BytesMut::new()
}

/// `<BytesMut as AsRef<[u8]>>::as_ref`: the bytes it holds, as a slice.
#[verifier::external_body]
pub(crate) fn buf_slice(b: &BytesMut) -> (r: &[u8])
    ensures
        r@ == buf_seq(*b),
{
    b.as_ref()
}

/// `BytesMut::extend_from_slice`: appends the bytes of the slice.
#[verifier::external_body]
pub(crate) fn buf_extend(b: &mut BytesMut, s: &[u8])
    ensures
        buf_seq(*final(b)) == buf_seq(*old(b)) + s@,
{
    b.extend_from_slice(s)
}

/// `BufMut::put_u8`: appends one byte.
#[verifier::external_body]
pub(crate) fn buf_put_u8(b: &mut BytesMut, n: u8)
    ensures
        buf_seq(*final(b)) == buf_seq(*old(b)).push(n),
{
    b.put_u8(n)
}

/// `BufMut::put_u16`: appends the two bytes of `n`, most significant first.
#[verifier::external_body]
pub(crate) fn buf_put_u16(b: &mut BytesMut, n: u16)
    ensures
        buf_seq(*final(b)) == buf_seq(*old(b)) + be16(n),
{
    b.put_u16(n)
}

/// `BufMut::put_u32`: appends the four bytes of `n`, most significant first.
#[verifier::external_body]
pub(crate) fn buf_put_u32(b: &mut BytesMut, n: u32)
    ensures
        buf_seq(*final(b)) == buf_seq(*old(b)) + be32(n),
{
    b.put_u32(n)
}

/// The four bytes of a 32-bit number, least significant first.
pub open spec fn le32(n: u32) -> Seq<u8> {
    seq![
        (n % 0x100) as u8,
        (n / 0x100 % 0x100) as u8,
        (n / 0x10000 % 0x100) as u8,
        (n / 0x1000000) as u8,
    ]
}

/// `BufMut::put_u32_le`: appends the four bytes of `n`, least significant first.
#[verifier::external_body]
pub(crate) fn buf_put_u32_le(b: &mut BytesMut, n: u32)
    ensures
        buf_seq(*final(b)) == buf_seq(*old(b)) + le32(n),
{
    b.put_u32_le(n)
}

/// `BufMut::put_i32`: appends the four bytes of the two's complement of `n`, most significant
/// first.
#[verifier::external_body]
pub(crate) fn buf_put_i32(b: &mut BytesMut, n: i32)
    ensures
        buf_seq(*final(b)) == buf_seq(*old(b)) + be32(n as u32),
{
    b.put_i32(n)
}

/// `BufMut::put_i64`: appends the eight bytes of the two's complement of `n`, most significant
/// first.
#[verifier::external_body]
pub(crate) fn buf_put_i64(b: &mut BytesMut, n: i64)
    ensures
        buf_seq(*final(b)) == buf_seq(*old(b)) + be64(n as u64),
{
    b.put_i64(n)
}

/// `BytesMut::split`: takes all bytes out of the buffer, which is empty afterwards.
#[verifier::external_body]
pub(crate) fn buf_split(b: &mut BytesMut) -> (r: BytesMut)
    ensures
        buf_seq(r) == buf_seq(*old(b)),
        buf_seq(*final(b)).len() == 0,
{
    b.split()
}

/// `BytesMut::freeze`: the same bytes, from now on immutable.
#[verifier::external_body]
pub(crate) fn buf_freeze(b: BytesMut) -> (r: Bytes)
    ensures
        bytes_seq(r) == buf_seq(b),
{
    b.freeze()
}

/// Appends `n` zero bytes.
pub fn buf_put_zeros(b: &mut BytesMut, n: usize)
    ensures
        buf_seq(*final(b)) == buf_seq(*old(b)) + zeros(n as nat),
{
    let mut i: usize = 0;
    while i < n
        invariant
            i <= n,
            buf_seq(*b) == buf_seq(*old(b)) + zeros(i as nat),
        decreases n - i,
    {
        buf_put_u8(b, 0);
        i = i + 1;
        assert(buf_seq(*b) =~= buf_seq(*old(b)) + zeros(i as nat));
    }
    assert(buf_seq(*b) =~= buf_seq(*old(b)) + zeros(n as nat));
}

} // verus!
