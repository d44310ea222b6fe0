//! Byte encodings of integers, and the calls that produce them.
//!
//! The spec functions say which bytes an integer is written as. The
//! executable functions at the end hand the work to the `bytes` and
//! `byteorder` crates and to std; their contracts are believed, not proved.

use vstd::prelude::*;
use bytes::BufMut;
use byteorder::{ByteOrder, LittleEndian};

verus! {

/// The four bytes of `n`, most significant first.
#[verifier::opaque]
pub open spec fn be_bytes_u32(n: u32) -> Seq<u8> {
    seq![
        (n / 0x100_0000) as u8,
        ((n / 0x1_0000) % 0x100) as u8,
        ((n / 0x100) % 0x100) as u8,
        (n % 0x100) as u8,
    ]
}

/// The four bytes of `n`, least significant first.
#[verifier::opaque]
pub open spec fn le_bytes_u32(n: u32) -> Seq<u8> {
    seq![
        (n % 0x100) as u8,
        ((n / 0x100) % 0x100) as u8,
        ((n / 0x1_0000) % 0x100) as u8,
        (n / 0x100_0000) as u8,
    ]
}

/// The eight bytes of `n`, most significant first: the upper half of the
/// number, then the lower half.
#[verifier::opaque]
pub open spec fn be_bytes_u64(n: u64) -> Seq<u8> {
    be_bytes_u32((n / 0x1_0000_0000) as u32) + be_bytes_u32((n % 0x1_0000_0000) as u32)
}

/// The number that the first four bytes of `s` spell, least significant first.
#[verifier::opaque]
pub open spec fn u32_of_le_bytes(s: Seq<u8>) -> u32 {
    (s[0] as int + s[1] as int * 0x100 + s[2] as int * 0x1_0000 + s[3] as int * 0x100_0000) as u32
}

/// The number that the first four bytes of `s` spell, most significant first.
#[verifier::opaque]
pub open spec fn u32_of_be_bytes(s: Seq<u8>) -> u32 {
    (s[3] as int + s[2] as int * 0x100 + s[1] as int * 0x1_0000 + s[0] as int * 0x100_0000) as u32
}

/// The number that the first eight bytes of `s` spell, most significant first.
#[verifier::opaque]
pub open spec fn u64_of_be_bytes(s: Seq<u8>) -> u64 {
    (u32_of_be_bytes(s.subrange(0, 4)) as int * 0x1_0000_0000 + u32_of_be_bytes(
        s.subrange(4, 8),
    ) as int) as u64
}

/// A number of 32 bits is written in four bytes, one of 64 bits in eight.
pub proof fn lemma_encoded_lengths()
    ensures
        forall|n: u32| (#[trigger] be_bytes_u32(n)).len() == 4,
        forall|n: u32| (#[trigger] le_bytes_u32(n)).len() == 4,
        forall|n: u64| (#[trigger] be_bytes_u64(n)).len() == 8,
{
    reveal(be_bytes_u32);
    reveal(le_bytes_u32);
    reveal(be_bytes_u64);
}

/// Reading back what was written gives the number that was written.
pub proof fn lemma_le_bytes_u32_round_trip(n: u32)
    ensures
        le_bytes_u32(n).len() == 4,
        u32_of_le_bytes(le_bytes_u32(n)) == n,
{
    reveal(le_bytes_u32);
    reveal(u32_of_le_bytes);
}

/// Reading back what was written gives the number that was written.
pub proof fn lemma_be_bytes_u32_round_trip(n: u32)
    ensures
        be_bytes_u32(n).len() == 4,
        u32_of_be_bytes(be_bytes_u32(n)) == n,
{
    reveal(be_bytes_u32);
    reveal(u32_of_be_bytes);
}

/// Reading back what was written gives the number that was written.
pub proof fn lemma_be_bytes_u64_round_trip(n: u64)
    ensures
        be_bytes_u64(n).len() == 8,
        u64_of_be_bytes(be_bytes_u64(n)) == n,
{
    reveal(be_bytes_u64);
    reveal(u64_of_be_bytes);
    let hi = (n / 0x1_0000_0000) as u32;
    let lo = (n % 0x1_0000_0000) as u32;
    lemma_be_bytes_u32_round_trip(hi);
    lemma_be_bytes_u32_round_trip(lo);
    assert(be_bytes_u64(n).subrange(0, 4) =~= be_bytes_u32(hi));
    assert(be_bytes_u64(n).subrange(4, 8) =~= be_bytes_u32(lo));
}

/// Appends one byte. Calls `bytes::BufMut::put_u8` on a `Vec<u8>`, which
/// grows the vector by the byte given.
#[verifier::external_body]
pub(crate) fn put_u8(buf: &mut Vec<u8>, n: u8)
    ensures
        final(buf)@ == old(buf)@.push(n),
{
    buf.put_u8(n)
}

/// Appends a 32-bit number, most significant byte first. Calls
/// `bytes::BufMut::put_u32` on a `Vec<u8>`.
#[verifier::external_body]
pub(crate) fn put_u32(buf: &mut Vec<u8>, n: u32)
    ensures
        final(buf)@ == old(buf)@ + be_bytes_u32(n),
{
    buf.put_u32(n)
}

/// Appends a 32-bit number, least significant byte first. Calls
/// `bytes::BufMut::put_u32_le` on a `Vec<u8>`.
#[verifier::external_body]
pub(crate) fn put_u32_le(buf: &mut Vec<u8>, n: u32)
    ensures
        final(buf)@ == old(buf)@ + le_bytes_u32(n),
{
    buf.put_u32_le(n)
}

/// Appends a 64-bit number, most significant byte first. Calls
/// `bytes::BufMut::put_u64` on a `Vec<u8>`.
#[verifier::external_body]
pub(crate) fn put_u64(buf: &mut Vec<u8>, n: u64)
    ensures
        final(buf)@ == old(buf)@ + be_bytes_u64(n),
{
    buf.put_u64(n)
}

/// Appends all of `src`. Calls `bytes::BufMut::put` on a `Vec<u8>` with a
/// byte slice as the source, which copies the slice to the end of the vector.
#[verifier::external_body]
pub(crate) fn put_slice(buf: &mut Vec<u8>, src: &[u8])
    ensures
        final(buf)@ == old(buf)@ + src@,
{
    buf.put(src)
}

/// The bytes of `n`, least significant first. Calls
/// `byteorder::LittleEndian::write_u32` on a buffer of four bytes.
#[verifier::external_body]
pub(crate) fn u32_to_le_bytes(n: u32) -> (r: [u8; 4])
    ensures
        r@ == le_bytes_u32(n),
{
    let mut out = [0u8; 4];
    LittleEndian::write_u32(&mut out, n);
    out
}

/// The number spelled by the first four bytes of `b`, least significant
/// first. Calls `byteorder::LittleEndian::read_u32`, which panics on a
/// shorter slice.
#[verifier::external_body]
pub(crate) fn u32_from_le_bytes(b: &[u8]) -> (r: u32)
    requires
        b@.len() >= 4,
    ensures
        r == u32_of_le_bytes(b@),
{
    LittleEndian::read_u32(b)
}

/// The bytes of `n` in two's complement, most significant first. Calls
/// `i64::to_be_bytes`.
#[verifier::external_body]
pub(crate) fn i64_to_be_bytes(n: i64) -> (r: [u8; 8])
    ensures
        r@ == be_bytes_u64(n as u64),
{
    n.to_be_bytes()
}

} // verus!

verus! {

/// The number that the four bytes of `b` from `offset` on spell, most
/// significant first.
pub fn read_u32_be(b: &[u8], offset: usize) -> (r: u32)
    requires
        offset + 4 <= b@.len(),
    ensures
        r == u32_of_be_bytes(b@.subrange(offset as int, offset + 4)),
{
    let len: usize = b.len();
    let b0: u32 = b[offset] as u32;
    let b1: u32 = b[offset + 1] as u32;
    let b2: u32 = b[offset + 2] as u32;
    let b3: u32 = b[offset + 3] as u32;
    proof {
        reveal(u32_of_be_bytes);
    }
    b3 + b2 * 0x100 + b1 * 0x1_0000 + b0 * 0x100_0000
}

/// The number that the eight bytes of `b` from `offset` on spell, most
/// significant first.
pub fn read_u64_be(b: &[u8], offset: usize) -> (r: u64)
    requires
        offset + 8 <= b@.len(),
    ensures
        r == u64_of_be_bytes(b@.subrange(offset as int, offset + 8)),
{
    let len: usize = b.len();
    let hi: u64 = read_u32_be(b, offset) as u64;
    let lo: u64 = read_u32_be(b, offset + 4) as u64;
    proof {
        reveal(u64_of_be_bytes);
        let s = b@.subrange(offset as int, offset + 8);
        assert(s.subrange(0, 4) =~= b@.subrange(offset as int, offset + 4));
        assert(s.subrange(4, 8) =~= b@.subrange(offset + 4, offset + 8));
    }
    hi * 0x1_0000_0000 + lo
}

} // verus!
