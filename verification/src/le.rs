//! Little-endian integers: what their bytes are, and the code that writes
//! and reads them.

use vstd::prelude::*;

verus! {

/// The two bytes of `x`, least significant first.
#[verifier::opaque]
pub open spec fn u16_le(x: u16) -> Seq<u8> {
    seq![(x % 256) as u8, (x / 256) as u8]
}

/// The four bytes of `x`, least significant first.
#[verifier::opaque]
pub open spec fn u32_le(x: u32) -> Seq<u8> {
    u16_le((x % 0x1_0000) as u16) + u16_le((x / 0x1_0000) as u16)
}

/// The eight bytes of `x`, least significant first.
#[verifier::opaque]
pub open spec fn u64_le(x: u64) -> Seq<u8> {
    u32_le((x % 0x1_0000_0000) as u32) + u32_le((x / 0x1_0000_0000) as u32)
}

/// The number whose little-endian bytes are the first two of `b`.
#[verifier::opaque]
pub open spec fn u16_from_le(b: Seq<u8>) -> u16
    recommends
        b.len() >= 2,
{
    (b[0] as int + 256 * (b[1] as int)) as u16
}

/// The number whose little-endian bytes are the first four of `b`.
#[verifier::opaque]
pub open spec fn u32_from_le(b: Seq<u8>) -> u32
    recommends
        b.len() >= 4,
{
    (u16_from_le(b) as int + 0x1_0000 * (u16_from_le(b.skip(2)) as int)) as u32
}

/// The number whose little-endian bytes are the first eight of `b`.
#[verifier::opaque]
pub open spec fn u64_from_le(b: Seq<u8>) -> u64
    recommends
        b.len() >= 8,
{
    (u32_from_le(b) as int + 0x1_0000_0000 * (u32_from_le(b.skip(4)) as int)) as u64
}

/// Reading back the two bytes of `x` gives `x`, whatever follows them.
pub proof fn lemma_u16_le_roundtrip(x: u16, rest: Seq<u8>)
    ensures
        u16_le(x).len() == 2,
        u16_from_le(u16_le(x) + rest) == x,
{
    reveal(u16_le);
    reveal(u16_from_le);
}

/// Reading back the four bytes of `x` gives `x`, whatever follows them.
pub proof fn lemma_u32_le_roundtrip(x: u32, rest: Seq<u8>)
    ensures
        u32_le(x).len() == 4,
        u32_from_le(u32_le(x) + rest) == x,
{
    reveal(u32_le);
    reveal(u32_from_le);
    let lo = (x % 0x1_0000) as u16;
    let hi = (x / 0x1_0000) as u16;
    let s = u32_le(x) + rest;
    lemma_u16_le_roundtrip(lo, u16_le(hi) + rest);
    lemma_u16_le_roundtrip(hi, rest);
    assert(s =~= u16_le(lo) + (u16_le(hi) + rest));
    assert(s.skip(2) =~= u16_le(hi) + rest);
}

/// Reading back the eight bytes of `x` gives `x`, whatever follows them.
pub proof fn lemma_u64_le_roundtrip(x: u64, rest: Seq<u8>)
    ensures
        u64_le(x).len() == 8,
        u64_from_le(u64_le(x) + rest) == x,
{
    reveal(u64_le);
    reveal(u64_from_le);
    let lo = (x % 0x1_0000_0000) as u32;
    let hi = (x / 0x1_0000_0000) as u32;
    let s = u64_le(x) + rest;
    lemma_u32_le_roundtrip(lo, u32_le(hi) + rest);
    lemma_u32_le_roundtrip(hi, rest);
    assert(s =~= u32_le(lo) + (u32_le(hi) + rest));
    assert(s.skip(4) =~= u32_le(hi) + rest);
}

/// The halves of a number put together from two halves.
proof fn lemma_halves_u32(lo: u16, hi: u16)
    ensures
        ((lo as int + 0x1_0000 * (hi as int)) as u32) % 0x1_0000 == lo,
        ((lo as int + 0x1_0000 * (hi as int)) as u32) / 0x1_0000 == hi,
{
}

/// The halves of a number put together from two halves.
proof fn lemma_halves_u64(lo: u32, hi: u32)
    ensures
        ((lo as int + 0x1_0000_0000 * (hi as int)) as u64) % 0x1_0000_0000 == lo,
        ((lo as int + 0x1_0000_0000 * (hi as int)) as u64) / 0x1_0000_0000 == hi,
{
}

/// Two bytes are the bytes of the number read from them.
pub proof fn lemma_u16_from_le_inverse(b: Seq<u8>)
    requires
        b.len() >= 2,
    ensures
        u16_le(u16_from_le(b)) == b.take(2),
{
    reveal(u16_le);
    reveal(u16_from_le);
}

/// Four bytes are the bytes of the number read from them.
pub proof fn lemma_u32_from_le_inverse(b: Seq<u8>)
    requires
        b.len() >= 4,
    ensures
        u32_le(u32_from_le(b)) == b.take(4),
{
    reveal(u32_le);
    reveal(u32_from_le);
    let lo = u16_from_le(b);
    let hi = u16_from_le(b.skip(2));
    lemma_u16_from_le_inverse(b);
    lemma_u16_from_le_inverse(b.skip(2));
    lemma_halves_u32(lo, hi);
}

/// Eight bytes are the bytes of the number read from them.
pub proof fn lemma_u64_from_le_inverse(b: Seq<u8>)
    requires
        b.len() >= 8,
    ensures
        u64_le(u64_from_le(b)) == b.take(8),
{
    reveal(u64_le);
    reveal(u64_from_le);
    let lo = u32_from_le(b);
    let hi = u32_from_le(b.skip(4));
    lemma_u32_from_le_inverse(b);
    lemma_u32_from_le_inverse(b.skip(4));
    lemma_halves_u64(lo, hi);
}

/// The number read from eight bytes depends on those eight bytes alone.
pub proof fn lemma_u64_from_le_prefix(a: Seq<u8>, b: Seq<u8>)
    requires
        a.len() >= 8,
        b.len() >= 8,
        a.take(8) == b.take(8),
    ensures
        u64_from_le(a) == u64_from_le(b),
{
    lemma_u64_from_le_inverse(a);
    lemma_u64_from_le_inverse(b);
    lemma_u64_le_roundtrip(u64_from_le(a), Seq::empty());
    lemma_u64_le_roundtrip(u64_from_le(b), Seq::empty());
}

/// Appends the two bytes of `x`.
pub fn put_u16(data: &mut Vec<u8>, x: u16)
    ensures
        final(data)@ == old(data)@ + u16_le(x),
{
    proof {
        reveal(u16_le);
    }
    data.push((x % 256) as u8);
    data.push((x / 256) as u8);
}

/// Appends the four bytes of `x`.
pub fn put_u32(data: &mut Vec<u8>, x: u32)
    ensures
        final(data)@ == old(data)@ + u32_le(x),
{
    proof {
        reveal(u32_le);
    }
    put_u16(data, (x % 0x1_0000) as u16);
    put_u16(data, (x / 0x1_0000) as u16);
}

/// Appends the eight bytes of `x`.
pub fn put_u64(data: &mut Vec<u8>, x: u64)
    ensures
        final(data)@ == old(data)@ + u64_le(x),
{
    proof {
        reveal(u64_le);
    }
    put_u32(data, (x % 0x1_0000_0000) as u32);
    put_u32(data, (x / 0x1_0000_0000) as u32);
}

/// The number held in the two bytes of `data` that start at `pos`.
pub(crate) fn get_u16(data: &[u8], pos: usize) -> (x: u16)
    requires
        pos + 2 <= data.len(),
    ensures
        x == u16_from_le(data@.skip(pos as int)),
{
    proof {
        reveal(u16_from_le);
    }
    let lo = data[pos] as u16;
    let hi = data[pos + 1] as u16;
    lo + 256 * hi
}

/// The number held in the four bytes of `data` that start at `pos`.
pub(crate) fn get_u32(data: &[u8], pos: usize) -> (x: u32)
    requires
        pos + 4 <= data.len(),
    ensures
        x == u32_from_le(data@.skip(pos as int)),
{
    proof {
        reveal(u32_from_le);
    }
    let lo = get_u16(data, pos) as u32;
    let hi = get_u16(data, pos + 2) as u32;
    assert(data@.skip(pos as int).skip(2) =~= data@.skip(pos + 2));
    lo + 0x1_0000 * hi
}

/// The number held in the eight bytes of `data` that start at `pos`.
pub(crate) fn get_u64(data: &[u8], pos: usize) -> (x: u64)
    requires
        pos + 8 <= data.len(),
    ensures
        x == u64_from_le(data@.skip(pos as int)),
{
    proof {
        reveal(u64_from_le);
    }
    let lo = get_u32(data, pos) as u64;
    let hi = get_u32(data, pos + 4) as u64;
    assert(data@.skip(pos as int).skip(4) =~= data@.skip(pos + 4));
    lo + 0x1_0000_0000 * hi
}

} // verus!
