//! Little-endian integers as byte sequences.

use vstd::prelude::*;

verus! {

/// The four bytes of `x`, least significant first.
pub open spec fn u32_le(x: u32) -> Seq<u8> {
    seq![
        (x % 256) as u8,
        (x / 256 % 256) as u8,
        (x / 65536 % 256) as u8,
        (x / 16777216 % 256) as u8,
    ]
}

/// The number whose little-endian bytes are the first four of `s`.
pub open spec fn u32_from_le(s: Seq<u8>) -> int {
    s[0] as int + 256 * (s[1] as int) + 65536 * (s[2] as int) + 16777216 * (s[3] as int)
}

/// The eight bytes of `x`, least significant first.
pub open spec fn u64_le(x: u64) -> Seq<u8> {
    u32_le((x % 4294967296) as u32) + u32_le((x / 4294967296) as u32)
}

/// The number whose little-endian bytes are the first eight of `s`.
pub open spec fn u64_from_le(s: Seq<u8>) -> int {
    u32_from_le(s.subrange(0, 4)) + 4294967296 * u32_from_le(s.subrange(4, 8))
}

/// Reading back the bytes of a `u32` gives the number.
pub proof fn lemma_u32_round_trip(x: u32)
    ensures
        u32_le(x).len() == 4,
        u32_from_le(u32_le(x)) == x,
{
}

/// Writing out the number read from four bytes gives the bytes.
pub proof fn lemma_u32_bytes_round_trip(s: Seq<u8>)
    requires
        s.len() == 4,
    ensures
        0 <= u32_from_le(s) <= u32::MAX,
        u32_le(u32_from_le(s) as u32) == s,
{
    let b0 = s[0] as int;
    let b1 = s[1] as int;
    let b2 = s[2] as int;
    let b3 = s[3] as int;
    let v = u32_from_le(s);
    let v1 = b1 + 256 * b2 + 65536 * b3;
    let v2 = b2 + 256 * b3;
    assert(v == b0 + 256 * v1);
    assert(v1 == b1 + 256 * v2);
    assert(v2 == b2 + 256 * b3);
    assert(v / 256 == v1 && v % 256 == b0);
    assert(v1 / 256 == v2 && v1 % 256 == b1);
    assert(v2 / 256 == b3 && v2 % 256 == b2);
    assert(v / 65536 == v2);
    assert(v / 16777216 == b3);
    assert(u32_le(v as u32) =~= s);
}

/// Reading back the bytes of a `u64` gives the number.
pub proof fn lemma_u64_round_trip(x: u64)
    ensures
        u64_le(x).len() == 8,
        u64_from_le(u64_le(x)) == x,
{
    let lo = (x % 4294967296) as u32;
    let hi = (x / 4294967296) as u32;
    lemma_u32_round_trip(lo);
    lemma_u32_round_trip(hi);
    assert(u64_le(x).subrange(0, 4) =~= u32_le(lo));
    assert(u64_le(x).subrange(4, 8) =~= u32_le(hi));
}

/// Writing out the number read from eight bytes gives the bytes.
pub proof fn lemma_u64_bytes_round_trip(s: Seq<u8>)
    requires
        s.len() == 8,
    ensures
        0 <= u64_from_le(s) <= u64::MAX,
        u64_le(u64_from_le(s) as u64) == s,
{
    let lo = s.subrange(0, 4);
    let hi = s.subrange(4, 8);
    lemma_u32_bytes_round_trip(lo);
    lemma_u32_bytes_round_trip(hi);
    let x = u64_from_le(s) as u64;
    assert((x % 4294967296) as u32 == u32_from_le(lo));
    assert((x / 4294967296) as u32 == u32_from_le(hi));
    assert(u64_le(x) =~= lo + hi);
    assert(lo + hi =~= s);
}

/// Stores `x` at `buf[at..at + 4]`, least significant byte first.
pub fn put_u32(buf: &mut Vec<u8>, at: usize, x: u32)
    requires
        at + 4 <= old(buf).len(),
    ensures
        final(buf)@ == old(buf)@.subrange(0, at as int) + u32_le(x) + old(buf)@.subrange(
            at + 4,
            old(buf).len() as int,
        ),
{
    buf.set(at, (x % 256) as u8);
    buf.set(at + 1, (x / 256 % 256) as u8);
    buf.set(at + 2, (x / 65536 % 256) as u8);
    buf.set(at + 3, (x / 16777216 % 256) as u8);
    assert(buf@ =~= old(buf)@.subrange(0, at as int) + u32_le(x) + old(buf)@.subrange(
        at + 4,
        old(buf).len() as int,
    ));
}

/// Stores `x` at `buf[at..at + 8]`, least significant byte first.
pub fn put_u64(buf: &mut Vec<u8>, at: usize, x: u64)
    requires
        at + 8 <= old(buf).len(),
    ensures
        final(buf)@ == old(buf)@.subrange(0, at as int) + u64_le(x) + old(buf)@.subrange(
            at + 8,
            old(buf).len() as int,
        ),
{
    let lo = (x % 4294967296) as u32;
    let hi = (x / 4294967296) as u32;
    put_u32(buf, at, lo);
    put_u32(buf, at + 4, hi);
    assert(buf@ =~= old(buf)@.subrange(0, at as int) + u64_le(x) + old(buf)@.subrange(
        at + 8,
        old(buf).len() as int,
    ));
}

/// Reads the `u32` stored at `buf[at..at + 4]`.
pub fn get_u32(buf: &[u8], at: usize) -> (x: u32)
    requires
        at + 4 <= buf.len(),
    ensures
        x == u32_from_le(buf@.subrange(at as int, at + 4)),
{
    let b0 = buf[at] as u32;
    let b1 = buf[at + 1] as u32;
    let b2 = buf[at + 2] as u32;
    let b3 = buf[at + 3] as u32;
    b0 + 256 * b1 + 65536 * b2 + 16777216 * b3
}

/// Reads the `u64` stored at `buf[at..at + 8]`.
pub fn get_u64(buf: &[u8], at: usize) -> (x: u64)
    requires
        at + 8 <= buf.len(),
    ensures
        x == u64_from_le(buf@.subrange(at as int, at + 8)),
{
    let lo = get_u32(buf, at) as u64;
    let hi = get_u32(buf, at + 4) as u64;
    proof {
        let s = buf@.subrange(at as int, at + 8);
        assert(s.subrange(0, 4) =~= buf@.subrange(at as int, at + 4));
        assert(s.subrange(4, 8) =~= buf@.subrange(at + 4, at + 8));
    }
    lo + 4294967296 * hi
}

} // verus!
