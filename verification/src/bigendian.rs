//! Integers as big-endian bytes: the most significant byte comes first, and
//! a signed number is written as its two's complement.

use vstd::prelude::*;

verus! {

/// The number that two bytes spell, most significant first.
pub open spec fn be16(s: Seq<u8>) -> int
    recommends
        s.len() == 2,
{
    s[0] as int * 0x100 + s[1] as int
}

/// The number that four bytes spell, most significant first.
pub open spec fn be32(s: Seq<u8>) -> int
    recommends
        s.len() == 4,
{
    s[0] as int * 0x100_0000 + s[1] as int * 0x1_0000 + s[2] as int * 0x100 + s[3] as int
}

/// The number that eight bytes spell, most significant first.
pub open spec fn be64(s: Seq<u8>) -> int
    recommends
        s.len() == 8,
{
    be32(s.subrange(0, 4)) * 0x1_0000_0000 + be32(s.subrange(4, 8))
}

/// Byte of `v` that counts multiples of `weight`, a power of 256.
pub open spec fn byte_at(v: int, weight: int) -> u8 {
    ((v / weight) % 0x100) as u8
}

/// The two bytes that spell `v`, for `0 <= v < 2^16`.
pub open spec fn be16_bytes(v: int) -> Seq<u8> {
    seq![byte_at(v, 0x100), byte_at(v, 1)]
}

/// The four bytes that spell `v`, for `0 <= v < 2^32`.
pub open spec fn be32_bytes(v: int) -> Seq<u8> {
    seq![byte_at(v, 0x100_0000), byte_at(v, 0x1_0000), byte_at(v, 0x100), byte_at(v, 1)]
}

/// The eight bytes that spell `v`, for `0 <= v < 2^64`.
pub open spec fn be64_bytes(v: int) -> Seq<u8> {
    be32_bytes(v / 0x1_0000_0000) + be32_bytes(v % 0x1_0000_0000)
}

/// The pattern of the signed number `x` read as an unsigned number below
/// `modulus`, a power of two: its two's complement.
pub open spec fn unsigned(x: int, modulus: int) -> int {
    if x < 0 {
        x + modulus
    } else {
        x
    }
}

/// The signed number whose two's complement below `modulus` is `v`.
pub open spec fn signed(v: int, modulus: int) -> int {
    if 2 * v >= modulus {
        v - modulus
    } else {
        v
    }
}

/// Appends the two bytes of `v`.
pub fn push_u16(out: &mut Vec<u8>, v: u16)
    ensures
        final(out)@ == old(out)@ + be16_bytes(v as int),
{
    let hi: u8 = (v / 0x100) as u8;
    let lo: u8 = (v % 0x100) as u8;
    out.push(hi);
    out.push(lo);
    assert(out@ =~= old(out)@ + be16_bytes(v as int));
}

/// Appends the two bytes of the two's complement of `v`.
pub fn push_i16(out: &mut Vec<u8>, v: i16)
    ensures
        final(out)@ == old(out)@ + be16_bytes(unsigned(v as int, 0x1_0000)),
{
    let wide: i32 = if v < 0 {
        v as i32 + 0x1_0000
    } else {
        v as i32
    };
    push_u16(out, wide as u16);
}

/// Appends the four bytes of `v`.
pub fn push_u32(out: &mut Vec<u8>, v: u32)
    ensures
        final(out)@ == old(out)@ + be32_bytes(v as int),
{
    let b0: u8 = (v / 0x100_0000) as u8;
    let b1: u8 = ((v / 0x1_0000) % 0x100) as u8;
    let b2: u8 = ((v / 0x100) % 0x100) as u8;
    let b3: u8 = (v % 0x100) as u8;
    out.push(b0);
    out.push(b1);
    out.push(b2);
    out.push(b3);
    assert(out@ =~= old(out)@ + be32_bytes(v as int));
}

/// Appends the four bytes of the two's complement of `v`.
pub fn push_i32(out: &mut Vec<u8>, v: i32)
    ensures
        final(out)@ == old(out)@ + be32_bytes(unsigned(v as int, 0x1_0000_0000)),
{
    let wide: i64 = if v < 0 {
        v as i64 + 0x1_0000_0000
    } else {
        v as i64
    };
    push_u32(out, wide as u32);
}

/// Appends the eight bytes of `v`.
pub fn push_u64(out: &mut Vec<u8>, v: u64)
    ensures
        final(out)@ == old(out)@ + be64_bytes(v as int),
{
    let ghost start = out@;
    push_u32(out, (v / 0x1_0000_0000) as u32);
    push_u32(out, (v % 0x1_0000_0000) as u32);
    assert(out@ =~= start + be64_bytes(v as int));
}

/// Appends the eight bytes of the two's complement of `v`.
pub fn push_i64(out: &mut Vec<u8>, v: i64)
    ensures
        final(out)@ == old(out)@ + be64_bytes(unsigned(v as int, 0x1_0000_0000_0000_0000)),
{
    let wide: i128 = if v < 0 {
        v as i128 + 0x1_0000_0000_0000_0000
    } else {
        v as i128
    };
    push_u64(out, wide as u64);
}

/// Reads the two bytes at `at` as an unsigned number.
pub fn read_u16(bytes: &[u8], at: usize) -> (v: u16)
    requires
        at + 2 <= bytes.len(),
    ensures
        v == be16(bytes@.subrange(at as int, at + 2)),
{
    bytes[at] as u16 * 0x100 + bytes[at + 1] as u16
}

/// Reads the two bytes at `at` as a signed number in two's complement.
pub fn read_i16(bytes: &[u8], at: usize) -> (v: i16)
    requires
        at + 2 <= bytes.len(),
    ensures
        v == signed(be16(bytes@.subrange(at as int, at + 2)), 0x1_0000),
{
    let raw: u16 = read_u16(bytes, at);
    if raw >= 0x8000 {
        (raw as i32 - 0x1_0000) as i16
    } else {
        raw as i16
    }
}

/// Reads the four bytes at `at` as an unsigned number.
pub fn read_u32(bytes: &[u8], at: usize) -> (v: u32)
    requires
        at + 4 <= bytes.len(),
    ensures
        v == be32(bytes@.subrange(at as int, at + 4)),
{
    bytes[at] as u32 * 0x100_0000 + bytes[at + 1] as u32 * 0x1_0000 + bytes[at + 2] as u32 * 0x100
        + bytes[at + 3] as u32
}

/// Reads the four bytes at `at` as a signed number in two's complement.
pub fn read_i32(bytes: &[u8], at: usize) -> (v: i32)
    requires
        at + 4 <= bytes.len(),
    ensures
        v == signed(be32(bytes@.subrange(at as int, at + 4)), 0x1_0000_0000),
{
    let raw: u32 = read_u32(bytes, at);
    if raw >= 0x8000_0000 {
        (raw as i64 - 0x1_0000_0000) as i32
    } else {
        raw as i32
    }
}

/// Reads the eight bytes at `at` as an unsigned number.
pub fn read_u64(bytes: &[u8], at: usize) -> (v: u64)
    requires
        at + 8 <= bytes.len(),
    ensures
        v == be64(bytes@.subrange(at as int, at + 8)),
{
    let hi: u32 = read_u32(bytes, at);
    let lo: u32 = read_u32(bytes, at + 4);
    proof {
        let s = bytes@.subrange(at as int, at + 8);
        assert(s.subrange(0, 4) =~= bytes@.subrange(at as int, at + 4));
        assert(s.subrange(4, 8) =~= bytes@.subrange(at + 4, at + 8));
    }
    hi as u64 * 0x1_0000_0000 + lo as u64
}

/// Reads the eight bytes at `at` as a signed number in two's complement.
pub fn read_i64(bytes: &[u8], at: usize) -> (v: i64)
    requires
        at + 8 <= bytes.len(),
    ensures
        v == signed(be64(bytes@.subrange(at as int, at + 8)), 0x1_0000_0000_0000_0000),
{
    let raw: u64 = read_u64(bytes, at);
    if raw >= 0x8000_0000_0000_0000 {
        (raw as i128 - 0x1_0000_0000_0000_0000) as i64
    } else {
        raw as i64
    }
}

/// Two bytes written for a number spell that number.
pub proof fn lemma_be16_round_trip(v: int)
    requires
        0 <= v < 0x1_0000,
    ensures
        be16_bytes(v).len() == 2,
        be16(be16_bytes(v)) == v,
{
}

/// Four bytes written for a number spell that number.
pub proof fn lemma_be32_round_trip(v: int)
    requires
        0 <= v < 0x1_0000_0000,
    ensures
        be32_bytes(v).len() == 4,
        be32(be32_bytes(v)) == v,
{
}

/// Eight bytes written for a number spell that number.
pub proof fn lemma_be64_round_trip(v: int)
    requires
        0 <= v < 0x1_0000_0000_0000_0000,
    ensures
        be64_bytes(v).len() == 8,
        be64(be64_bytes(v)) == v,
{
    let hi = v / 0x1_0000_0000;
    let lo = v % 0x1_0000_0000;
    lemma_be32_round_trip(hi);
    lemma_be32_round_trip(lo);
    let s = be64_bytes(v);
    assert(s.subrange(0, 4) =~= be32_bytes(hi));
    assert(s.subrange(4, 8) =~= be32_bytes(lo));
}

/// A signed number comes back from its two's complement.
pub proof fn lemma_signed_round_trip(x: int, modulus: int)
    requires
        modulus > 0,
        modulus % 2 == 0,
        -(modulus / 2) <= x < modulus / 2,
    ensures
        0 <= unsigned(x, modulus) < modulus,
        signed(unsigned(x, modulus), modulus) == x,
{
}

} // verus!
