//! Little-endian encoding of integers as bytes.
use vstd::prelude::*;

verus! {

/// The `u16` whose little-endian bytes are `b0, b1`.
pub open spec fn u16_from_le(b0: u8, b1: u8) -> u16 {
    (b0 as u16) | ((b1 as u16) << 8u16)
}

/// The `u32` whose little-endian bytes are `b0 .. b3`.
pub open spec fn u32_from_le(b0: u8, b1: u8, b2: u8, b3: u8) -> u32 {
    (b0 as u32) | ((b1 as u32) << 8u32) | ((b2 as u32) << 16u32) | ((b3 as u32) << 24u32)
}

/// The `u64` whose little-endian bytes are `b0 .. b7`.
pub open spec fn u64_from_le(b0: u8, b1: u8, b2: u8, b3: u8, b4: u8, b5: u8, b6: u8, b7: u8) -> u64 {
    (b0 as u64) | ((b1 as u64) << 8u64) | ((b2 as u64) << 16u64) | ((b3 as u64) << 24u64) | ((
    b4 as u64) << 32u64) | ((b5 as u64) << 40u64) | ((b6 as u64) << 48u64) | ((b7 as u64)
        << 56u64)
}

/// The little-endian `u16` stored in `s` at index `i`.
pub open spec fn le_u16_at(s: Seq<u8>, i: int) -> u16 {
    u16_from_le(s[i], s[i + 1])
}

/// The little-endian `u32` stored in `s` at index `i`.
pub open spec fn le_u32_at(s: Seq<u8>, i: int) -> u32 {
    u32_from_le(s[i], s[i + 1], s[i + 2], s[i + 3])
}

/// The little-endian `u64` stored in `s` at index `i`.
pub open spec fn le_u64_at(s: Seq<u8>, i: int) -> u64 {
    u64_from_le(s[i], s[i + 1], s[i + 2], s[i + 3], s[i + 4], s[i + 5], s[i + 6], s[i + 7])
}

/// The little-endian bytes of a `u16`.
pub open spec fn u16_le_bytes(v: u16) -> Seq<u8> {
    seq![(v & 0xffu16) as u8, ((v >> 8u16) & 0xffu16) as u8]
}

/// The little-endian bytes of a `u32`.
pub open spec fn u32_le_bytes(v: u32) -> Seq<u8> {
    seq![
        (v & 0xffu32) as u8,
        ((v >> 8u32) & 0xffu32) as u8,
        ((v >> 16u32) & 0xffu32) as u8,
        ((v >> 24u32) & 0xffu32) as u8,
    ]
}

/// The little-endian bytes of a `u64`.
pub open spec fn u64_le_bytes(v: u64) -> Seq<u8> {
    seq![
        (v & 0xffu64) as u8,
        ((v >> 8u64) & 0xffu64) as u8,
        ((v >> 16u64) & 0xffu64) as u8,
        ((v >> 24u64) & 0xffu64) as u8,
        ((v >> 32u64) & 0xffu64) as u8,
        ((v >> 40u64) & 0xffu64) as u8,
        ((v >> 48u64) & 0xffu64) as u8,
        ((v >> 56u64) & 0xffu64) as u8,
    ]
}

/// Reading back the little-endian bytes of a `u16` gives the value.
pub proof fn lemma_u16_roundtrip(v: u16)
    ensures
        le_u16_at(u16_le_bytes(v), 0) == v,
{
    let b = u16_le_bytes(v);
    let b0 = (v & 0xffu16) as u8;
    let b1 = ((v >> 8u16) & 0xffu16) as u8;
    assert(b[0] == b0 && b[1] == b1);
    assert(u16_from_le(b0, b1) == v) by (bit_vector)
        requires
            b0 == (v & 0xffu16) as u8,
            b1 == ((v >> 8u16) & 0xffu16) as u8,
    ;
}

/// Reading back the little-endian bytes of a `u32` gives the value.
pub proof fn lemma_u32_roundtrip(v: u32)
    ensures
        le_u32_at(u32_le_bytes(v), 0) == v,
{
    let b = u32_le_bytes(v);
    let b0 = (v & 0xffu32) as u8;
    let b1 = ((v >> 8u32) & 0xffu32) as u8;
    let b2 = ((v >> 16u32) & 0xffu32) as u8;
    let b3 = ((v >> 24u32) & 0xffu32) as u8;
    assert(b[0] == b0 && b[1] == b1 && b[2] == b2 && b[3] == b3);
    assert(u32_from_le(b0, b1, b2, b3) == v) by (bit_vector)
        requires
            b0 == (v & 0xffu32) as u8,
            b1 == ((v >> 8u32) & 0xffu32) as u8,
            b2 == ((v >> 16u32) & 0xffu32) as u8,
            b3 == ((v >> 24u32) & 0xffu32) as u8,
    ;
}

/// Reading back the little-endian bytes of a `u64` gives the value.
pub proof fn lemma_u64_roundtrip(v: u64)
    ensures
        le_u64_at(u64_le_bytes(v), 0) == v,
{
    let b = u64_le_bytes(v);
    let b0 = (v & 0xffu64) as u8;
    let b1 = ((v >> 8u64) & 0xffu64) as u8;
    let b2 = ((v >> 16u64) & 0xffu64) as u8;
    let b3 = ((v >> 24u64) & 0xffu64) as u8;
    let b4 = ((v >> 32u64) & 0xffu64) as u8;
    let b5 = ((v >> 40u64) & 0xffu64) as u8;
    let b6 = ((v >> 48u64) & 0xffu64) as u8;
    let b7 = ((v >> 56u64) & 0xffu64) as u8;
    assert(b[0] == b0 && b[1] == b1 && b[2] == b2 && b[3] == b3);
    assert(b[4] == b4 && b[5] == b5 && b[6] == b6 && b[7] == b7);
    assert(u64_from_le(b0, b1, b2, b3, b4, b5, b6, b7) == v) by (bit_vector)
        requires
            b0 == (v & 0xffu64) as u8,
            b1 == ((v >> 8u64) & 0xffu64) as u8,
            b2 == ((v >> 16u64) & 0xffu64) as u8,
            b3 == ((v >> 24u64) & 0xffu64) as u8,
            b4 == ((v >> 32u64) & 0xffu64) as u8,
            b5 == ((v >> 40u64) & 0xffu64) as u8,
            b6 == ((v >> 48u64) & 0xffu64) as u8,
            b7 == ((v >> 56u64) & 0xffu64) as u8,
    ;
}

/// Reads the little-endian `u16` at index `i` of `s`.
pub fn read_le_u16(s: &[u8], i: usize) -> (v: u16)
    requires
        i + 2 <= s@.len(),
    ensures
        v == le_u16_at(s@, i as int),
{
    (s[i] as u16) | ((s[i + 1] as u16) << 8u16)
}

/// Reads the little-endian `u32` at index `i` of `s`.
pub fn read_le_u32(s: &[u8], i: usize) -> (v: u32)
    requires
        i + 4 <= s@.len(),
    ensures
        v == le_u32_at(s@, i as int),
{
    (s[i] as u32) | ((s[i + 1] as u32) << 8u32) | ((s[i + 2] as u32) << 16u32) | ((s[i + 3] as u32)
        << 24u32)
}

/// Reads the little-endian `u64` at index `i` of `s`.
pub fn read_le_u64(s: &[u8], i: usize) -> (v: u64)
    requires
        i + 8 <= s@.len(),
    ensures
        v == le_u64_at(s@, i as int),
{
    (s[i] as u64) | ((s[i + 1] as u64) << 8u64) | ((s[i + 2] as u64) << 16u64) | ((s[i + 3] as u64)
        << 24u64) | ((s[i + 4] as u64) << 32u64) | ((s[i + 5] as u64) << 40u64) | ((s[i + 6] as u64)
        << 48u64) | ((s[i + 7] as u64) << 56u64)
}

/// The value of little-endian bytes: the first byte counts ones, the next
/// 256s, the next 65536s, and so on.
pub proof fn lemma_le_values(b0: u8, b1: u8, b2: u8, b3: u8, b4: u8, b5: u8, b6: u8, b7: u8)
    ensures
        u16_from_le(b0, b1) == b0 + 256 * b1,
        u32_from_le(b0, b1, b2, b3) == b0 + 256 * b1 + 65536 * b2 + 16777216 * b3,
        u64_from_le(b0, b1, b2, b3, b4, b5, b6, b7) == b0 + 256 * b1 + 65536 * b2 + 16777216 * b3
            + 4294967296 * b4 + 1099511627776 * b5 + 281474976710656 * b6 + 72057594037927936
            * b7,
{
    assert(u16_from_le(b0, b1) == b0 + 256 * b1) by (bit_vector);
    assert(u32_from_le(b0, b1, b2, b3) == b0 + 256 * b1 + 65536 * b2 + 16777216 * b3)
        by (bit_vector);
    assert(u64_from_le(b0, b1, b2, b3, b4, b5, b6, b7) == b0 + 256 * b1 + 65536 * b2 + 16777216
        * b3 + 4294967296 * b4 + 1099511627776 * b5 + 281474976710656 * b6 + 72057594037927936 * b7)
        by (bit_vector);
}

/// The little-endian bytes of a value: byte `k` is the value's digit `k` in
/// base 256.
pub proof fn lemma_le_bytes(v: u64)
    ensures
        u16_le_bytes(v as u16).len() == 2,
        u16_le_bytes(v as u16)[0] == v % 256,
        u16_le_bytes(v as u16)[1] == (v / 256) % 256,
        u32_le_bytes(v as u32).len() == 4,
        u32_le_bytes(v as u32)[0] == v % 256,
        u32_le_bytes(v as u32)[1] == (v / 256) % 256,
        u32_le_bytes(v as u32)[2] == (v / 65536) % 256,
        u32_le_bytes(v as u32)[3] == (v / 16777216) % 256,
        u64_le_bytes(v).len() == 8,
        u64_le_bytes(v)[0] == v % 256,
        u64_le_bytes(v)[1] == (v / 256) % 256,
        u64_le_bytes(v)[2] == (v / 65536) % 256,
        u64_le_bytes(v)[3] == (v / 16777216) % 256,
        u64_le_bytes(v)[4] == (v / 4294967296) % 256,
        u64_le_bytes(v)[5] == (v / 1099511627776) % 256,
        u64_le_bytes(v)[6] == (v / 281474976710656) % 256,
        u64_le_bytes(v)[7] == (v / 72057594037927936) % 256,
{
    let h = v as u16;
    let w = v as u32;
    assert(((h & 0xffu16) as u8) == v % 256 && (((h >> 8u16) & 0xffu16) as u8) == (v / 256) % 256)
        by (bit_vector)
        requires
            h == v as u16,
    ;
    assert(((w & 0xffu32) as u8) == v % 256 && (((w >> 8u32) & 0xffu32) as u8) == (v / 256) % 256
        && (((w >> 16u32) & 0xffu32) as u8) == (v / 65536) % 256 && (((w >> 24u32) & 0xffu32) as u8)
        == (v / 16777216) % 256) by (bit_vector)
        requires
            w == v as u32,
    ;
    assert(((v & 0xffu64) as u8) == v % 256 && (((v >> 8u64) & 0xffu64) as u8) == (v / 256) % 256
        && (((v >> 16u64) & 0xffu64) as u8) == (v / 65536) % 256 && (((v >> 24u64) & 0xffu64) as u8)
        == (v / 16777216) % 256) by (bit_vector);
    assert((((v >> 32u64) & 0xffu64) as u8) == (v / 4294967296) % 256 && (((v >> 40u64) & 0xffu64)
        as u8) == (v / 1099511627776) % 256 && (((v >> 48u64) & 0xffu64) as u8) == (v
        / 281474976710656) % 256 && (((v >> 56u64) & 0xffu64) as u8) == (v / 72057594037927936)
        % 256) by (bit_vector);
}

} // verus!
