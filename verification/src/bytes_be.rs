//! Big-endian byte layouts of fixed-width integers.

use vstd::prelude::*;

verus! {

/// The two bytes of `v`, most significant first.
pub open spec fn be16(v: u16) -> Seq<u8> {
    seq![(v >> 8u16) as u8, (v & 0xffu16) as u8]
}

/// The four bytes of `v`, most significant first.
pub open spec fn be32(v: u32) -> Seq<u8> {
    seq![
        (v >> 24u32) as u8,
        ((v >> 16u32) & 0xffu32) as u8,
        ((v >> 8u32) & 0xffu32) as u8,
        (v & 0xffu32) as u8,
    ]
}

/// The eight bytes of `v`, most significant first.
pub open spec fn be64(v: u64) -> Seq<u8> {
    seq![
        (v >> 56u64) as u8,
        ((v >> 48u64) & 0xffu64) as u8,
        ((v >> 40u64) & 0xffu64) as u8,
        ((v >> 32u64) & 0xffu64) as u8,
        ((v >> 24u64) & 0xffu64) as u8,
        ((v >> 16u64) & 0xffu64) as u8,
        ((v >> 8u64) & 0xffu64) as u8,
        (v & 0xffu64) as u8,
    ]
}

pub open spec fn from_be16(a: u8, b: u8) -> u16 {
    ((a as u16) << 8u16) | (b as u16)
}

pub open spec fn from_be32(a: u8, b: u8, c: u8, d: u8) -> u32 {
    ((a as u32) << 24u32) | ((b as u32) << 16u32) | ((c as u32) << 8u32) | (d as u32)
}

pub open spec fn from_be64(a: u8, b: u8, c: u8, d: u8, e: u8, f: u8, g: u8, h: u8) -> u64 {
    ((a as u64) << 56u64) | ((b as u64) << 48u64) | ((c as u64) << 40u64) | ((d as u64) << 32u64)
        | ((e as u64) << 24u64) | ((f as u64) << 16u64) | ((g as u64) << 8u64) | (h as u64)
}

/// The value read back from a sequence of big-endian bytes starting at `i`.
pub open spec fn read_be16(s: Seq<u8>, i: int) -> u16 {
    from_be16(s[i], s[i + 1])
}

pub open spec fn read_be32(s: Seq<u8>, i: int) -> u32 {
    from_be32(s[i], s[i + 1], s[i + 2], s[i + 3])
}

pub open spec fn read_be64(s: Seq<u8>, i: int) -> u64 {
    from_be64(s[i], s[i + 1], s[i + 2], s[i + 3], s[i + 4], s[i + 5], s[i + 6], s[i + 7])
}

pub proof fn lemma_be16_roundtrip(v: u16)
    ensures
        from_be16((v >> 8u16) as u8, (v & 0xffu16) as u8) == v,
{
    assert(((((v >> 8u16) as u8) as u16) << 8u16) | (((v & 0xffu16) as u8) as u16) == v)
        by (bit_vector);
}

pub proof fn lemma_be32_roundtrip(v: u32)
    ensures
        from_be32(
            (v >> 24u32) as u8,
            ((v >> 16u32) & 0xffu32) as u8,
            ((v >> 8u32) & 0xffu32) as u8,
            (v & 0xffu32) as u8,
        ) == v,
{
    assert(((((v >> 24u32) as u8) as u32) << 24u32) | (((((v >> 16u32) & 0xffu32) as u8) as u32)
        << 16u32) | (((((v >> 8u32) & 0xffu32) as u8) as u32) << 8u32) | (((v & 0xffu32) as u8)
        as u32) == v) by (bit_vector);
}

pub proof fn lemma_be64_roundtrip(v: u64)
    ensures
        from_be64(
            (v >> 56u64) as u8,
            ((v >> 48u64) & 0xffu64) as u8,
            ((v >> 40u64) & 0xffu64) as u8,
            ((v >> 32u64) & 0xffu64) as u8,
            ((v >> 24u64) & 0xffu64) as u8,
            ((v >> 16u64) & 0xffu64) as u8,
            ((v >> 8u64) & 0xffu64) as u8,
            (v & 0xffu64) as u8,
        ) == v,
{
    assert(((((v >> 56u64) as u8) as u64) << 56u64) | (((((v >> 48u64) & 0xffu64) as u8) as u64)
        << 48u64) | (((((v >> 40u64) & 0xffu64) as u8) as u64) << 40u64) | (((((v >> 32u64)
        & 0xffu64) as u8) as u64) << 32u64) | (((((v >> 24u64) & 0xffu64) as u8) as u64) << 24u64)
        | (((((v >> 16u64) & 0xffu64) as u8) as u64) << 16u64) | (((((v >> 8u64) & 0xffu64)
        as u8) as u64) << 8u64) | (((v & 0xffu64) as u8) as u64) == v) by (bit_vector);
}

pub proof fn lemma_from_be16_bytes(a: u8, b: u8)
    ensures
        be16(from_be16(a, b)) == seq![a, b],
{
    let v = from_be16(a, b);
    assert((v >> 8u16) as u8 == a && (v & 0xffu16) as u8 == b) by (bit_vector)
        requires
            v == ((a as u16) << 8u16) | (b as u16),
    ;
    assert(be16(v) =~= seq![a, b]);
}

pub proof fn lemma_from_be32_bytes(a: u8, b: u8, c: u8, d: u8)
    ensures
        be32(from_be32(a, b, c, d)) == seq![a, b, c, d],
{
    let v = from_be32(a, b, c, d);
    assert((v >> 24u32) as u8 == a && ((v >> 16u32) & 0xffu32) as u8 == b && ((v >> 8u32)
        & 0xffu32) as u8 == c && (v & 0xffu32) as u8 == d) by (bit_vector)
        requires
            v == ((a as u32) << 24u32) | ((b as u32) << 16u32) | ((c as u32) << 8u32) | (d as u32),
    ;
    assert(be32(v) =~= seq![a, b, c, d]);
}

pub proof fn lemma_from_be64_bytes(a: u8, b: u8, c: u8, d: u8, e: u8, f: u8, g: u8, h: u8)
    ensures
        be64(from_be64(a, b, c, d, e, f, g, h)) == seq![a, b, c, d, e, f, g, h],
{
    let v = from_be64(a, b, c, d, e, f, g, h);
    assert((v >> 56u64) as u8 == a && ((v >> 48u64) & 0xffu64) as u8 == b && ((v >> 40u64)
        & 0xffu64) as u8 == c && ((v >> 32u64) & 0xffu64) as u8 == d && ((v >> 24u64) & 0xffu64)
        as u8 == e && ((v >> 16u64) & 0xffu64) as u8 == f && ((v >> 8u64) & 0xffu64) as u8 == g
        && (v & 0xffu64) as u8 == h) by (bit_vector)
        requires
            v == ((a as u64) << 56u64) | ((b as u64) << 48u64) | ((c as u64) << 40u64) | ((d
                as u64) << 32u64) | ((e as u64) << 24u64) | ((f as u64) << 16u64) | ((g as u64)
                << 8u64) | (h as u64),
    ;
    assert(be64(v) =~= seq![a, b, c, d, e, f, g, h]);
}

} // verus!
