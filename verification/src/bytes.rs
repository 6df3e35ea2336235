//! Little- and big-endian 16/32-bit fields over byte sequences.
//!
//! The netlink header and the native fields of a diagnostic record are
//! little-endian on the supported platform; ports and addresses inside a
//! record are big-endian on the wire.

use vstd::prelude::*;

verus! {

/// Little-endian 16-bit value at offset `i`.
pub open spec fn le16(s: Seq<u8>, i: int) -> u16 {
    (s[i] as u16) | ((s[i + 1] as u16) << 8)
}

/// Little-endian 32-bit value at offset `i`.
pub open spec fn le32(s: Seq<u8>, i: int) -> u32 {
    (s[i] as u32) | ((s[i + 1] as u32) << 8) | ((s[i + 2] as u32) << 16) | ((s[i + 3] as u32)
        << 24)
}

/// Big-endian 16-bit value at offset `i`.
pub open spec fn be16(s: Seq<u8>, i: int) -> u16 {
    ((s[i] as u16) << 8) | (s[i + 1] as u16)
}

/// Big-endian 32-bit value at offset `i`.
pub open spec fn be32(s: Seq<u8>, i: int) -> u32 {
    ((s[i] as u32) << 24) | ((s[i + 1] as u32) << 16) | ((s[i + 2] as u32) << 8) | (s[i
        + 3] as u32)
}

/// The two little-endian bytes of a 16-bit value.
pub open spec fn le16_bytes(x: u16) -> Seq<u8> {
    seq![(x & 0xff) as u8, ((x >> 8) & 0xff) as u8]
}

/// The four little-endian bytes of a 32-bit value.
pub open spec fn le32_bytes(x: u32) -> Seq<u8> {
    seq![
        (x & 0xff) as u8,
        ((x >> 8) & 0xff) as u8,
        ((x >> 16) & 0xff) as u8,
        ((x >> 24) & 0xff) as u8,
    ]
}

/// Reading back the two little-endian bytes of `x` yields `x`.
pub proof fn lemma_le16_roundtrip(x: u16)
    ensures
        le16(le16_bytes(x), 0) == x,
{
    assert(((x & 0xff) as u8 as u16) | ((((x >> 8) & 0xff) as u8 as u16) << 8) == x)
        by (bit_vector);
}

/// Reading back the four little-endian bytes of `x` yields `x`.
pub proof fn lemma_le32_roundtrip(x: u32)
    ensures
        le32(le32_bytes(x), 0) == x,
{
    assert(((x & 0xff) as u8 as u32) | ((((x >> 8) & 0xff) as u8 as u32) << 8) | ((((x >> 16)
        & 0xff) as u8 as u32) << 16) | ((((x >> 24) & 0xff) as u8 as u32) << 24) == x)
        by (bit_vector);
}

/// A 16-bit field read anywhere a copy of `le16_bytes(x)` sits yields `x`.
pub proof fn lemma_le16_at(s: Seq<u8>, i: int, x: u16)
    requires
        0 <= i,
        i + 2 <= s.len(),
        s[i] == le16_bytes(x)[0],
        s[i + 1] == le16_bytes(x)[1],
    ensures
        le16(s, i) == x,
{
    lemma_le16_roundtrip(x);
}

/// A 32-bit field read anywhere a copy of `le32_bytes(x)` sits yields `x`.
pub proof fn lemma_le32_at(s: Seq<u8>, i: int, x: u32)
    requires
        0 <= i,
        i + 4 <= s.len(),
        s[i] == le32_bytes(x)[0],
        s[i + 1] == le32_bytes(x)[1],
        s[i + 2] == le32_bytes(x)[2],
        s[i + 3] == le32_bytes(x)[3],
    ensures
        le32(s, i) == x,
{
    lemma_le32_roundtrip(x);
}

/// Reads the little-endian 16-bit field at offset `i`.
pub fn read_le16(b: &Vec<u8>, i: usize) -> (r: u16)
    requires
        i + 2 <= b@.len(),
    ensures
        r == le16(b@, i as int),
{
    let n = b.len();
    (b[i] as u16) | ((b[i + 1] as u16) << 8)
}

/// Reads the little-endian 32-bit field at offset `i`.
pub fn read_le32(b: &Vec<u8>, i: usize) -> (r: u32)
    requires
        i + 4 <= b@.len(),
    ensures
        r == le32(b@, i as int),
{
    let n = b.len();
    (b[i] as u32) | ((b[i + 1] as u32) << 8) | ((b[i + 2] as u32) << 16) | ((b[i + 3] as u32)
        << 24)
}

/// Reads the big-endian 16-bit field at offset `i`.
pub fn read_be16(b: &Vec<u8>, i: usize) -> (r: u16)
    requires
        i + 2 <= b@.len(),
    ensures
        r == be16(b@, i as int),
{
    let n = b.len();
    ((b[i] as u16) << 8) | (b[i + 1] as u16)
}

/// Reads the big-endian 32-bit field at offset `i`.
pub fn read_be32(b: &Vec<u8>, i: usize) -> (r: u32)
    requires
        i + 4 <= b@.len(),
    ensures
        r == be32(b@, i as int),
{
    let n = b.len();
    ((b[i] as u32) << 24) | ((b[i + 1] as u32) << 16) | ((b[i + 2] as u32) << 8) | (b[i
        + 3] as u32)
}

/// Appends the two little-endian bytes of `x`.
pub fn push_le16(v: &mut Vec<u8>, x: u16)
    ensures
        final(v)@ == old(v)@ + le16_bytes(x),
{
    assert(x & 0xff < 256 && (x >> 8) & 0xff < 256) by (bit_vector);
    v.push((x & 0xff) as u8);
    v.push(((x >> 8) & 0xff) as u8);
    assert(v@ =~= old(v)@ + le16_bytes(x));
}

/// Appends the four little-endian bytes of `x`.
pub fn push_le32(v: &mut Vec<u8>, x: u32)
    ensures
        final(v)@ == old(v)@ + le32_bytes(x),
{
    assert(x & 0xff < 256 && (x >> 8) & 0xff < 256 && (x >> 16) & 0xff < 256 && (x >> 24) & 0xff
        < 256) by (bit_vector);
    v.push((x & 0xff) as u8);
    v.push(((x >> 8) & 0xff) as u8);
    v.push(((x >> 16) & 0xff) as u8);
    v.push(((x >> 24) & 0xff) as u8);
    assert(v@ =~= old(v)@ + le32_bytes(x));
}

} // verus!
