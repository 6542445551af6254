//! Byte-level layout of the integer and floating-point fields.
//!
//! The shapefile format mixes big-endian fields (file header prefix, record
//! framing) with little-endian fields (everything else).  Every field is
//! specified here as a mathematical function of the byte sequence, together
//! with the inverse encoding and round-trip lemmas.

use vstd::prelude::*;

verus! {

// ----------------------------------------------------------------------------
// Decoding: field value as a function of the bytes.
// ----------------------------------------------------------------------------

/// Little-endian 32-bit value found at byte offset `i` of `s`.
pub open spec fn le_u32_at(s: Seq<u8>, i: int) -> u32 {
    (s[i] as u32) | ((s[i + 1] as u32) << 8) | ((s[i + 2] as u32) << 16) | ((s[i + 3] as u32)
        << 24)
}

/// Big-endian 32-bit value found at byte offset `i` of `s`.
pub open spec fn be_u32_at(s: Seq<u8>, i: int) -> u32 {
    ((s[i] as u32) << 24) | ((s[i + 1] as u32) << 16) | ((s[i + 2] as u32) << 8) | (s[i + 3]
        as u32)
}

/// Little-endian signed 32-bit field at byte offset `i` of `s`.
pub open spec fn le_i32_at(s: Seq<u8>, i: int) -> i32 {
    le_u32_at(s, i) as i32
}

/// Big-endian signed 32-bit field at byte offset `i` of `s`.
pub open spec fn be_i32_at(s: Seq<u8>, i: int) -> i32 {
    be_u32_at(s, i) as i32
}

/// Little-endian 64-bit value found at byte offset `i` of `s`.  Shapefile
/// doubles are stored this way; the value is the IEEE 754 bit pattern.
pub open spec fn le_u64_at(s: Seq<u8>, i: int) -> u64 {
    (s[i] as u64) | ((s[i + 1] as u64) << 8) | ((s[i + 2] as u64) << 16) | ((s[i + 3] as u64)
        << 24) | ((s[i + 4] as u64) << 32) | ((s[i + 5] as u64) << 40) | ((s[i + 6] as u64)
        << 48) | ((s[i + 7] as u64) << 56)
}

// ----------------------------------------------------------------------------
// Encoding: bytes as a function of the field value.
// ----------------------------------------------------------------------------

/// The four bytes of `v` in little-endian order.
pub open spec fn le_u32_bytes(v: u32) -> Seq<u8> {
    seq![
        (v & 0xff) as u8,
        ((v >> 8) & 0xff) as u8,
        ((v >> 16) & 0xff) as u8,
        ((v >> 24) & 0xff) as u8,
    ]
}

/// The four bytes of `v` in big-endian order.
pub open spec fn be_u32_bytes(v: u32) -> Seq<u8> {
    seq![
        ((v >> 24) & 0xff) as u8,
        ((v >> 16) & 0xff) as u8,
        ((v >> 8) & 0xff) as u8,
        (v & 0xff) as u8,
    ]
}

/// The four bytes of signed `v` in little-endian order.
pub open spec fn le_i32_bytes(v: i32) -> Seq<u8> {
    le_u32_bytes(v as u32)
}

/// The four bytes of signed `v` in big-endian order.
pub open spec fn be_i32_bytes(v: i32) -> Seq<u8> {
    be_u32_bytes(v as u32)
}

/// The eight bytes of `v` in little-endian order.
pub open spec fn le_u64_bytes(v: u64) -> Seq<u8> {
    seq![
        (v & 0xff) as u8,
        ((v >> 8) & 0xff) as u8,
        ((v >> 16) & 0xff) as u8,
        ((v >> 24) & 0xff) as u8,
        ((v >> 32) & 0xff) as u8,
        ((v >> 40) & 0xff) as u8,
        ((v >> 48) & 0xff) as u8,
        ((v >> 56) & 0xff) as u8,
    ]
}

// ----------------------------------------------------------------------------
// Round-trip lemmas: re-encoding a decoded field reproduces the bytes.
// ----------------------------------------------------------------------------

pub proof fn lemma_le_u32_roundtrip(s: Seq<u8>, i: int)
    requires
        0 <= i,
        i + 4 <= s.len(),
    ensures
        le_u32_bytes(le_u32_at(s, i)) =~= s.subrange(i, i + 4),
{
    let b0 = s[i];
    let b1 = s[i + 1];
    let b2 = s[i + 2];
    let b3 = s[i + 3];
    let v = le_u32_at(s, i);
    assert((v == (b0 as u32) | ((b1 as u32) << 8) | ((b2 as u32) << 16) | ((b3 as u32) << 24))
        ==> ((v & 0xff) as u8 == b0 && ((v >> 8) & 0xff) as u8 == b1 && ((v >> 16) & 0xff) as u8
        == b2 && ((v >> 24) & 0xff) as u8 == b3)) by (bit_vector);
}

pub proof fn lemma_be_u32_roundtrip(s: Seq<u8>, i: int)
    requires
        0 <= i,
        i + 4 <= s.len(),
    ensures
        be_u32_bytes(be_u32_at(s, i)) =~= s.subrange(i, i + 4),
{
    let b0 = s[i];
    let b1 = s[i + 1];
    let b2 = s[i + 2];
    let b3 = s[i + 3];
    let v = be_u32_at(s, i);
    assert((v == ((b0 as u32) << 24) | ((b1 as u32) << 16) | ((b2 as u32) << 8) | (b3 as u32))
        ==> (((v >> 24) & 0xff) as u8 == b0 && ((v >> 16) & 0xff) as u8 == b1 && ((v >> 8) & 0xff)
        as u8 == b2 && (v & 0xff) as u8 == b3)) by (bit_vector);
}

/// Casting a `u32` through `i32` and back is the identity.
pub proof fn lemma_u32_i32_cast_roundtrip(v: u32)
    ensures
        (v as i32) as u32 == v,
{
    assert((v as i32) as u32 == v) by (bit_vector);
}

pub proof fn lemma_le_i32_roundtrip(s: Seq<u8>, i: int)
    requires
        0 <= i,
        i + 4 <= s.len(),
    ensures
        le_i32_bytes(le_i32_at(s, i)) =~= s.subrange(i, i + 4),
{
    lemma_u32_i32_cast_roundtrip(le_u32_at(s, i));
    lemma_le_u32_roundtrip(s, i);
}

pub proof fn lemma_be_i32_roundtrip(s: Seq<u8>, i: int)
    requires
        0 <= i,
        i + 4 <= s.len(),
    ensures
        be_i32_bytes(be_i32_at(s, i)) =~= s.subrange(i, i + 4),
{
    lemma_u32_i32_cast_roundtrip(be_u32_at(s, i));
    lemma_be_u32_roundtrip(s, i);
}

pub proof fn lemma_le_u64_roundtrip(s: Seq<u8>, i: int)
    requires
        0 <= i,
        i + 8 <= s.len(),
    ensures
        le_u64_bytes(le_u64_at(s, i)) =~= s.subrange(i, i + 8),
{
    let b0 = s[i];
    let b1 = s[i + 1];
    let b2 = s[i + 2];
    let b3 = s[i + 3];
    let b4 = s[i + 4];
    let b5 = s[i + 5];
    let b6 = s[i + 6];
    let b7 = s[i + 7];
    let v = le_u64_at(s, i);
    assert((v == (b0 as u64) | ((b1 as u64) << 8) | ((b2 as u64) << 16) | ((b3 as u64) << 24) | (
    (b4 as u64) << 32) | ((b5 as u64) << 40) | ((b6 as u64) << 48) | ((b7 as u64) << 56)) ==> ((v
        & 0xff) as u8 == b0 && ((v >> 8) & 0xff) as u8 == b1 && ((v >> 16) & 0xff) as u8 == b2 && (
    (v >> 24) & 0xff) as u8 == b3 && ((v >> 32) & 0xff) as u8 == b4 && ((v >> 40) & 0xff) as u8
        == b5 && ((v >> 48) & 0xff) as u8 == b6 && ((v >> 56) & 0xff) as u8 == b7))
        by (bit_vector);
}

// ----------------------------------------------------------------------------
// Executable readers.
// ----------------------------------------------------------------------------

/// Reads the little-endian 32-bit field at `pos`.
pub fn read_le_u32(data: &Vec<u8>, pos: usize) -> (r: u32)
    requires
        pos + 4 <= data@.len(),
    ensures
        r == le_u32_at(data@, pos as int),
{
    let n = data.len();
    assert(pos + 4 <= n);
    let b0 = data[pos] as u32;
    let b1 = data[pos + 1] as u32;
    let b2 = data[pos + 2] as u32;
    let b3 = data[pos + 3] as u32;
    b0 | (b1 << 8) | (b2 << 16) | (b3 << 24)
}

/// Reads the big-endian 32-bit field at `pos`.
pub fn read_be_u32(data: &Vec<u8>, pos: usize) -> (r: u32)
    requires
        pos + 4 <= data@.len(),
    ensures
        r == be_u32_at(data@, pos as int),
{
    let n = data.len();
    assert(pos + 4 <= n);
    let b0 = data[pos] as u32;
    let b1 = data[pos + 1] as u32;
    let b2 = data[pos + 2] as u32;
    let b3 = data[pos + 3] as u32;
    (b0 << 24) | (b1 << 16) | (b2 << 8) | b3
}

/// Reads the little-endian signed 32-bit field at `pos`.
pub fn read_le_i32(data: &Vec<u8>, pos: usize) -> (r: i32)
    requires
        pos + 4 <= data@.len(),
    ensures
        r == le_i32_at(data@, pos as int),
{
    read_le_u32(data, pos) as i32
}

/// Reads the big-endian signed 32-bit field at `pos`.
pub fn read_be_i32(data: &Vec<u8>, pos: usize) -> (r: i32)
    requires
        pos + 4 <= data@.len(),
    ensures
        r == be_i32_at(data@, pos as int),
{
    read_be_u32(data, pos) as i32
}

/// Reads the little-endian 64-bit field at `pos` (a double's bit pattern).
pub fn read_le_u64(data: &Vec<u8>, pos: usize) -> (r: u64)
    requires
        pos + 8 <= data@.len(),
    ensures
        r == le_u64_at(data@, pos as int),
{
    let n = data.len();
    assert(pos + 8 <= n);
    let b0 = data[pos] as u64;
    let b1 = data[pos + 1] as u64;
    let b2 = data[pos + 2] as u64;
    let b3 = data[pos + 3] as u64;
    let b4 = data[pos + 4] as u64;
    let b5 = data[pos + 5] as u64;
    let b6 = data[pos + 6] as u64;
    let b7 = data[pos + 7] as u64;
    b0 | (b1 << 8) | (b2 << 16) | (b3 << 24) | (b4 << 32) | (b5 << 40) | (b6 << 48) | (b7 << 56)
}

// ----------------------------------------------------------------------------
// Executable writers.
// ----------------------------------------------------------------------------

/// Appends the little-endian bytes of `v` to `out`.
pub fn push_le_u32(out: &mut Vec<u8>, v: u32)
    ensures
        final(out)@ =~= old(out)@ + le_u32_bytes(v),
{
    out.push((v & 0xff) as u8);
    out.push(((v >> 8) & 0xff) as u8);
    out.push(((v >> 16) & 0xff) as u8);
    out.push(((v >> 24) & 0xff) as u8);
}

/// Appends the big-endian bytes of `v` to `out`.
pub fn push_be_u32(out: &mut Vec<u8>, v: u32)
    ensures
        final(out)@ =~= old(out)@ + be_u32_bytes(v),
{
    out.push(((v >> 24) & 0xff) as u8);
    out.push(((v >> 16) & 0xff) as u8);
    out.push(((v >> 8) & 0xff) as u8);
    out.push((v & 0xff) as u8);
}

/// Appends the little-endian bytes of signed `v` to `out`.
pub fn push_le_i32(out: &mut Vec<u8>, v: i32)
    ensures
        final(out)@ =~= old(out)@ + le_i32_bytes(v),
{
    push_le_u32(out, v as u32);
}

/// Appends the big-endian bytes of signed `v` to `out`.
pub fn push_be_i32(out: &mut Vec<u8>, v: i32)
    ensures
        final(out)@ =~= old(out)@ + be_i32_bytes(v),
{
    push_be_u32(out, v as u32);
}

/// Appends the little-endian bytes of `v` to `out`.
pub fn push_le_u64(out: &mut Vec<u8>, v: u64)
    ensures
        final(out)@ =~= old(out)@ + le_u64_bytes(v),
{
    out.push((v & 0xff) as u8);
    out.push(((v >> 8) & 0xff) as u8);
    out.push(((v >> 16) & 0xff) as u8);
    out.push(((v >> 24) & 0xff) as u8);
    out.push(((v >> 32) & 0xff) as u8);
    out.push(((v >> 40) & 0xff) as u8);
    out.push(((v >> 48) & 0xff) as u8);
    out.push(((v >> 56) & 0xff) as u8);
}

} // verus!
