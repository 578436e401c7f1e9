//! Verified little-endian reads and slice helpers over byte buffers.

use vstd::prelude::*;
use vstd::slice::{slice_index_get, slice_subrange, slice_to_vec};

verus! {

/// The 16-bit little-endian value stored at offset `i` of `b`.
pub open spec fn le16(b: Seq<u8>, i: int) -> u16 {
    (b[i] as u16) | ((b[i + 1] as u16) << 8)
}

/// The 32-bit little-endian value stored at offset `i` of `b`.
pub open spec fn le32(b: Seq<u8>, i: int) -> u32 {
    (b[i] as u32) | ((b[i + 1] as u32) << 8) | ((b[i + 2] as u32) << 16) | ((b[i + 3] as u32)
        << 24)
}

/// The byte at offset `i` of `b`.
pub fn byte_at(b: &[u8], i: usize) -> (r: u8)
    requires
        i < b@.len(),
    ensures
        r == b@[i as int],
{
    *slice_index_get(b, i)
}

/// Reads the 16-bit little-endian value at offset `i`.
pub fn read_u16_le(b: &[u8], i: usize) -> (r: u16)
    requires
        i + 2 <= b@.len(),
    ensures
        r == le16(b@, i as int),
{
    let n = b.len();
    let b0 = byte_at(b, i);
    let b1 = byte_at(b, i + 1);
    (b0 as u16) | ((b1 as u16) << 8)
}

/// Reads the 32-bit little-endian value at offset `i`.
pub fn read_u32_le(b: &[u8], i: usize) -> (r: u32)
    requires
        i + 4 <= b@.len(),
    ensures
        r == le32(b@, i as int),
{
    let n = b.len();
    let b0 = byte_at(b, i);
    let b1 = byte_at(b, i + 1);
    let b2 = byte_at(b, i + 2);
    let b3 = byte_at(b, i + 3);
    (b0 as u32) | ((b1 as u32) << 8) | ((b2 as u32) << 16) | ((b3 as u32) << 24)
}

/// Copies `b[i..j]` into a fresh vector.
pub fn copy_range(b: &[u8], i: usize, j: usize) -> (r: Vec<u8>)
    requires
        i <= j <= b@.len(),
    ensures
        r@ == b@.subrange(i as int, j as int),
{
    slice_to_vec(slice_subrange(b, i, j))
}

/// The four little-endian bytes of `w`, lowest first.
pub open spec fn le32_bytes(w: u32) -> Seq<u8> {
    seq![
        (w & 0xFF) as u8,
        ((w >> 8) & 0xFF) as u8,
        ((w >> 16) & 0xFF) as u8,
        ((w >> 24) & 0xFF) as u8,
    ]
}

/// Reading back the little-endian bytes of a word yields the word.
pub proof fn lemma_le32_round_trip(w: u32)
    ensures
        le32(le32_bytes(w), 0) == w,
{
    let b = le32_bytes(w);
    assert(((w & 0xFF) as u8 as u32) | (((w >> 8) & 0xFF) as u8 as u32) << 8 | (((w >> 16)
        & 0xFF) as u8 as u32) << 16 | (((w >> 24) & 0xFF) as u8 as u32) << 24 == w)
        by (bit_vector);
}

/// Appends the four little-endian bytes of `w` to `out`.
pub fn push_u32_le(out: &mut Vec<u8>, w: u32)
    ensures
        final(out)@ == old(out)@ + le32_bytes(w),
{
    out.push((w & 0xFF) as u8);
    out.push(((w >> 8) & 0xFF) as u8);
    out.push(((w >> 16) & 0xFF) as u8);
    out.push(((w >> 24) & 0xFF) as u8);
    assert(out@ =~= old(out)@ + le32_bytes(w));
}

} // verus!
