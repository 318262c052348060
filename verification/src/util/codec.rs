//! Little-endian field access over byte images.
//!
//! All record formats in the message base store their integer fields
//! little-endian.  These helpers read and append such fields on `Vec<u8>`
//! images, stated over the byte-sequence codecs of `vstd::bytes`.

use vstd::bytes::*;
use vstd::prelude::*;
use vstd::slice::*;

verus! {

/// The `u32` that the four bytes of `b` starting at `i` encode.
pub open spec fn le_u32_at(b: Seq<u8>, i: int) -> u32 {
    spec_u32_from_le_bytes(b.subrange(i, i + 4))
}

/// The `u16` that the two bytes of `b` starting at `i` encode.
pub open spec fn le_u16_at(b: Seq<u8>, i: int) -> u16 {
    spec_u16_from_le_bytes(b.subrange(i, i + 2))
}

/// Reading a field commutes with taking a sub-image: the `u32` at `i` of
/// `b.subrange(lo, hi)` is the `u32` at `lo + i` of `b`.
pub proof fn lemma_le_u32_at_subrange(b: Seq<u8>, lo: int, hi: int, i: int)
    requires
        0 <= lo <= hi <= b.len(),
        0 <= i,
        i + 4 <= hi - lo,
    ensures
        le_u32_at(b.subrange(lo, hi), i) == le_u32_at(b, lo + i),
{
    assert(b.subrange(lo, hi).subrange(i, i + 4) =~= b.subrange(lo + i, lo + i + 4));
}

/// Reads the little-endian `u32` at `pos`.
pub fn read_u32_le(data: &Vec<u8>, pos: usize) -> (r: u32)
    requires
        pos + 4 <= data@.len(),
    ensures
        r == le_u32_at(data@, pos as int),
{
    let n = data.len();
    assert(pos + 4 <= n);
    let s = slice_subrange(data.as_slice(), pos, pos + 4);
    u32_from_le_bytes(s)
}

/// Reads the little-endian `u16` at `pos`.
pub fn read_u16_le(data: &Vec<u8>, pos: usize) -> (r: u16)
    requires
        pos + 2 <= data@.len(),
    ensures
        r == le_u16_at(data@, pos as int),
{
    let n = data.len();
    assert(pos + 2 <= n);
    let s = slice_subrange(data.as_slice(), pos, pos + 2);
    u16_from_le_bytes(s)
}

/// Appends `v` as four little-endian bytes.
pub fn push_u32_le(out: &mut Vec<u8>, v: u32)
    ensures
        final(out)@ == old(out)@ + spec_u32_to_le_bytes(v),
{
    let mut b = u32_to_le_bytes(v);
    out.append(&mut b);
}

/// Appends `v` as two little-endian bytes.
pub fn push_u16_le(out: &mut Vec<u8>, v: u16)
    ensures
        final(out)@ == old(out)@ + spec_u16_to_le_bytes(v),
{
    let mut b = u16_to_le_bytes(v);
    out.append(&mut b);
}

/// Copies the bytes `data[from..to]` into a fresh vector.
pub fn copy_range(data: &Vec<u8>, from: usize, to: usize) -> (r: Vec<u8>)
    requires
        from <= to <= data@.len(),
    ensures
        r@ == data@.subrange(from as int, to as int),
{
    slice_to_vec(slice_subrange(data.as_slice(), from, to))
}

} // verus!
