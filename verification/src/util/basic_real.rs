//! Decoding of the BASIC packed real ("Microsoft binary format" single)
//! that PCBoard stores counters and message numbers in: one exponent byte
//! biased by 128, a sign bit, and a 23-bit mantissa with an implicit
//! leading one.  The decoder yields the integer part, truncated to 32
//! bits; the sign bit is ignored, as the stored values are counters.

use vstd::prelude::*;

verus! {

/// The integer that the packed real `n` denotes: mantissa (with its
/// implicit leading bit) scaled by two to the exponent less 152, clipped
/// to `u32` range by truncation.
pub open spec fn spec_basicreal_to_u32(n: u32) -> u32 {
    let exp = n >> 24;
    let mant = (n & 0x007F_FFFF) | 0x0080_0000;
    if exp <= 128 {
        0u32
    } else if exp < 152 {
        mant >> ((152 - exp) as u32)
    } else if exp < 184 {
        (((mant as u64) << ((exp - 152) as u64)) as u32)
    } else {
        0u32
    }
}

/// Decodes the packed real `n` to its integer part.
pub fn basicreal_to_u32(n: u32) -> (r: u32)
    ensures
        r == spec_basicreal_to_u32(n),
{
    let exp = n >> 24;
    let mant = (n & 0x007F_FFFF) | 0x0080_0000;
    if exp <= 128 {
        0
    } else if exp < 152 {
        mant >> (152 - exp)
    } else if exp < 184 {
        #[verifier::truncate] (((mant as u64) << (exp - 152) as u64) as u32)
    } else {
        0
    }
}

} // verus!
