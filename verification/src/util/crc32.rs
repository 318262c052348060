//! The 32-bit checksum used throughout the message base for recipient
//! names, user names and passwords (the Zmodem flavour of CRC-32:
//! reflected polynomial, seed of all ones, complemented result).

use vstd::prelude::*;

verus! {

/// The seed of the checksum, and at the same time the reserved sentinel
/// value that marks an absent password or recipient.
pub const CRC_SEED: u32 = 0xFFFF_FFFF;

/// The reflected CRC-32 polynomial.
pub const CRC_POLY: u32 = 0xEDB8_8320;

/// One shift-and-conditionally-xor round of the bitwise CRC.
pub open spec fn crc32_shift_bit(crc: u32) -> u32 {
    if crc & 1 == 1 {
        (crc >> 1) ^ CRC_POLY
    } else {
        crc >> 1
    }
}

/// `n` rounds of [`crc32_shift_bit`].
pub open spec fn crc32_shift_bits(crc: u32, n: nat) -> u32
    decreases n,
{
    if n == 0 {
        crc
    } else {
        crc32_shift_bit(crc32_shift_bits(crc, (n - 1) as nat))
    }
}

/// Folding one byte into a running CRC: xor it in, then shift eight bits out.
pub open spec fn crc32_push_byte(crc: u32, b: u8) -> u32 {
    crc32_shift_bits(crc ^ (b as u32), 8)
}

/// The running CRC after folding in every byte of `bytes`, in order.
pub open spec fn crc32_accum(crc: u32, bytes: Seq<u8>) -> u32
    decreases bytes.len(),
{
    if bytes.len() == 0 {
        crc
    } else {
        crc32_push_byte(crc32_accum(crc, bytes.drop_last()), bytes.last())
    }
}

/// The checksum of a byte sequence: fold every byte into the seed, then
/// complement.
pub open spec fn crc32_of(bytes: Seq<u8>) -> u32 {
    !crc32_accum(CRC_SEED, bytes)
}

/// Folds one byte into a running CRC.
pub fn update_crc32(crc: u32, b: u8) -> (r: u32)
    ensures
        r == crc32_push_byte(crc, b),
{
    let mut c = crc ^ (b as u32);
    let mut i: usize = 0;
    while i < 8
        invariant
            i <= 8,
            c == crc32_shift_bits(crc ^ (b as u32), i as nat),
        decreases 8 - i,
    {
        if c & 1 == 1 {
            c = (c >> 1) ^ CRC_POLY;
        } else {
            c = c >> 1;
        }
        i = i + 1;
    }
    c
}

/// The checksum of `buf`.
pub fn get_crc32(buf: &Vec<u8>) -> (r: u32)
    ensures
        r == crc32_of(buf@),
{
    let mut crc = CRC_SEED;
    let mut i: usize = 0;
    while i < buf.len()
        invariant
            i <= buf@.len(),
            crc == crc32_accum(CRC_SEED, buf@.take(i as int)),
        decreases buf@.len() - i,
    {
        crc = update_crc32(crc, buf[i]);
        i = i + 1;
        proof {
            assert(buf@.take(i as int).drop_last() =~= buf@.take(i - 1));
        }
    }
    proof {
        assert(buf@.take(buf@.len() as int) =~= buf@);
    }
    !crc
}

} // verus!
