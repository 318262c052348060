//! Shared primitives: the CRC-32 used for names and passwords,
//! little-endian field codecs, text helpers, and the BASIC packed-real
//! decoder.

pub mod basic_real;
pub mod codec;
pub mod crc32;
pub mod strings;
