//! The per-user read-position records of the last-read file: fixed
//! 16-byte records holding a user-name checksum, a numeric user id, and
//! the last-read and highest-read message numbers.

use crate::util::codec::{le_u32_at, read_u32_le};
use vstd::prelude::*;

verus! {

/// One user's read position, as stored in the last-read file.  The pair
/// of checksum and id is the natural key; the store itself never
/// deduplicates.
#[derive(Debug, Clone, Copy, PartialEq, Eq, Structural)]
pub struct LastReadStorage {
    /// Checksum of the lowercased user name.
    pub user_crc: u32,
    /// Numeric user id.
    pub user_id: u32,
    /// Number of the last message the user read.
    pub last_read_msg: u32,
    /// Highest message number the user has read.
    pub high_read_msg: u32,
}

/// The record at record index `i` of image `b`.
pub open spec fn spec_last_read_at(b: Seq<u8>, i: int) -> LastReadStorage {
    LastReadStorage {
        user_crc: le_u32_at(b, 16 * i),
        user_id: le_u32_at(b, 16 * i + 4),
        last_read_msg: le_u32_at(b, 16 * i + 8),
        high_read_msg: le_u32_at(b, 16 * i + 12),
    }
}

/// Every whole record of image `b`, in file order; a trailing partial
/// record is not part of the sequence.
pub open spec fn spec_last_read_records(b: Seq<u8>) -> Seq<LastReadStorage> {
    Seq::new((b.len() / 16) as nat, |i: int| spec_last_read_at(b, i))
}

impl LastReadStorage {
    /// Decodes the record starting at byte `pos`, or `None` when fewer
    /// than 16 bytes remain there: a short final record ends a scan
    /// rather than failing it.
    pub fn load(data: &Vec<u8>, pos: usize) -> (r: Option<LastReadStorage>)
        ensures
            r == (if pos + 16 <= data@.len() {
                Some(
                    LastReadStorage {
                        user_crc: le_u32_at(data@, pos as int),
                        user_id: le_u32_at(data@, pos + 4),
                        last_read_msg: le_u32_at(data@, pos + 8),
                        high_read_msg: le_u32_at(data@, pos + 12),
                    },
                )
            } else {
                None::<LastReadStorage>
            }),
    {
        let n = data.len();
        if pos >= n || n - pos < 16 {
            return None;
        }
        Some(
            LastReadStorage {
                user_crc: read_u32_le(data, pos),
                user_id: read_u32_le(data, pos + 4),
                last_read_msg: read_u32_le(data, pos + 8),
                high_read_msg: read_u32_le(data, pos + 12),
            },
        )
    }
}

} // verus!
