//! The fixed 8-byte records of the PCBoard index file: the byte offset
//! of a message inside the base file, and its message number.

use crate::pcboard::PCBoardError;
use crate::util::codec::{le_u32_at, read_u32_le};
use vstd::prelude::*;

verus! {

/// One index record.
#[derive(Debug, Clone, Copy, PartialEq, Eq, Structural)]
pub struct MessageIndex {
    /// Byte offset of the message inside the base file.
    pub offset: u32,
    /// The message's number.
    pub num: u32,
}

/// The record at record index `i` of image `b`.
pub open spec fn spec_message_index_at(b: Seq<u8>, i: int) -> MessageIndex {
    MessageIndex { offset: le_u32_at(b, 8 * i), num: le_u32_at(b, 8 * i + 4) }
}

/// Every whole record of image `b`, in file order.
pub open spec fn spec_message_index_records(b: Seq<u8>) -> Seq<MessageIndex> {
    Seq::new((b.len() / 8) as nat, |i: int| spec_message_index_at(b, i))
}

impl MessageIndex {
    /// The size of one record.
    pub const HEADER_SIZE: usize = 8;

    /// Decodes the record starting at byte `pos`, or reports the image
    /// exhausted when fewer than 8 bytes remain there.
    pub fn read(data: &Vec<u8>, pos: usize) -> (r: Result<MessageIndex, PCBoardError>)
        ensures
            r == (if pos + 8 <= data@.len() {
                Ok::<_, PCBoardError>(
                    MessageIndex {
                        offset: le_u32_at(data@, pos as int),
                        num: le_u32_at(data@, pos + 4),
                    },
                )
            } else {
                Err::<MessageIndex, _>(PCBoardError::UnexpectedEndOfData)
            }),
    {
        let n = data.len();
        if pos >= n || n - pos < 8 {
            return Err(PCBoardError::UnexpectedEndOfData);
        }
        Ok(MessageIndex { offset: read_u32_le(data, pos), num: read_u32_le(data, pos + 4) })
    }
}

} // verus!
