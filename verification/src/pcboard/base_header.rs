//! The fixed header that opens a PCBoard base file: four packed-real
//! counters and a short lock-status field.

use crate::pcboard::{convert_str, spec_text_field, PCBoardError};
use crate::util::basic_real::{basicreal_to_u32, spec_basicreal_to_u32};
use crate::util::codec::{le_u32_at, read_u32_le};
use vstd::prelude::*;

verus! {

/// The decoded base-file header.
#[derive(Debug, Clone, PartialEq)]
pub struct MessageBaseHeader {
    /// Highest message number in the index file.
    pub high_msg_num: u32,
    /// Lowest message number in the index file.
    pub low_msg_num: u32,
    /// Active (not deleted) messages.
    pub active_msgs: u32,
    /// Number of callers of this conference; PCBoard keeps one base per
    /// conference.
    pub callers: u32,
    /// The lock-status text.
    pub lock_status: String,
}

impl MessageBaseHeader {
    /// The size of the header.
    pub const HEADER_SIZE: usize = 22;

    /// Decodes the header from the start of a base-file image.
    pub fn load(data: &Vec<u8>) -> (r: Result<MessageBaseHeader, PCBoardError>)
        ensures
            match r {
                Ok(h) => {
                    &&& data@.len() >= 22
                    &&& h.high_msg_num == spec_basicreal_to_u32(le_u32_at(data@, 0))
                    &&& h.low_msg_num == spec_basicreal_to_u32(le_u32_at(data@, 4))
                    &&& h.active_msgs == spec_basicreal_to_u32(le_u32_at(data@, 8))
                    &&& h.callers == spec_basicreal_to_u32(le_u32_at(data@, 12))
                    &&& h.lock_status@ == spec_text_field(data@.subrange(16, 22))
                },
                Err(e) => data@.len() < 22 && e == PCBoardError::UnexpectedEndOfData,
            },
    {
        if data.len() < 22 {
            return Err(PCBoardError::UnexpectedEndOfData);
        }
        let high_msg_num = basicreal_to_u32(read_u32_le(data, 0));
        let low_msg_num = basicreal_to_u32(read_u32_le(data, 4));
        let active_msgs = basicreal_to_u32(read_u32_le(data, 8));
        let callers = basicreal_to_u32(read_u32_le(data, 12));
        let lock_status = convert_str(data, 16, 22);
        Ok(MessageBaseHeader { high_msg_num, low_msg_num, active_msgs, callers, lock_status })
    }
}

} // verus!
