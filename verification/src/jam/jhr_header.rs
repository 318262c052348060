//! The fixed info block that opens the header file: magic, creation
//! time, modification counter, active-message count, password checksum
//! and base message number, padded with a reserved region to 1024 bytes.

use crate::jam::{has_signature, push_signature, spec_signature, JamError};
use crate::util::codec::{le_u32_at, push_u32_le, read_u32_le};
use vstd::bytes::{spec_u32_to_le_bytes, u32_to_le_bytes};
use vstd::prelude::*;

verus! {

/// The size of the info block; message-header records start at this
/// offset in the header file.
pub const JHR_HEADER_SIZE: usize = 1024;

/// The fixed fields of a message base, loaded from the start of the
/// header file.  The reserved padding region carries no information and
/// is not kept.
#[derive(Debug, Clone, Copy, PartialEq, Eq, Structural)]
pub struct JHRHeaderInfo {
    /// Creation time, seconds since the epoch.
    pub date_created: u32,
    /// Counter incremented by every committed update, wrapping on
    /// overflow.
    pub mod_counter: u32,
    /// Number of active (not deleted) messages.
    pub active_msgs: u32,
    /// Checksum of the base password, or the sentinel for none.
    pub password_crc: u32,
    /// The logical number of the first index record.
    pub base_msg_num: u32,
}

/// The 1024-byte image that a base with fields `h` starts its header
/// file with.
pub open spec fn header_image(h: JHRHeaderInfo) -> Seq<u8> {
    spec_signature() + spec_u32_to_le_bytes(h.date_created) + spec_u32_to_le_bytes(h.mod_counter)
        + spec_u32_to_le_bytes(h.active_msgs) + spec_u32_to_le_bytes(h.password_crc)
        + spec_u32_to_le_bytes(h.base_msg_num) + Seq::new(1000, |i: int| 0u8)
}

/// What loading the info block from image `b` yields: the decoded fields,
/// or a signature failure when the magic is not there (a short image
/// cannot hold it).
pub open spec fn spec_load(b: Seq<u8>) -> Result<JHRHeaderInfo, JamError> {
    if b.len() < 1024 || b.subrange(0, 4) != spec_signature() {
        Err(JamError::InvalidHeaderSignature)
    } else {
        Ok(
            JHRHeaderInfo {
                date_created: le_u32_at(b, 4),
                mod_counter: le_u32_at(b, 8),
                active_msgs: le_u32_at(b, 12),
                password_crc: le_u32_at(b, 16),
                base_msg_num: le_u32_at(b, 20),
            },
        )
    }
}

impl JHRHeaderInfo {
    /// Decodes the info block from the start of a header-file image.
    /// The reserved padding is skipped, not interpreted.
    pub fn load(data: &Vec<u8>) -> (r: Result<JHRHeaderInfo, JamError>)
        ensures
            r == spec_load(data@),
    {
        if data.len() < JHR_HEADER_SIZE {
            return Err(JamError::InvalidHeaderSignature);
        }
        if !has_signature(data, 0) {
            return Err(JamError::InvalidHeaderSignature);
        }
        Ok(
            JHRHeaderInfo {
                date_created: read_u32_le(data, 4),
                mod_counter: read_u32_le(data, 8),
                active_msgs: read_u32_le(data, 12),
                password_crc: read_u32_le(data, 16),
                base_msg_num: read_u32_le(data, 20),
            },
        )
    }

    /// The fresh info block of a base created now, and the 1024-byte
    /// file image to write for it: zeroed counters, base message number
    /// one, and the given password checksum and creation time.
    pub fn create(password_crc: u32, date_created: u32) -> (r: (JHRHeaderInfo, Vec<u8>))
        ensures
            r.0 == (JHRHeaderInfo {
                date_created,
                mod_counter: 0,
                active_msgs: 0,
                password_crc,
                base_msg_num: 1,
            }),
            r.1@ == header_image(r.0),
    {
        let info = JHRHeaderInfo {
            date_created,
            mod_counter: 0,
            active_msgs: 0,
            password_crc,
            base_msg_num: 1,
        };
        let mut image: Vec<u8> = Vec::new();
        push_signature(&mut image);
        push_u32_le(&mut image, info.date_created);
        push_u32_le(&mut image, info.mod_counter);
        push_u32_le(&mut image, info.active_msgs);
        push_u32_le(&mut image, info.password_crc);
        push_u32_le(&mut image, info.base_msg_num);
        let mut pad: Vec<u8> = vec![0u8; 1000];
        proof {
            assert(pad@ =~= Seq::new(1000, |i: int| 0u8));
        }
        image.append(&mut pad);
        proof {
            assert(image@ =~= header_image(info));
        }
        (info, image)
    }

    /// Commits the mutable trailing fields into a header-file image:
    /// bumps the modification counter by exactly one (wrapping) and
    /// writes it with the active-message count at their fixed offset.
    /// The magic, creation time and everything else stay untouched.
    pub fn update(&mut self, data: &mut Vec<u8>)
        requires
            old(data)@.len() >= 16,
        ensures
            *final(self) == (JHRHeaderInfo {
                mod_counter: (if old(self).mod_counter == 0xFFFF_FFFFu32 {
                    0u32
                } else {
                    (old(self).mod_counter + 1) as u32
                }),
                ..*old(self)
            }),
            final(data)@ == old(data)@.take(8) + spec_u32_to_le_bytes(final(self).mod_counter)
                + spec_u32_to_le_bytes(old(self).active_msgs) + old(data)@.skip(16),
    {
        self.mod_counter = if self.mod_counter == 0xFFFF_FFFF {
            0
        } else {
            self.mod_counter + 1
        };
        let counter_bytes = u32_to_le_bytes(self.mod_counter);
        let active_bytes = u32_to_le_bytes(self.active_msgs);
        data.set(8, counter_bytes[0]);
        data.set(9, counter_bytes[1]);
        data.set(10, counter_bytes[2]);
        data.set(11, counter_bytes[3]);
        data.set(12, active_bytes[0]);
        data.set(13, active_bytes[1]);
        data.set(14, active_bytes[2]);
        data.set(15, active_bytes[3]);
        proof {
            assert(data@ =~= old(data)@.take(8) + spec_u32_to_le_bytes(self.mod_counter)
                + spec_u32_to_le_bytes(self.active_msgs) + old(data)@.skip(16));
        }
    }
}

} // verus!
