//! The attribute bits of a message header's first attribute word.

use vstd::prelude::*;

verus! {

/// Msg created locally
pub const MSG_LOCAL: u32 = 0x00000001;

/// Msg is in-transit
pub const MSG_INTRANSIT: u32 = 0x00000002;

/// Private
pub const MSG_PRIVATE: u32 = 0x00000004;

/// Read by addressee
pub const MSG_READ: u32 = 0x00000008;

/// Sent to remote
pub const MSG_SENT: u32 = 0x00000010;

/// Kill when sent
pub const MSG_KILLSENT: u32 = 0x00000020;

/// Archive when sent
pub const MSG_ARCHIVESENT: u32 = 0x00000040;

/// Hold for pick-up
pub const MSG_HOLD: u32 = 0x00000080;

/// Crash
pub const MSG_CRASH: u32 = 0x00000100;

/// Send Msg now, ignore restrictions
pub const MSG_IMMEDIATE: u32 = 0x00000200;

/// Send directly to destination
pub const MSG_DIRECT: u32 = 0x00000400;

/// Send via gateway
pub const MSG_GATE: u32 = 0x00000800;

/// File request
pub const MSG_FILEREQUEST: u32 = 0x00001000;

/// File(s) attached to Msg
pub const MSG_FILEATTACH: u32 = 0x00002000;

/// Truncate file(s) when sent
pub const MSG_TRUNCFILE: u32 = 0x00004000;

/// Delete file(s) when sent
pub const MSG_KILLFILE: u32 = 0x00008000;

/// Return receipt requested
pub const MSG_RECEIPTREQ: u32 = 0x00010000;

/// Confirmation receipt requested
pub const MSG_CONFIRMREQ: u32 = 0x00020000;

/// Unknown destination
pub const MSG_ORPHAN: u32 = 0x00040000;

/// Msg text is encrypted; reserved for future use, never acted upon
pub const MSG_ENCRYPT: u32 = 0x00080000;

/// Msg text is compressed; reserved for future use, never acted upon
pub const MSG_COMPRESS: u32 = 0x00100000;

/// Msg text is seven bit ASCII; reserved for future use, never acted upon
pub const MSG_ESCAPED: u32 = 0x00200000;

/// Force pickup
pub const MSG_FPU: u32 = 0x00400000;

/// Msg is for local use only
pub const MSG_TYPELOCAL: u32 = 0x00800000;

/// Msg is for conference distribution
pub const MSG_TYPEECHO: u32 = 0x01000000;

/// Msg is direct network mail
pub const MSG_TYPENET: u32 = 0x02000000;

/// Msg may not be displayed to user
pub const MSG_NODISP: u32 = 0x20000000;

/// Msg is locked, no editing possible
pub const MSG_LOCKED: u32 = 0x40000000;

/// Msg is deleted
pub const MSG_DELETED: u32 = 0x80000000;

} // verus!
