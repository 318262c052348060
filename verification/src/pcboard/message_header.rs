//! The fixed 124-byte PCBoard message header and the optional extended
//! header subrecords that can precede the text in the message's blocks.

use crate::pcboard::{convert_str, spec_text_field, PCBoardError};
use crate::util::basic_real::{basicreal_to_u32, spec_basicreal_to_u32};
use crate::util::codec::{le_u32_at, read_u32_le};
use crate::util::strings::str_eq_chars;
use vstd::prelude::*;

verus! {

/// One message's fixed header.  All text fields are zero-terminated and
/// space-padded in the file and arrive trimmed.
#[derive(Debug, Clone, PartialEq)]
pub struct MessageHeader {
    /// Status letter of the message.
    pub status: u8,
    /// The message's number, stored as a packed real.
    pub msg_number: u32,
    /// Number of the message this one refers to.
    pub ref_number: u32,
    /// How many 128-byte blocks the message occupies, header included.
    pub num_blocks: u8,
    /// Date text.
    pub date: String,
    /// Time text.
    pub time: String,
    /// Recipient name.
    pub to_field: String,
    /// Reply date.
    pub reply_date: u32,
    /// Reply time text.
    pub reply_time: String,
    /// Reply status letter.
    pub reply_status: u8,
    /// Sender name.
    pub from_field: String,
    /// Subject.
    pub subj_field: String,
    /// Message password.
    pub password: String,
    /// Active flag.
    pub active_flag: u8,
    /// Echo flag.
    pub echo_flag: u8,
    /// Reserved word.
    pub reserved: u32,
    /// Extended status byte.
    pub extended_status: u8,
    /// Network tag byte.
    pub net_tag: u8,
}

/// Ghost projection of a PCBoard message header.
#[verifier::ext_equal]
pub struct MessageHeaderV {
    /// Status letter.
    pub status: u8,
    /// The message's number.
    pub msg_number: u32,
    /// Number of the referred-to message.
    pub ref_number: u32,
    /// Block count, header included.
    pub num_blocks: u8,
    /// Date text.
    pub date: Seq<char>,
    /// Time text.
    pub time: Seq<char>,
    /// Recipient name.
    pub to_field: Seq<char>,
    /// Reply date.
    pub reply_date: u32,
    /// Reply time text.
    pub reply_time: Seq<char>,
    /// Reply status letter.
    pub reply_status: u8,
    /// Sender name.
    pub from_field: Seq<char>,
    /// Subject.
    pub subj_field: Seq<char>,
    /// Message password.
    pub password: Seq<char>,
    /// Active flag.
    pub active_flag: u8,
    /// Echo flag.
    pub echo_flag: u8,
    /// Reserved word.
    pub reserved: u32,
    /// Extended status byte.
    pub extended_status: u8,
    /// Network tag byte.
    pub net_tag: u8,
}

impl View for MessageHeader {
    type V = MessageHeaderV;

    open spec fn view(&self) -> MessageHeaderV {
        MessageHeaderV {
            status: self.status,
            msg_number: self.msg_number,
            ref_number: self.ref_number,
            num_blocks: self.num_blocks,
            date: self.date@,
            time: self.time@,
            to_field: self.to_field@,
            reply_date: self.reply_date,
            reply_time: self.reply_time@,
            reply_status: self.reply_status,
            from_field: self.from_field@,
            subj_field: self.subj_field@,
            password: self.password@,
            active_flag: self.active_flag,
            echo_flag: self.echo_flag,
            reserved: self.reserved,
            extended_status: self.extended_status,
            net_tag: self.net_tag,
        }
    }
}

/// The header encoded at byte `pos` of image `b`.
pub open spec fn spec_pcb_header_at(b: Seq<u8>, pos: int) -> MessageHeaderV {
    MessageHeaderV {
        status: b[pos],
        msg_number: spec_basicreal_to_u32(le_u32_at(b, pos + 1)),
        ref_number: le_u32_at(b, pos + 5),
        num_blocks: b[pos + 9],
        date: spec_text_field(b.subrange(pos + 10, pos + 18)),
        time: spec_text_field(b.subrange(pos + 18, pos + 23)),
        to_field: spec_text_field(b.subrange(pos + 23, pos + 48)),
        reply_date: le_u32_at(b, pos + 48),
        reply_time: spec_text_field(b.subrange(pos + 52, pos + 57)),
        reply_status: b[pos + 57],
        from_field: spec_text_field(b.subrange(pos + 58, pos + 83)),
        subj_field: spec_text_field(b.subrange(pos + 83, pos + 108)),
        password: spec_text_field(b.subrange(pos + 108, pos + 116)),
        active_flag: b[pos + 116],
        echo_flag: b[pos + 117],
        reserved: le_u32_at(b, pos + 118),
        extended_status: b[pos + 122],
        net_tag: b[pos + 123],
    }
}

impl MessageHeader {
    /// The size of the fixed header.
    pub const HEADER_SIZE: usize = 124;

    /// Decodes the fixed header starting at byte `pos`, or reports the
    /// image exhausted when fewer than 124 bytes remain there.
    pub fn read(data: &Vec<u8>, pos: usize) -> (r: Result<MessageHeader, PCBoardError>)
        ensures
            match r {
                Ok(h) => pos + 124 <= data@.len() && h@ == spec_pcb_header_at(data@, pos as int),
                Err(e) => pos + 124 > data@.len() && e == PCBoardError::UnexpectedEndOfData,
            },
    {
        let n = data.len();
        if pos > n || n - pos < 124 {
            return Err(PCBoardError::UnexpectedEndOfData);
        }
        let h = MessageHeader {
            status: data[pos],
            msg_number: basicreal_to_u32(read_u32_le(data, pos + 1)),
            ref_number: read_u32_le(data, pos + 5),
            num_blocks: data[pos + 9],
            date: convert_str(data, pos + 10, pos + 18),
            time: convert_str(data, pos + 18, pos + 23),
            to_field: convert_str(data, pos + 23, pos + 48),
            reply_date: read_u32_le(data, pos + 48),
            reply_time: convert_str(data, pos + 52, pos + 57),
            reply_status: data[pos + 57],
            from_field: convert_str(data, pos + 58, pos + 83),
            subj_field: convert_str(data, pos + 83, pos + 108),
            password: convert_str(data, pos + 108, pos + 116),
            active_flag: data[pos + 116],
            echo_flag: data[pos + 117],
            reserved: read_u32_le(data, pos + 118),
            extended_status: data[pos + 122],
            net_tag: data[pos + 123],
        };
        proof {
            assert(h@ =~~= spec_pcb_header_at(data@, pos as int));
        }
        Ok(h)
    }
}

/// What an extended header's function field can name.
#[derive(Debug, Clone, Copy, PartialEq, Eq, Structural)]
pub enum ExtendedHeaderInformation {
    /// Full recipient name.
    To,
    /// Full sender name.
    From,
    /// Full subject.
    Subject,
    /// File attachment.
    Attach,
    /// Carbon-copy list.
    List,
    /// Routing information.
    Route,
    /// Origin information.
    Origin,
    /// Return receipt request.
    Reqrr,
    /// Receipt acknowledgement.
    Ackrr,
    /// Acknowledgement name.
    Ackname,
    /// Pack-out date.
    Packout,
    /// Second recipient line.
    To2,
    /// Second sender line.
    From2,
    /// Forwarding information.
    Forward,
    /// Usenet follow-up line.
    Ufollow,
    /// Usenet newsgroup line.
    Unewsgr,
}

/// The function named by a trimmed tag, if this reader knows it.
pub open spec fn spec_ehi_from(s: Seq<char>) -> Option<ExtendedHeaderInformation> {
    if s == "TO"@ {
        Some(ExtendedHeaderInformation::To)
    } else if s == "FROM"@ {
        Some(ExtendedHeaderInformation::From)
    } else if s == "SUBJECT"@ {
        Some(ExtendedHeaderInformation::Subject)
    } else if s == "ATTACH"@ {
        Some(ExtendedHeaderInformation::Attach)
    } else if s == "LIST"@ {
        Some(ExtendedHeaderInformation::List)
    } else if s == "ROUTE"@ {
        Some(ExtendedHeaderInformation::Route)
    } else if s == "ORIGIN"@ {
        Some(ExtendedHeaderInformation::Origin)
    } else if s == "REQRR"@ {
        Some(ExtendedHeaderInformation::Reqrr)
    } else if s == "ACKRR"@ {
        Some(ExtendedHeaderInformation::Ackrr)
    } else if s == "ACKNAME"@ {
        Some(ExtendedHeaderInformation::Ackname)
    } else if s == "PACKOUT"@ {
        Some(ExtendedHeaderInformation::Packout)
    } else if s == "TO2"@ {
        Some(ExtendedHeaderInformation::To2)
    } else if s == "FROM2"@ {
        Some(ExtendedHeaderInformation::From2)
    } else if s == "FORWARD"@ {
        Some(ExtendedHeaderInformation::Forward)
    } else if s == "UFOLLOW"@ {
        Some(ExtendedHeaderInformation::Ufollow)
    } else if s == "UNEWSGR"@ {
        Some(ExtendedHeaderInformation::Unewsgr)
    } else {
        None
    }
}

/// The fixed seven-character spelling of each function.
pub open spec fn spec_ehi_text(v: ExtendedHeaderInformation) -> Seq<char> {
    match v {
        ExtendedHeaderInformation::To => "TO     "@,
        ExtendedHeaderInformation::From => "FROM   "@,
        ExtendedHeaderInformation::Subject => "SUBJECT"@,
        ExtendedHeaderInformation::Attach => "ATTACH "@,
        ExtendedHeaderInformation::List => "LIST   "@,
        ExtendedHeaderInformation::Route => "ROUTE  "@,
        ExtendedHeaderInformation::Origin => "ORIGIN "@,
        ExtendedHeaderInformation::Reqrr => "REQRR  "@,
        ExtendedHeaderInformation::Ackrr => "ACKRR  "@,
        ExtendedHeaderInformation::Ackname => "ACKNAME"@,
        ExtendedHeaderInformation::Packout => "PACKOUT"@,
        ExtendedHeaderInformation::To2 => "TO2    "@,
        ExtendedHeaderInformation::From2 => "FROM2  "@,
        ExtendedHeaderInformation::Forward => "FORWARD"@,
        ExtendedHeaderInformation::Ufollow => "UFOLLOW"@,
        ExtendedHeaderInformation::Unewsgr => "UNEWSGR"@,
    }
}

impl ExtendedHeaderInformation {
    /// Parses a trimmed function tag.
    pub fn from_str(s: &str) -> (r: Result<ExtendedHeaderInformation, ()>)
        ensures
            r == (match spec_ehi_from(s@) {
                Some(v) => Ok::<_, ()>(v),
                None => Err::<ExtendedHeaderInformation, _>(()),
            }),
    {
        if str_eq_chars(s, "TO") {
            Ok(ExtendedHeaderInformation::To)
        } else if str_eq_chars(s, "FROM") {
            Ok(ExtendedHeaderInformation::From)
        } else if str_eq_chars(s, "SUBJECT") {
            Ok(ExtendedHeaderInformation::Subject)
        } else if str_eq_chars(s, "ATTACH") {
            Ok(ExtendedHeaderInformation::Attach)
        } else if str_eq_chars(s, "LIST") {
            Ok(ExtendedHeaderInformation::List)
        } else if str_eq_chars(s, "ROUTE") {
            Ok(ExtendedHeaderInformation::Route)
        } else if str_eq_chars(s, "ORIGIN") {
            Ok(ExtendedHeaderInformation::Origin)
        } else if str_eq_chars(s, "REQRR") {
            Ok(ExtendedHeaderInformation::Reqrr)
        } else if str_eq_chars(s, "ACKRR") {
            Ok(ExtendedHeaderInformation::Ackrr)
        } else if str_eq_chars(s, "ACKNAME") {
            Ok(ExtendedHeaderInformation::Ackname)
        } else if str_eq_chars(s, "PACKOUT") {
            Ok(ExtendedHeaderInformation::Packout)
        } else if str_eq_chars(s, "TO2") {
            Ok(ExtendedHeaderInformation::To2)
        } else if str_eq_chars(s, "FROM2") {
            Ok(ExtendedHeaderInformation::From2)
        } else if str_eq_chars(s, "FORWARD") {
            Ok(ExtendedHeaderInformation::Forward)
        } else if str_eq_chars(s, "UFOLLOW") {
            Ok(ExtendedHeaderInformation::Ufollow)
        } else if str_eq_chars(s, "UNEWSGR") {
            Ok(ExtendedHeaderInformation::Unewsgr)
        } else {
            Err(())
        }
    }

    /// The fixed seven-character spelling of this function.
    pub fn to_str(&self) -> (r: &'static str)
        ensures
            r@ == spec_ehi_text(*self),
    {
        match self {
            Self::To => "TO     ",
            Self::From => "FROM   ",
            Self::Subject => "SUBJECT",
            Self::Attach => "ATTACH ",
            Self::List => "LIST   ",
            Self::Route => "ROUTE  ",
            Self::Origin => "ORIGIN ",
            Self::Reqrr => "REQRR  ",
            Self::Ackrr => "ACKRR  ",
            Self::Ackname => "ACKNAME",
            Self::Packout => "PACKOUT",
            Self::To2 => "TO2    ",
            Self::From2 => "FROM2  ",
            Self::Forward => "FORWARD",
            Self::Ufollow => "UFOLLOW",
            Self::Unewsgr => "UNEWSGR",
        }
    }
}

/// One extended header subrecord: a known function, its content text,
/// and a status byte.
#[derive(Debug, Clone, PartialEq)]
pub struct ExtendedHeader {
    /// What the record carries.
    pub info: ExtendedHeaderInformation,
    /// The content text, trimmed.
    pub content: String,
    /// The record's status byte.
    pub status: u8,
}

/// Ghost projection of an extended header.
#[verifier::ext_equal]
pub struct ExtendedHeaderV {
    /// What the record carries.
    pub info: ExtendedHeaderInformation,
    /// The content text, trimmed.
    pub content: Seq<char>,
    /// The record's status byte.
    pub status: u8,
}

impl View for ExtendedHeader {
    type V = ExtendedHeaderV;

    open spec fn view(&self) -> ExtendedHeaderV {
        ExtendedHeaderV { info: self.info, content: self.content@, status: self.status }
    }
}

impl DeepView for ExtendedHeader {
    type V = ExtendedHeaderV;

    open spec fn deep_view(&self) -> ExtendedHeaderV {
        self.view()
    }
}

/// What decoding the 71-byte extended header at byte `pos` yields: the
/// record, the error for an unknown function tag, or the image
/// exhausted.
pub open spec fn spec_deserialize_extended(b: Seq<u8>, pos: int) -> Result<
    ExtendedHeaderV,
    PCBoardError,
> {
    if pos < 0 || pos + 71 > b.len() {
        Err(PCBoardError::UnexpectedEndOfData)
    } else {
        match spec_ehi_from(spec_text_field(b.subrange(pos + 2, pos + 9))) {
            Some(info) => Ok(
                ExtendedHeaderV {
                    info,
                    content: spec_text_field(b.subrange(pos + 10, pos + 70)),
                    status: b[pos + 70],
                },
            ),
            None => Err(PCBoardError::UnknownExtendedHeaderFunction),
        }
    }
}

impl ExtendedHeader {
    /// Decodes the extended header starting at byte `pos`: two id bytes
    /// skipped, a seven-character function tag, a separator, sixty
    /// bytes of content, one status byte.  An unrecognised tag is an
    /// error rather than a guess.
    pub fn deserialize(buf: &Vec<u8>, pos: usize) -> (r: Result<ExtendedHeader, PCBoardError>)
        ensures
            match r {
                Ok(e) => spec_deserialize_extended(buf@, pos as int) == Ok::<_, PCBoardError>(e@),
                Err(e) => spec_deserialize_extended(buf@, pos as int) == Err::<ExtendedHeaderV, _>(
                    e,
                ),
            },
    {
        let n = buf.len();
        if pos > n || n - pos < 71 {
            return Err(PCBoardError::UnexpectedEndOfData);
        }
        let tag = convert_str(buf, pos + 2, pos + 9);
        let info = match ExtendedHeaderInformation::from_str(tag.as_str()) {
            Ok(info) => info,
            Err(_) => {
                return Err(PCBoardError::UnknownExtendedHeaderFunction);
            },
        };
        let content = convert_str(buf, pos + 10, pos + 70);
        let status = buf[pos + 70];
        Ok(ExtendedHeader { info, content, status })
    }
}

} // verus!
