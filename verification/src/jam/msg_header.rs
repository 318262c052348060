//! The message-header codec: a fixed 76-byte record opened by the magic,
//! followed by a self-describing sequence of typed subfields whose total
//! byte length the fixed part declares.

use crate::jam::{has_signature, push_signature, spec_signature, JamError};
use crate::util::codec::{
    copy_range, le_u16_at, le_u32_at, lemma_le_u32_at_subrange, push_u16_le, push_u32_le,
    read_u16_le, read_u32_le,
};
use crate::util::strings::{lossy_string, lossy_text_of};
use vstd::bytes::{spec_u16_to_le_bytes, spec_u32_to_le_bytes};
use vstd::prelude::*;

verus! {

/// What a subfield's numeric id means.  Unrecognised ids map to
/// [`SubfieldType::Unknown`] instead of failing, so that bases written by
/// newer tools still read.
#[derive(Debug, Clone, Copy, PartialEq, Eq, Structural)]
pub enum SubfieldType {
    /// 0: packed origin address
    OriginAddress,
    /// 1: packed destination address
    DestinationAddress,
    /// 2: sender name
    SenderName,
    /// 3: recipient name
    ReceiverName,
    /// 4: message-id string
    MsgId,
    /// 5: reply-id string
    ReplyId,
    /// 6: subject
    Subject,
    /// 7: FTN PID
    Pid,
    /// 8: trace ("via") information
    Trace,
    /// 9: attached file
    EnclosedFile,
    /// 10: attached file with an alias
    EnclosedFileAlias,
    /// 11: file request
    EnclosedFreq,
    /// 12: attached files by wildcard
    EnclosedFileWildcard,
    /// 13: file holding a list of attached files
    EnclosedIndirectFile,
    /// 1000: embedded data
    EmbeddedData,
    /// 2000: FTS-compliant kludge line
    FtsKludge,
    /// 2001: two-dimensional SEEN-BY
    SeenBy2d,
    /// 2002: two-dimensional PATH
    Path2d,
    /// 2003: FLAGS kludge
    Flags,
    /// 2004: timezone information
    TzUtcInfo,
    /// any other id
    Unknown,
}

/// The fixed id-to-meaning table.
pub open spec fn spec_subfield_type(id: u32) -> SubfieldType {
    if id == 0 {
        SubfieldType::OriginAddress
    } else if id == 1 {
        SubfieldType::DestinationAddress
    } else if id == 2 {
        SubfieldType::SenderName
    } else if id == 3 {
        SubfieldType::ReceiverName
    } else if id == 4 {
        SubfieldType::MsgId
    } else if id == 5 {
        SubfieldType::ReplyId
    } else if id == 6 {
        SubfieldType::Subject
    } else if id == 7 {
        SubfieldType::Pid
    } else if id == 8 {
        SubfieldType::Trace
    } else if id == 9 {
        SubfieldType::EnclosedFile
    } else if id == 10 {
        SubfieldType::EnclosedFileAlias
    } else if id == 11 {
        SubfieldType::EnclosedFreq
    } else if id == 12 {
        SubfieldType::EnclosedFileWildcard
    } else if id == 13 {
        SubfieldType::EnclosedIndirectFile
    } else if id == 1000 {
        SubfieldType::EmbeddedData
    } else if id == 2000 {
        SubfieldType::FtsKludge
    } else if id == 2001 {
        SubfieldType::SeenBy2d
    } else if id == 2002 {
        SubfieldType::Path2d
    } else if id == 2003 {
        SubfieldType::Flags
    } else if id == 2004 {
        SubfieldType::TzUtcInfo
    } else {
        SubfieldType::Unknown
    }
}

/// One typed, variable-length record trailing a message header: its raw
/// numeric id and its payload bytes.  The semantic type is derived from
/// the id, never stored.
#[derive(Debug, Clone, PartialEq)]
pub struct MessageSubfield {
    /// The subfield's numeric id.
    pub id: u32,
    /// The raw payload bytes.
    pub content: Vec<u8>,
}

/// Ghost projection of a subfield.
#[verifier::ext_equal]
pub struct SubfieldV {
    /// The subfield's numeric id.
    pub id: u32,
    /// The raw payload bytes.
    pub content: Seq<u8>,
}

impl View for MessageSubfield {
    type V = SubfieldV;

    open spec fn view(&self) -> SubfieldV {
        SubfieldV { id: self.id, content: self.content@ }
    }
}

impl DeepView for MessageSubfield {
    type V = SubfieldV;

    open spec fn deep_view(&self) -> SubfieldV {
        self.view()
    }
}

impl MessageSubfield {
    /// The meaning of this subfield's id.
    pub fn field_type(&self) -> (r: SubfieldType)
        ensures
            r == spec_subfield_type(self.id),
    {
        if self.id == 0 {
            SubfieldType::OriginAddress
        } else if self.id == 1 {
            SubfieldType::DestinationAddress
        } else if self.id == 2 {
            SubfieldType::SenderName
        } else if self.id == 3 {
            SubfieldType::ReceiverName
        } else if self.id == 4 {
            SubfieldType::MsgId
        } else if self.id == 5 {
            SubfieldType::ReplyId
        } else if self.id == 6 {
            SubfieldType::Subject
        } else if self.id == 7 {
            SubfieldType::Pid
        } else if self.id == 8 {
            SubfieldType::Trace
        } else if self.id == 9 {
            SubfieldType::EnclosedFile
        } else if self.id == 10 {
            SubfieldType::EnclosedFileAlias
        } else if self.id == 11 {
            SubfieldType::EnclosedFreq
        } else if self.id == 12 {
            SubfieldType::EnclosedFileWildcard
        } else if self.id == 13 {
            SubfieldType::EnclosedIndirectFile
        } else if self.id == 1000 {
            SubfieldType::EmbeddedData
        } else if self.id == 2000 {
            SubfieldType::FtsKludge
        } else if self.id == 2001 {
            SubfieldType::SeenBy2d
        } else if self.id == 2002 {
            SubfieldType::Path2d
        } else if self.id == 2003 {
            SubfieldType::Flags
        } else if self.id == 2004 {
            SubfieldType::TzUtcInfo
        } else {
            SubfieldType::Unknown
        }
    }
}

/// The wire form of one subfield: id, payload length, payload.
pub open spec fn spec_subfield_bytes(s: SubfieldV) -> Seq<u8> {
    spec_u32_to_le_bytes(s.id) + spec_u32_to_le_bytes(s.content.len() as u32) + s.content
}

/// The concatenated wire form of a subfield sequence, in order.
pub open spec fn spec_subfields_bytes(s: Seq<SubfieldV>) -> Seq<u8>
    decreases s.len(),
{
    if s.len() == 0 {
        Seq::empty()
    } else {
        spec_subfield_bytes(s[0]) + spec_subfields_bytes(s.drop_first())
    }
}

/// A subfield sequence that can be written back: each payload length and
/// the total block length fit the `u32` fields that carry them.
pub open spec fn spec_subfields_wf(s: Seq<SubfieldV>) -> bool {
    &&& forall|i: int| 0 <= i < s.len() ==> (#[trigger] s[i]).content.len() <= u32::MAX
    &&& spec_subfields_bytes(s).len() <= u32::MAX
}

/// What parsing a subfield block `b` yields, `idx` being the ordinal of
/// the first subfield in it: the records in order, consuming the block
/// exactly, or the error for a record whose declared payload overruns
/// what is left (a remainder too short even for an id and a length reads
/// the same way).
pub open spec fn spec_parse_subfields(b: Seq<u8>, idx: int) -> Result<Seq<SubfieldV>, JamError>
    decreases b.len(),
{
    if b.len() == 0 {
        Ok(Seq::empty())
    } else if b.len() < 8 {
        Err(JamError::InvalidSubfieldLength(b.len() as u32, idx as usize))
    } else {
        let id = le_u32_at(b, 0);
        let dlen = le_u32_at(b, 4);
        if 8 + (dlen as int) > b.len() {
            Err(JamError::InvalidSubfieldLength(dlen, idx as usize))
        } else {
            match spec_parse_subfields(b.skip(8 + dlen as int), idx + 1) {
                Ok(rest) => Ok(
                    seq![SubfieldV { id, content: b.subrange(8, 8 + dlen as int) }] + rest,
                ),
                Err(e) => Err(e),
            }
        }
    }
}

/// One stored message's header: the decoded fixed fields and the
/// subfield sequence, order and raw bytes preserved.  A header read from
/// a base is an immutable snapshot; the writing side fills the number,
/// date and text position in at append time.
#[derive(Debug, Clone, PartialEq)]
pub struct MessageHeader {
    /// How often the message was read.
    pub times_read: u32,
    /// Checksum of the normalised message-id, for threading.
    pub msgid_crc: u32,
    /// Checksum of the normalised reply-id, for threading.
    pub replycrc: u32,
    /// Number of the message this one replies to.
    pub reply_to: u32,
    /// Number of the first reply to this message.
    pub reply1st: u32,
    /// Number of the next message in the thread.
    pub replynext: u32,
    /// When the message was written, seconds since the epoch.
    pub date_written: u32,
    /// When the message was received.
    pub date_received: u32,
    /// When the message was processed by the tosser/scanner.
    pub date_processed: u32,
    /// The message's logical number.
    pub message_number: u32,
    /// First attribute word; see [`crate::jam::attributes`].
    pub attributes: u32,
    /// Second attribute word, reserved.
    pub attributes2: u32,
    /// Byte offset of the message text inside the text file.
    pub offset: u32,
    /// Byte length of the message text.
    pub txt_len: u32,
    /// Checksum of the message password, or the sentinel for none.
    pub password_crc: u32,
    /// Cost in whatever unit the network uses.
    pub cost: u32,
    /// The subfields, in stored order.
    pub sub_fields: Vec<MessageSubfield>,
}

/// Ghost projection of a message header.
#[verifier::ext_equal]
pub struct MessageHeaderV {
    /// How often the message was read.
    pub times_read: u32,
    /// Checksum of the normalised message-id.
    pub msgid_crc: u32,
    /// Checksum of the normalised reply-id.
    pub replycrc: u32,
    /// Number of the message this one replies to.
    pub reply_to: u32,
    /// Number of the first reply.
    pub reply1st: u32,
    /// Number of the next message in the thread.
    pub replynext: u32,
    /// When the message was written.
    pub date_written: u32,
    /// When the message was received.
    pub date_received: u32,
    /// When the message was processed.
    pub date_processed: u32,
    /// The message's logical number.
    pub message_number: u32,
    /// First attribute word.
    pub attributes: u32,
    /// Second attribute word.
    pub attributes2: u32,
    /// Byte offset of the text.
    pub offset: u32,
    /// Byte length of the text.
    pub txt_len: u32,
    /// Checksum of the message password.
    pub password_crc: u32,
    /// Cost.
    pub cost: u32,
    /// The subfields, in stored order.
    pub sub_fields: Seq<SubfieldV>,
}

impl View for MessageHeader {
    type V = MessageHeaderV;

    open spec fn view(&self) -> MessageHeaderV {
        MessageHeaderV {
            times_read: self.times_read,
            msgid_crc: self.msgid_crc,
            replycrc: self.replycrc,
            reply_to: self.reply_to,
            reply1st: self.reply1st,
            replynext: self.replynext,
            date_written: self.date_written,
            date_received: self.date_received,
            date_processed: self.date_processed,
            message_number: self.message_number,
            attributes: self.attributes,
            attributes2: self.attributes2,
            offset: self.offset,
            txt_len: self.txt_len,
            password_crc: self.password_crc,
            cost: self.cost,
            sub_fields: self.sub_fields.deep_view(),
        }
    }
}

impl DeepView for MessageHeader {
    type V = MessageHeaderV;

    open spec fn deep_view(&self) -> MessageHeaderV {
        self.view()
    }
}

/// A header whose subfields can be written back.
pub open spec fn spec_header_wf(h: MessageHeaderV) -> bool {
    spec_subfields_wf(h.sub_fields)
}

/// The fixed 76-byte prefix of a header's wire form, `sublen` being the
/// byte length of the subfield block that follows it.
pub open spec fn spec_header_fixed_bytes(h: MessageHeaderV, sublen: u32) -> Seq<u8> {
    spec_signature() + spec_u16_to_le_bytes(1u16) + spec_u16_to_le_bytes(0u16)
        + spec_u32_to_le_bytes(sublen) + spec_u32_to_le_bytes(h.times_read) + spec_u32_to_le_bytes(
        h.msgid_crc,
    ) + spec_u32_to_le_bytes(h.replycrc) + spec_u32_to_le_bytes(h.reply_to) + spec_u32_to_le_bytes(
        h.reply1st,
    ) + spec_u32_to_le_bytes(h.replynext) + spec_u32_to_le_bytes(h.date_written)
        + spec_u32_to_le_bytes(h.date_received) + spec_u32_to_le_bytes(h.date_processed)
        + spec_u32_to_le_bytes(h.message_number) + spec_u32_to_le_bytes(h.attributes)
        + spec_u32_to_le_bytes(h.attributes2) + spec_u32_to_le_bytes(h.offset)
        + spec_u32_to_le_bytes(h.txt_len) + spec_u32_to_le_bytes(h.password_crc)
        + spec_u32_to_le_bytes(h.cost)
}

/// The full wire form of a header: the fixed prefix, its subfield-block
/// length recomputed as the exact byte length of the concatenated
/// subfields, then the subfields in stored order.
pub open spec fn spec_header_bytes(h: MessageHeaderV) -> Seq<u8> {
    spec_header_fixed_bytes(h, spec_subfields_bytes(h.sub_fields).len() as u32)
        + spec_subfields_bytes(h.sub_fields)
}

/// What decoding a header record of image `b` at byte `pos` yields: the
/// header and the position just past it, or the error.  A missing magic
/// doubles as the end-of-stream check, and a record that runs off the end
/// of the image reads the same way; a declared revision other than 1 and
/// a subfield overrunning its block are their own errors.
pub open spec fn spec_read_header(b: Seq<u8>, pos: int) -> Result<(MessageHeaderV, int), JamError> {
    if pos < 0 || pos + 76 > b.len() {
        Err(JamError::InvalidHeaderSignature)
    } else if b.subrange(pos, pos + 4) != spec_signature() {
        Err(JamError::InvalidHeaderSignature)
    } else if le_u16_at(b, pos + 4) != 1 {
        Err(JamError::UnsupportedMessageHeaderRevision(le_u16_at(b, pos + 4)))
    } else if pos + 76 + (le_u32_at(b, pos + 8) as int) > b.len() {
        Err(JamError::InvalidHeaderSignature)
    } else {
        let sub_end = pos + 76 + (le_u32_at(b, pos + 8) as int);
        match spec_parse_subfields(b.subrange(pos + 76, sub_end), 0) {
            Ok(sfs) => Ok(
                (
                    MessageHeaderV {
                        times_read: le_u32_at(b, pos + 12),
                        msgid_crc: le_u32_at(b, pos + 16),
                        replycrc: le_u32_at(b, pos + 20),
                        reply_to: le_u32_at(b, pos + 24),
                        reply1st: le_u32_at(b, pos + 28),
                        replynext: le_u32_at(b, pos + 32),
                        date_written: le_u32_at(b, pos + 36),
                        date_received: le_u32_at(b, pos + 40),
                        date_processed: le_u32_at(b, pos + 44),
                        message_number: le_u32_at(b, pos + 48),
                        attributes: le_u32_at(b, pos + 52),
                        attributes2: le_u32_at(b, pos + 56),
                        offset: le_u32_at(b, pos + 60),
                        txt_len: le_u32_at(b, pos + 64),
                        password_crc: le_u32_at(b, pos + 68),
                        cost: le_u32_at(b, pos + 72),
                        sub_fields: sfs,
                    },
                    sub_end,
                ),
            ),
            Err(e) => Err(e),
        }
    }
}

impl MessageHeader {
    /// Decodes the header record starting at byte `pos` of a header-file
    /// image, returning it with the position just past its subfield
    /// block.  Callers scanning a whole base read records in a loop and
    /// treat any error as "no more headers"; a direct lookup propagates
    /// it.
    #[verifier::loop_isolation(false)]
    pub fn read(data: &Vec<u8>, pos: usize) -> (r: Result<(MessageHeader, usize), JamError>)
        ensures
            match r {
                Ok(p) => spec_read_header(data@, pos as int) == Ok::<_, JamError>(
                    (p.0@, p.1 as int),
                ) && pos < p.1 <= data@.len(),
                Err(e) => spec_read_header(data@, pos as int) == Err::<(MessageHeaderV, int),
                    _,
                >(e),
            },
    {
        let n = data.len();
        if pos > n || n - pos < 76 {
            return Err(JamError::InvalidHeaderSignature);
        }
        if !has_signature(data, pos) {
            return Err(JamError::InvalidHeaderSignature);
        }
        let revision = read_u16_le(data, pos + 4);
        if revision != 1 {
            return Err(JamError::UnsupportedMessageHeaderRevision(revision));
        }
        let sublen = read_u32_le(data, pos + 8);
        if sublen as usize > n - pos - 76 {
            return Err(JamError::InvalidHeaderSignature);
        }
        let sub_end = pos + 76 + sublen as usize;
        let ghost block = data@.subrange(pos + 76, sub_end as int);
        let mut sub_fields: Vec<MessageSubfield> = Vec::new();
        let mut p = pos + 76;
        proof {
            assert(block.skip(0) =~= block);
            assert(sub_fields.deep_view() =~= Seq::<SubfieldV>::empty());
            match spec_parse_subfields(block, 0) {
                Ok(rest) => {
                    assert(Seq::<SubfieldV>::empty() + rest =~= rest);
                },
                Err(_) => {},
            }
        }
        while p < sub_end
            invariant
                pos + 76 <= p <= sub_end <= data@.len(),
                sub_end == pos + 76 + sublen,
                block == data@.subrange(pos + 76, sub_end as int),
                spec_parse_subfields(block, 0) == (match spec_parse_subfields(
                    block.skip(p - (pos + 76)),
                    sub_fields@.len() as int,
                ) {
                    Ok(rest) => Ok::<_, JamError>(sub_fields.deep_view() + rest),
                    Err(e) => Err::<Seq<SubfieldV>, _>(e),
                }),
            decreases sub_end - p,
        {
            let ghost k_old = p - (pos + 76);
            let ghost cnt = sub_fields@.len() as int;
            let rem = sub_end - p;
            proof {
                assert(block.skip(k_old).len() == rem);
            }
            if rem < 8 {
                return Err(JamError::InvalidSubfieldLength(rem as u32, sub_fields.len()));
            }
            let id = read_u32_le(data, p);
            let dlen = read_u32_le(data, p + 4);
            proof {
                lemma_le_u32_at_subrange(data@, pos + 76, sub_end as int, k_old);
                lemma_le_u32_at_subrange(data@, pos + 76, sub_end as int, k_old + 4);
                assert(block.skip(k_old).subrange(0, 4) =~= block.subrange(k_old, k_old + 4));
                assert(block.skip(k_old).subrange(4, 8) =~= block.subrange(k_old + 4, k_old + 8));
                assert(le_u32_at(block.skip(k_old), 0) == id);
                assert(le_u32_at(block.skip(k_old), 4) == dlen);
            }
            if dlen as usize > rem - 8 {
                return Err(JamError::InvalidSubfieldLength(dlen, sub_fields.len()));
            }
            let dl = dlen as usize;
            let content = copy_range(data, p + 8, p + 8 + dl);
            let ghost sfv = SubfieldV { id, content: content@ };
            let ghost old_deep = sub_fields.deep_view();
            sub_fields.push(MessageSubfield { id, content });
            p = p + 8 + dl;
            proof {
                let k_new = p - (pos + 76);
                let new_deep = sub_fields.deep_view();
                assert(new_deep =~= old_deep.push(sfv));
                assert(block.skip(k_old).subrange(8, 8 + dl as int) =~= block.subrange(
                    k_old + 8,
                    k_old + 8 + dl as int,
                ));
                assert(block.subrange(k_old + 8, k_old + 8 + dl as int) =~= data@.subrange(
                    p - dl,
                    p as int,
                ));
                assert(block.skip(k_old).subrange(8, 8 + dl as int) =~= sfv.content);
                assert(block.skip(k_old).skip(8 + dl as int) =~= block.skip(k_new));
                assert(spec_parse_subfields(block.skip(k_old), cnt) == (match spec_parse_subfields(
                    block.skip(k_new),
                    cnt + 1,
                ) {
                    Ok(rest) => Ok::<_, JamError>(seq![sfv] + rest),
                    Err(e) => Err::<Seq<SubfieldV>, _>(e),
                }));
                match spec_parse_subfields(block.skip(k_new), cnt + 1) {
                    Ok(rest) => {
                        assert(old_deep + (seq![sfv] + rest) =~= new_deep + rest);
                    },
                    Err(_) => {},
                }
            }
        }
        proof {
            assert(block.skip(sub_end - (pos + 76)).len() == 0);
            assert(spec_parse_subfields(block, 0) == Ok::<_, JamError>(
                sub_fields.deep_view() + Seq::<SubfieldV>::empty(),
            ));
            assert(sub_fields.deep_view() + Seq::<SubfieldV>::empty() =~= sub_fields.deep_view());
        }
        let header = MessageHeader {
            times_read: read_u32_le(data, pos + 12),
            msgid_crc: read_u32_le(data, pos + 16),
            replycrc: read_u32_le(data, pos + 20),
            reply_to: read_u32_le(data, pos + 24),
            reply1st: read_u32_le(data, pos + 28),
            replynext: read_u32_le(data, pos + 32),
            date_written: read_u32_le(data, pos + 36),
            date_received: read_u32_le(data, pos + 40),
            date_processed: read_u32_le(data, pos + 44),
            message_number: read_u32_le(data, pos + 48),
            attributes: read_u32_le(data, pos + 52),
            attributes2: read_u32_le(data, pos + 56),
            offset: read_u32_le(data, pos + 60),
            txt_len: read_u32_le(data, pos + 64),
            password_crc: read_u32_le(data, pos + 68),
            cost: read_u32_le(data, pos + 72),
            sub_fields,
        };
        Ok((header, sub_end))
    }
}

/// Appending one subfield to a sequence appends its wire form to the
/// sequence's wire form.
pub proof fn lemma_subfields_bytes_snoc(s: Seq<SubfieldV>, x: SubfieldV)
    ensures
        spec_subfields_bytes(s.push(x)) == spec_subfields_bytes(s) + spec_subfield_bytes(x),
    decreases s.len(),
{
    if s.len() == 0 {
        assert(s.push(x)[0] == x);
        assert(s.push(x).drop_first() =~= Seq::<SubfieldV>::empty());
        assert(spec_subfields_bytes(s.push(x).drop_first()) == Seq::<u8>::empty());
        assert(spec_subfield_bytes(x) + Seq::<u8>::empty() =~= Seq::<u8>::empty()
            + spec_subfield_bytes(x));
        assert(spec_subfields_bytes(s.push(x)) =~= spec_subfields_bytes(s)
            + spec_subfield_bytes(x));
    } else {
        lemma_subfields_bytes_snoc(s.drop_first(), x);
        assert(s.push(x).drop_first() =~= s.drop_first().push(x));
        assert(s.push(x)[0] == s[0]);
        assert(spec_subfield_bytes(s[0]) + (spec_subfields_bytes(s.drop_first())
            + spec_subfield_bytes(x)) =~= (spec_subfield_bytes(s[0]) + spec_subfields_bytes(
            s.drop_first(),
        )) + spec_subfield_bytes(x));
    }
}

/// The wire form of a sequence splits at any index into the wire forms
/// of its two halves.
pub proof fn lemma_subfields_bytes_split(s: Seq<SubfieldV>, i: int)
    requires
        0 <= i <= s.len(),
    ensures
        spec_subfields_bytes(s) == spec_subfields_bytes(s.take(i)) + spec_subfields_bytes(
            s.skip(i),
        ),
    decreases i,
{
    if i == 0 {
        assert(s.take(0) =~= Seq::<SubfieldV>::empty());
        assert(s.skip(0) =~= s);
        assert(spec_subfields_bytes(s) =~= spec_subfields_bytes(s.take(0)) + spec_subfields_bytes(
            s.skip(0),
        ));
    } else {
        lemma_subfields_bytes_split(s.drop_first(), i - 1);
        assert(s.take(i)[0] == s[0]);
        assert(s.take(i).drop_first() =~= s.drop_first().take(i - 1));
        assert(s.skip(i) =~= s.drop_first().skip(i - 1));
        assert(spec_subfield_bytes(s[0]) + (spec_subfields_bytes(s.drop_first().take(i - 1))
            + spec_subfields_bytes(s.drop_first().skip(i - 1))) =~= (spec_subfield_bytes(s[0])
            + spec_subfields_bytes(s.drop_first().take(i - 1))) + spec_subfields_bytes(
            s.drop_first().skip(i - 1),
        ));
    }
}

impl MessageHeader {
    /// Appends this header's wire form: the fixed prefix with the
    /// subfield-block length recomputed, then every subfield in stored
    /// order.  The threading checksums are passed through unchanged; the
    /// codec never computes them.
    pub fn write(&self, out: &mut Vec<u8>)
        requires
            spec_header_wf(self@),
        ensures
            final(out)@ == old(out)@ + spec_header_bytes(self@),
    {
        let ghost deep = self@.sub_fields;
        // The exact byte length of the concatenated subfields.
        let mut total: u64 = 0;
        let mut i: usize = 0;
        while i < self.sub_fields.len()
            invariant
                spec_header_wf(self@),
                deep == self@.sub_fields,
                i <= deep.len(),
                total == spec_subfields_bytes(deep.take(i as int)).len(),
                total <= spec_subfields_bytes(deep).len(),
            decreases deep.len() - i,
        {
            proof {
                vstd::bytes::lemma_auto_spec_u32_to_from_le_bytes();
                assert(deep[i as int] == self.sub_fields@[i as int]@);
                lemma_subfields_bytes_snoc(deep.take(i as int), deep[i as int]);
                assert(deep.take(i + 1) =~= deep.take(i as int).push(deep[i as int]));
                lemma_subfields_bytes_split(deep, i + 1);
            }
            total = total + 8 + self.sub_fields[i].content.len() as u64;
            i = i + 1;
        }
        proof {
            assert(deep.take(deep.len() as int) =~= deep);
        }
        let sublen = total as u32;
        push_signature(out);
        push_u16_le(out, 1);
        push_u16_le(out, 0);
        push_u32_le(out, sublen);
        push_u32_le(out, self.times_read);
        push_u32_le(out, self.msgid_crc);
        push_u32_le(out, self.replycrc);
        push_u32_le(out, self.reply_to);
        push_u32_le(out, self.reply1st);
        push_u32_le(out, self.replynext);
        push_u32_le(out, self.date_written);
        push_u32_le(out, self.date_received);
        push_u32_le(out, self.date_processed);
        push_u32_le(out, self.message_number);
        push_u32_le(out, self.attributes);
        push_u32_le(out, self.attributes2);
        push_u32_le(out, self.offset);
        push_u32_le(out, self.txt_len);
        push_u32_le(out, self.password_crc);
        push_u32_le(out, self.cost);
        proof {
            assert(out@ =~= old(out)@ + spec_header_fixed_bytes(self@, sublen));
        }
        let ghost after_fixed = out@;
        let mut j: usize = 0;
        while j < self.sub_fields.len()
            invariant
                spec_header_wf(self@),
                deep == self@.sub_fields,
                j <= deep.len(),
                out@ == after_fixed + spec_subfields_bytes(deep.take(j as int)),
            decreases deep.len() - j,
        {
            let sub = &self.sub_fields[j];
            push_u32_le(out, sub.id);
            push_u32_le(out, sub.content.len() as u32);
            let mut content = copy_range(&sub.content, 0, sub.content.len());
            out.append(&mut content);
            j = j + 1;
            proof {
                lemma_subfields_bytes_snoc(deep.take(j - 1), deep[j - 1]);
                assert(deep.take(j as int) =~= deep.take(j - 1).push(deep[j - 1]));
                assert(sub.content@.subrange(0, sub.content@.len() as int) =~= sub.content@);
                assert(out@ =~= after_fixed + spec_subfields_bytes(deep.take(j as int)));
            }
        }
        proof {
            assert(deep.take(deep.len() as int) =~= deep);
            assert(out@ =~= old(out)@ + spec_header_bytes(self@));
        }
    }
}

/// Parsing a subfield block that is the wire form of a sequence yields
/// exactly that sequence, whatever ordinal the count starts at.
pub proof fn lemma_parse_subfields_roundtrip(s: Seq<SubfieldV>, idx: int)
    requires
        forall|i: int| 0 <= i < s.len() ==> (#[trigger] s[i]).content.len() <= u32::MAX,
    ensures
        spec_parse_subfields(spec_subfields_bytes(s), idx) == Ok::<_, JamError>(s),
    decreases s.len(),
{
    vstd::bytes::lemma_auto_spec_u32_to_from_le_bytes();
    if s.len() == 0 {
        assert(spec_subfields_bytes(s).len() == 0);
        assert(s =~= Seq::<SubfieldV>::empty());
    } else {
        let b = spec_subfields_bytes(s);
        let first = spec_subfield_bytes(s[0]);
        let rest = spec_subfields_bytes(s.drop_first());
        let c0 = s[0].content;
        assert(b == first + rest);
        assert(first.len() == 8 + c0.len());
        assert(b.subrange(0, 4) =~= spec_u32_to_le_bytes(s[0].id));
        assert(b.subrange(4, 8) =~= spec_u32_to_le_bytes(c0.len() as u32));
        assert(le_u32_at(b, 0) == s[0].id);
        assert(le_u32_at(b, 4) == c0.len() as u32);
        assert(le_u32_at(b, 4) as int == c0.len());
        assert(b.subrange(8, 8 + c0.len() as int) =~= c0);
        assert(b.skip(8 + c0.len() as int) =~= rest);
        assert(forall|i: int|
            0 <= i < s.drop_first().len() ==> (#[trigger] s.drop_first()[i]).content.len()
                <= u32::MAX);
        lemma_parse_subfields_roundtrip(s.drop_first(), idx + 1);
        assert(SubfieldV { id: s[0].id, content: b.subrange(8, 8 + c0.len() as int) } == s[0]);
        assert(seq![s[0]] + s.drop_first() =~= s);
    }
}

/// Decoding at the end of `prefix` after the wire form of `h` was
/// appended there yields `h` again, field for field, subfield order and
/// raw bytes included, and consumes exactly the appended bytes.
pub proof fn lemma_read_header_appended(prefix: Seq<u8>, h: MessageHeaderV)
    requires
        spec_header_wf(h),
    ensures
        spec_read_header(prefix + spec_header_bytes(h), prefix.len() as int) == Ok::<
            _,
            JamError,
        >((h, (prefix.len() + spec_header_bytes(h).len()) as int)),
{
    vstd::bytes::lemma_auto_spec_u32_to_from_le_bytes();
    vstd::bytes::lemma_auto_spec_u16_to_from_le_bytes();
    let pos = prefix.len() as int;
    let sb = spec_subfields_bytes(h.sub_fields);
    let e = spec_header_bytes(h);
    let b = prefix + e;
    assert(spec_header_fixed_bytes(h, sb.len() as u32).len() == 76);
    assert(e.len() == 76 + sb.len());
    assert(b.subrange(pos, pos + 4) =~= spec_signature());
    assert(b.subrange(pos + 4, pos + 6) =~= spec_u16_to_le_bytes(1u16));
    assert(le_u16_at(b, pos + 4) == 1u16);
    assert(b.subrange(pos + 8, pos + 12) =~= spec_u32_to_le_bytes(sb.len() as u32));
    assert(le_u32_at(b, pos + 8) == sb.len() as u32);
    assert(le_u32_at(b, pos + 8) as int == sb.len());
    assert(pos + 76 + sb.len() == b.len());
    assert(b.subrange(pos + 12, pos + 16) =~= spec_u32_to_le_bytes(h.times_read));
    assert(b.subrange(pos + 16, pos + 20) =~= spec_u32_to_le_bytes(h.msgid_crc));
    assert(b.subrange(pos + 20, pos + 24) =~= spec_u32_to_le_bytes(h.replycrc));
    assert(b.subrange(pos + 24, pos + 28) =~= spec_u32_to_le_bytes(h.reply_to));
    assert(b.subrange(pos + 28, pos + 32) =~= spec_u32_to_le_bytes(h.reply1st));
    assert(b.subrange(pos + 32, pos + 36) =~= spec_u32_to_le_bytes(h.replynext));
    assert(b.subrange(pos + 36, pos + 40) =~= spec_u32_to_le_bytes(h.date_written));
    assert(b.subrange(pos + 40, pos + 44) =~= spec_u32_to_le_bytes(h.date_received));
    assert(b.subrange(pos + 44, pos + 48) =~= spec_u32_to_le_bytes(h.date_processed));
    assert(b.subrange(pos + 48, pos + 52) =~= spec_u32_to_le_bytes(h.message_number));
    assert(b.subrange(pos + 52, pos + 56) =~= spec_u32_to_le_bytes(h.attributes));
    assert(b.subrange(pos + 56, pos + 60) =~= spec_u32_to_le_bytes(h.attributes2));
    assert(b.subrange(pos + 60, pos + 64) =~= spec_u32_to_le_bytes(h.offset));
    assert(b.subrange(pos + 64, pos + 68) =~= spec_u32_to_le_bytes(h.txt_len));
    assert(b.subrange(pos + 68, pos + 72) =~= spec_u32_to_le_bytes(h.password_crc));
    assert(b.subrange(pos + 72, pos + 76) =~= spec_u32_to_le_bytes(h.cost));
    assert(b.subrange(pos + 76, pos + 76 + sb.len() as int) =~= sb);
    lemma_parse_subfields_roundtrip(h.sub_fields, 0);
    match spec_read_header(b, pos) {
        Ok(p) => {
            assert(p.0 =~~= h);
        },
        Err(_) => {
            assert(false);
        },
    }
}

/// The round-trip law of the header codec: decoding the wire form of any
/// well-formed header yields that header again, field for field,
/// subfield order and raw bytes included.
pub proof fn lemma_header_roundtrip(h: MessageHeaderV)
    requires
        spec_header_wf(h),
    ensures
        spec_read_header(spec_header_bytes(h), 0) == Ok::<_, JamError>(
            (h, spec_header_bytes(h).len() as int),
        ),
{
    lemma_read_header_appended(Seq::empty(), h);
    assert(Seq::<u8>::empty() + spec_header_bytes(h) =~= spec_header_bytes(h));
}

/// The first subfield of `s` whose id means `t`, if any.
pub open spec fn spec_first_of_type(s: Seq<SubfieldV>, t: SubfieldType) -> Option<SubfieldV>
    decreases s.len(),
{
    if s.len() == 0 {
        None
    } else if spec_subfield_type(s[0].id) == t {
        Some(s[0])
    } else {
        spec_first_of_type(s.drop_first(), t)
    }
}

impl MessageHeader {
    /// The first subfield whose id means `t`, if any.
    pub fn first_of_type(&self, t: SubfieldType) -> (r: Option<&MessageSubfield>)
        ensures
            match r {
                Some(sf) => spec_first_of_type(self@.sub_fields, t) == Some(sf@),
                None => spec_first_of_type(self@.sub_fields, t) == None::<SubfieldV>,
            },
    {
        let ghost deep = self@.sub_fields;
        let mut i: usize = 0;
        proof {
            assert(deep.skip(0) =~= deep);
        }
        while i < self.sub_fields.len()
            invariant
                deep == self@.sub_fields,
                i <= deep.len(),
                spec_first_of_type(deep, t) == spec_first_of_type(deep.skip(i as int), t),
            decreases deep.len() - i,
        {
            let sf = &self.sub_fields[i];
            if sf.field_type() == t {
                proof {
                    assert(deep.skip(i as int)[0] == deep[i as int]);
                }
                return Some(sf);
            }
            i = i + 1;
            proof {
                assert(deep.skip(i - 1).drop_first() =~= deep.skip(i as int));
            }
        }
        None
    }

    /// The recipient name, lossily decoded from the first matching
    /// subfield.
    pub fn get_to(&self) -> (r: Option<String>)
        ensures
            match (r, spec_first_of_type(self@.sub_fields, SubfieldType::ReceiverName)) {
                (Some(s), Some(f)) => s@ == lossy_text_of(f.content),
                (None, None) => true,
                _ => false,
            },
    {
        match self.first_of_type(SubfieldType::ReceiverName) {
            Some(sf) => Some(lossy_string(&sf.content)),
            None => None,
        }
    }

    /// The sender name, lossily decoded from the first matching subfield.
    pub fn get_from(&self) -> (r: Option<String>)
        ensures
            match (r, spec_first_of_type(self@.sub_fields, SubfieldType::SenderName)) {
                (Some(s), Some(f)) => s@ == lossy_text_of(f.content),
                (None, None) => true,
                _ => false,
            },
    {
        match self.first_of_type(SubfieldType::SenderName) {
            Some(sf) => Some(lossy_string(&sf.content)),
            None => None,
        }
    }

    /// The subject, lossily decoded from the first matching subfield.
    pub fn get_subject(&self) -> (r: Option<String>)
        ensures
            match (r, spec_first_of_type(self@.sub_fields, SubfieldType::Subject)) {
                (Some(s), Some(f)) => s@ == lossy_text_of(f.content),
                (None, None) => true,
                _ => false,
            },
    {
        match self.first_of_type(SubfieldType::Subject) {
            Some(sf) => Some(lossy_string(&sf.content)),
            None => None,
        }
    }
}

impl Default for MessageHeader {
    /// A blank header: every fixed field zero and no subfields.
    fn default() -> (r: Self)
        ensures
            r@ == (MessageHeaderV {
                times_read: 0,
                msgid_crc: 0,
                replycrc: 0,
                reply_to: 0,
                reply1st: 0,
                replynext: 0,
                date_written: 0,
                date_received: 0,
                date_processed: 0,
                message_number: 0,
                attributes: 0,
                attributes2: 0,
                offset: 0,
                txt_len: 0,
                password_crc: 0,
                cost: 0,
                sub_fields: Seq::empty(),
            }),
    {
        let r = MessageHeader {
            times_read: 0,
            msgid_crc: 0,
            replycrc: 0,
            reply_to: 0,
            reply1st: 0,
            replynext: 0,
            date_written: 0,
            date_received: 0,
            date_processed: 0,
            message_number: 0,
            attributes: 0,
            attributes2: 0,
            offset: 0,
            txt_len: 0,
            password_crc: 0,
            cost: 0,
            sub_fields: Vec::new(),
        };
        proof {
            assert(r@.sub_fields =~= Seq::<SubfieldV>::empty());
            assert(r@ =~~= (MessageHeaderV {
                times_read: 0,
                msgid_crc: 0,
                replycrc: 0,
                reply_to: 0,
                reply1st: 0,
                replynext: 0,
                date_written: 0,
                date_received: 0,
                date_processed: 0,
                message_number: 0,
                attributes: 0,
                attributes2: 0,
                offset: 0,
                txt_len: 0,
                password_crc: 0,
                cost: 0,
                sub_fields: Seq::empty(),
            }));
        }
        r
    }
}

} // verus!
