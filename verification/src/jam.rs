//! The JAM message-base engine.
//!
//! A base is four co-located files sharing one base name: the header file
//! (a fixed info block followed by message-header records), the text file
//! (raw message text), the index file (one 8-byte record per message) and
//! the last-read file (one 16-byte record per user).  All integers are
//! little-endian.  The functions here take the byte images of those files
//! and are exact about what they decode, encode and look up; the caller
//! owns the actual file handles.

pub mod attributes;
pub mod jhr_header;
pub mod last_read_storage;
pub mod msg_header;

use crate::jam::jhr_header::{header_image, spec_load, JHRHeaderInfo, JHR_HEADER_SIZE};
use crate::jam::last_read_storage::{spec_last_read_at, spec_last_read_records, LastReadStorage};
use crate::jam::msg_header::{
    lemma_read_header_appended, spec_first_of_type, spec_header_bytes, spec_header_wf,
    spec_read_header, MessageHeader, MessageHeaderV, SubfieldType, SubfieldV,
};
use crate::util::codec::{le_u32_at, push_u32_le, read_u32_le};
use crate::util::crc32::{crc32_of, get_crc32, CRC_SEED};
use crate::util::strings::{ascii_lower, lossy_text_of, push_char, to_ascii_lower};
use rayon::iter::{IntoParallelIterator, ParallelIterator};
use vstd::bytes::spec_u32_to_le_bytes;
use vstd::prelude::*;
use vstd::string::{StrSliceExecFns, StringSliceAdditionalSpecFns};
use vstd::utf8::encode_utf8;

verus! {

/// The failures the engine itself can report; transport problems stay
/// with the caller, who owns the files.
#[derive(Debug, Clone, Copy, PartialEq, Eq, Structural)]
pub enum JamError {
    /// A record did not start with the `JAM\0` magic (a short image reads
    /// the same way: the magic cannot be there).
    InvalidHeaderSignature,
    /// The index image is not a whole number of 8-byte records.
    IndexFileCorrupted,
    /// A message header declared a revision other than 1.
    UnsupportedMessageHeaderRevision(u16),
    /// A subfield declared more payload than its block has left; the
    /// fields are the declared length and the subfield's ordinal.
    InvalidSubfieldLength(u32, usize),
    /// A message number outside the valid range; the fields are the
    /// number asked for and the bounds of the valid range.
    MessageNumberOutOfRange(u32, u32, u32),
}

/// The 4-byte magic `J A M \0` that opens the base header and every
/// message header record.
pub open spec fn spec_signature() -> Seq<u8> {
    seq![74u8, 65u8, 77u8, 0u8]
}

/// Whether the four bytes of `data` at `pos` are the `JAM\0` magic.
pub(crate) fn has_signature(data: &Vec<u8>, pos: usize) -> (r: bool)
    requires
        pos + 4 <= data@.len(),
    ensures
        r == (data@.subrange(pos as int, pos + 4) == spec_signature()),
{
    let n = data.len();
    assert(pos + 4 <= n);
    let r = data[pos] == 74 && data[pos + 1] == 65 && data[pos + 2] == 77 && data[pos + 3] == 0;
    proof {
        if r {
            assert(data@.subrange(pos as int, pos + 4) =~= spec_signature());
        } else {
            assert(data@.subrange(pos as int, pos + 4) != spec_signature());
        }
    }
    r
}

/// Appends the `JAM\0` magic to `out`.
pub(crate) fn push_signature(out: &mut Vec<u8>)
    ensures
        final(out)@ == old(out)@ + spec_signature(),
{
    out.push(74);
    out.push(65);
    out.push(77);
    out.push(0);
    proof {
        assert(out@ =~= old(out)@ + spec_signature());
    }
}

/// The checksum of a name or password: the CRC-32 of its UTF-8 bytes
/// with every ASCII capital letter lowered first, as the format requires
/// for matching.
pub open spec fn spec_name_crc(s: Seq<char>) -> u32 {
    crc32_of(ascii_lower(encode_utf8(s)))
}

/// A message base: the loaded info block, the position of the last-read
/// record found by the latest lookup (-1 for none), and the advisory
/// in-process exclusivity flag.  No file handle is held between calls;
/// every operation takes the byte image of the file it reads, and the
/// writing operations hand back the bytes to append.
#[derive(Debug, Clone, Copy, PartialEq, Eq, Structural)]
pub struct MessageBase {
    /// The fixed fields of the base.
    pub header_info: JHRHeaderInfo,
    /// Record position remembered by the last successful last-read
    /// lookup, -1 when none was made.
    pub last_read_record: i32,
    /// The advisory in-process lock flag.  It protects nothing across
    /// processes or across handles.
    pub is_locked: bool,
}

impl MessageBase {
    /// The counters are consistent: the next message number to assign,
    /// base message number plus active count, fits its field.
    pub open spec fn wf(self) -> bool {
        self.header_info.base_msg_num + self.header_info.active_msgs <= u32::MAX
    }

    /// Opens a base from the image of its header file, decoding only the
    /// info block; the other files are read lazily per call.
    pub fn open(header_data: &Vec<u8>) -> (r: Result<MessageBase, JamError>)
        ensures
            match r {
                Ok(mb) => spec_load(header_data@) == Ok::<_, JamError>(mb.header_info)
                    && mb.last_read_record == -1 && !mb.is_locked,
                Err(e) => spec_load(header_data@) == Err::<JHRHeaderInfo, _>(e),
            },
    {
        let header_info = JHRHeaderInfo::load(header_data)?;
        Ok(MessageBase { header_info, last_read_record: -1, is_locked: false })
    }

    /// The loaded info block.
    pub fn get_info(&self) -> (r: &JHRHeaderInfo)
        ensures
            *r == self.header_info,
    {
        &self.header_info
    }

    /// The update counter.
    pub fn mod_counter(&self) -> (r: u32)
        ensures
            r == self.header_info.mod_counter,
    {
        self.header_info.mod_counter
    }

    /// The lowest message number in the index file.  The value is one
    /// when a base is first created; keeping it explicit lets a base be
    /// packed without renumbering.  It has to be taken into account when
    /// computing the next available number and the bounds of the area.
    pub fn base_messagenumber(&self) -> (r: u32)
        ensures
            r == self.header_info.base_msg_num,
    {
        self.header_info.base_msg_num
    }

    /// The number of active (not deleted) messages.
    pub fn active_messages(&self) -> (r: u32)
        ensures
            r == self.header_info.active_msgs,
    {
        self.header_info.active_msgs
    }

    /// True exactly when a password is required to access this base,
    /// that is, when the stored checksum differs from the sentinel.
    pub fn needs_password(&self) -> (r: bool)
        ensures
            r == (self.header_info.password_crc != CRC_SEED),
    {
        self.header_info.password_crc != CRC_SEED
    }

    /// True exactly when no password is enforced or the stored checksum
    /// equals the checksum of the lowercased candidate.
    pub fn is_password_valid(&self, password: &str) -> (r: bool)
        ensures
            r == (self.header_info.password_crc == CRC_SEED || self.header_info.password_crc
                == spec_name_crc(password@)),
    {
        self.header_info.password_crc == CRC_SEED || self.header_info.password_crc
            == Self::get_crc(password)
    }

    /// Creates a base with no password: the fresh in-memory base and the
    /// initial header-file image; the text, index and last-read files
    /// start empty.
    pub fn create(date_created: u32) -> (r: (MessageBase, Vec<u8>))
        ensures
            r.0.header_info == (JHRHeaderInfo {
                date_created,
                mod_counter: 0,
                active_msgs: 0,
                password_crc: CRC_SEED,
                base_msg_num: 1,
            }),
            r.0.last_read_record == -1,
            !r.0.is_locked,
            r.0.wf(),
            r.1@ == header_image(r.0.header_info),
    {
        Self::create_with_passwordcrc(CRC_SEED, date_created)
    }

    /// Creates a base protected by `password`.
    pub fn create_with_password(password: &str, date_created: u32) -> (r: (MessageBase, Vec<u8>))
        ensures
            r.0.header_info == (JHRHeaderInfo {
                date_created,
                mod_counter: 0,
                active_msgs: 0,
                password_crc: spec_name_crc(password@),
                base_msg_num: 1,
            }),
            r.0.last_read_record == -1,
            !r.0.is_locked,
            r.0.wf(),
            r.1@ == header_image(r.0.header_info),
    {
        Self::create_with_passwordcrc(Self::get_crc(password), date_created)
    }

    /// Creates a base whose password checksum is given directly.
    pub fn create_with_passwordcrc(passwordcrc: u32, date_created: u32) -> (r: (
        MessageBase,
        Vec<u8>,
    ))
        ensures
            r.0.header_info == (JHRHeaderInfo {
                date_created,
                mod_counter: 0,
                active_msgs: 0,
                password_crc: passwordcrc,
                base_msg_num: 1,
            }),
            r.0.last_read_record == -1,
            !r.0.is_locked,
            r.0.wf(),
            r.1@ == header_image(r.0.header_info),
    {
        let (header_info, image) = JHRHeaderInfo::create(passwordcrc, date_created);
        (MessageBase { header_info, last_read_record: -1, is_locked: false }, image)
    }

    /// Takes the advisory in-process lock; false (not an error) when this
    /// handle already holds it.
    pub fn lock(&mut self) -> (r: bool)
        ensures
            *final(self) == (MessageBase { is_locked: true, ..*old(self) }),
            r == !old(self).is_locked,
    {
        if self.is_locked {
            return false;
        }
        self.is_locked = true;
        true
    }

    /// Releases the advisory in-process lock.
    pub fn unlock(&mut self)
        ensures
            *final(self) == (MessageBase { is_locked: false, ..*old(self) }),
    {
        self.is_locked = false;
    }

    /// The checksum a name or password is matched under: the CRC-32 of
    /// its lowercased form.
    pub fn get_crc(text: &str) -> (r: u32)
        ensures
            r == spec_name_crc(text@),
    {
        let bytes = text.as_bytes_vec();
        let lower = to_ascii_lower(&bytes);
        get_crc32(&lower)
    }
}

/// The byte runs that appending one message adds to the text, header
/// and index files, in that order; the caller appends each to its file.
pub struct MessageAppends {
    /// Bytes to append to the text file.
    pub text_data: Vec<u8>,
    /// Bytes to append to the header file.
    pub header_data: Vec<u8>,
    /// Bytes to append to the index file.
    pub index_data: Vec<u8>,
}

/// The header as it is stored for an appended message: the caller's
/// header with the assigned number, the written date and the position
/// of the text filled in.
pub open spec fn spec_stored_header(
    h: MessageHeaderV,
    message_number: u32,
    date_written: u32,
    offset: u32,
    txt_len: u32,
) -> MessageHeaderV {
    MessageHeaderV { message_number, date_written, offset, txt_len, ..h }
}

/// The checksum an appended message is indexed under: the name checksum
/// of its first recipient subfield, or the sentinel when it has none.
pub open spec fn spec_recipient_crc(sub_fields: Seq<SubfieldV>) -> u32 {
    match spec_first_of_type(sub_fields, SubfieldType::ReceiverName) {
        Some(f) => spec_name_crc(lossy_text_of(f.content)),
        None => CRC_SEED,
    }
}

/// The one character for every stored byte, with a linefeed inserted
/// after every carriage return: the stored format ends lines with bare
/// CR, and display needs CRLF.
pub open spec fn expand_byte(b: u8) -> Seq<char> {
    if b == 13 {
        seq![b as char, '\n']
    } else {
        seq![b as char]
    }
}

/// The displayed text of a stored byte run.
pub open spec fn expand_text(b: Seq<u8>) -> Seq<char>
    decreases b.len(),
{
    if b.len() == 0 {
        Seq::empty()
    } else {
        expand_text(b.drop_last()) + expand_byte(b.last())
    }
}

impl MessageBase {
    /// Whether `n` is inside the valid range of message numbers, from
    /// the base number through base plus active count inclusive: the
    /// counter may lag the files by one append, so the number just past
    /// the counted records is still asked of the index.
    pub open spec fn spec_in_range(self, n: u32) -> bool {
        self.header_info.base_msg_num <= n <= self.header_info.base_msg_num
            + self.header_info.active_msgs
    }

    /// What looking message `n` up in the given index and header images
    /// yields: the range error outside the valid range, else the header
    /// decoded at the offset the index record holds.
    pub open spec fn spec_get_header(self, n: u32, idx: Seq<u8>, hdr: Seq<u8>) -> Result<
        MessageHeaderV,
        JamError,
    > {
        if !self.spec_in_range(n) {
            Err(
                JamError::MessageNumberOutOfRange(
                    n,
                    self.header_info.base_msg_num,
                    (self.header_info.base_msg_num + self.header_info.active_msgs) as u32,
                ),
            )
        } else {
            match spec_read_header(
                hdr,
                le_u32_at(idx, 8 * (n - self.header_info.base_msg_num) + 4) as int,
            ) {
                Ok(p) => Ok(p.0),
                Err(e) => Err(e),
            }
        }
    }

    /// Stages one message for appending.  The assigned number is base
    /// plus active count; the text lands at the current end of the text
    /// file, the header at the current end of the header file, and the
    /// index gains one record pairing the recipient checksum with that
    /// header offset.  Only the in-memory active count changes here;
    /// nothing is persisted until the info block is committed, and the
    /// caller appends the returned bytes in text, header, index order.
    pub fn write_message(
        &mut self,
        header: MessageHeader,
        text: &str,
        text_file_len: u32,
        header_file_len: u32,
        date_written: u32,
    ) -> (r: MessageAppends)
        requires
            old(self).wf(),
            old(self).header_info.active_msgs < u32::MAX,
            spec_header_wf(header@),
            text.spec_bytes().len() <= u32::MAX,
        ensures
            *final(self) == (MessageBase {
                header_info: JHRHeaderInfo {
                    active_msgs: (old(self).header_info.active_msgs + 1) as u32,
                    ..old(self).header_info
                },
                ..*old(self)
            }),
            r.text_data@ == text.spec_bytes(),
            r.header_data@ == spec_header_bytes(
                spec_stored_header(
                    header@,
                    (old(self).header_info.base_msg_num + old(self).header_info.active_msgs)
                        as u32,
                    date_written,
                    text_file_len,
                    text.spec_bytes().len() as u32,
                ),
            ),
            r.index_data@ == spec_u32_to_le_bytes(spec_recipient_crc(header@.sub_fields))
                + spec_u32_to_le_bytes(header_file_len),
    {
        let ghost hv0 = header@;
        let mut header = header;
        header.message_number = self.header_info.base_msg_num + self.header_info.active_msgs;
        header.date_written = date_written;
        header.offset = text_file_len;
        let text_data = text.as_bytes_vec();
        header.txt_len = text_data.len() as u32;
        proof {
            assert(header@ =~~= spec_stored_header(
                hv0,
                (self.header_info.base_msg_num + self.header_info.active_msgs) as u32,
                date_written,
                text_file_len,
                text.spec_bytes().len() as u32,
            ));
        }
        let mut header_data: Vec<u8> = Vec::new();
        header.write(&mut header_data);
        self.header_info.active_msgs = self.header_info.active_msgs + 1;
        let crc = match header.get_to() {
            Some(to) => Self::get_crc(to.as_str()),
            None => CRC_SEED,
        };
        proof {
            assert(crc == spec_recipient_crc(hv0.sub_fields));
        }
        let mut index_data: Vec<u8> = Vec::new();
        push_u32_le(&mut index_data, crc);
        push_u32_le(&mut index_data, header_file_len);
        proof {
            assert(header_data@ =~= Seq::<u8>::empty() + spec_header_bytes(header@));
        }
        MessageAppends { text_data, header_data, index_data }
    }

    /// Looks message `n` up through the index: a range error outside
    /// `base ..= base + active`, else the header decoded at the offset
    /// that index record `n - base` holds.  The caller must hand an
    /// index image that actually covers that record; resolution is one
    /// seek into each file.
    pub fn get_header(&self, header_number: u32, index_data: &Vec<u8>, header_data: &Vec<u8>) -> (r:
        Result<MessageHeader, JamError>)
        requires
            self.wf(),
            self.spec_in_range(header_number) ==> 8 * (header_number
                - self.header_info.base_msg_num) + 8 <= index_data@.len(),
        ensures
            match r {
                Ok(h) => self.spec_get_header(header_number, index_data@, header_data@) == Ok::<
                    _,
                    JamError,
                >(h@),
                Err(e) => self.spec_get_header(header_number, index_data@, header_data@) == Err::<
                    MessageHeaderV,
                    _,
                >(e),
            },
    {
        if header_number < self.header_info.base_msg_num || header_number - self.header_info.base_msg_num
            > self.header_info.active_msgs {
            return Err(
                JamError::MessageNumberOutOfRange(
                    header_number,
                    self.header_info.base_msg_num,
                    self.header_info.base_msg_num + self.header_info.active_msgs,
                ),
            );
        }
        let record = (header_number - self.header_info.base_msg_num) as usize;
        let ilen = index_data.len();
        assert(record * 8 + 8 <= ilen);
        let offset = read_u32_le(index_data, record * 8 + 4);
        match MessageHeader::read(header_data, offset as usize) {
            Ok((h, _)) => Ok(h),
            Err(e) => Err(e),
        }
    }

    /// The displayed text of a message: the `txt_len` stored bytes at
    /// `offset` of the text file, each byte one character, with a
    /// linefeed inserted after every carriage return.
    pub fn get_msg_text(&self, header: &MessageHeader, text_data: &Vec<u8>) -> (r: String)
        requires
            header.offset + header.txt_len <= text_data@.len(),
        ensures
            r@ == expand_text(
                text_data@.subrange(
                    header.offset as int,
                    header.offset + header.txt_len,
                ),
            ),
    {
        let n = text_data.len();
        let start = header.offset as usize;
        let end = start + header.txt_len as usize;
        let mut res = String::new();
        let mut i = start;
        while i < end
            invariant
                start <= i <= end,
                end <= text_data@.len(),
                end == header.offset + header.txt_len,
                start == header.offset,
                res@ == expand_text(text_data@.subrange(start as int, i as int)),
            decreases end - i,
        {
            let b = text_data[i];
            push_char(&mut res, b as char);
            if b == 13 {
                push_char(&mut res, '\n');
            }
            i = i + 1;
            proof {
                let sub = text_data@.subrange(start as int, i as int);
                assert(sub.drop_last() =~= text_data@.subrange(start as int, i - 1));
                assert(sub.last() == text_data@[i - 1]);
                assert(res@ =~= expand_text(sub));
            }
        }
        res
    }
}

/// Every header that decodes in sequence from `pos` on; the first record
/// that fails to decode ends the sequence, so a truncated or mid-write
/// tail reads as "no more headers" rather than as an error.
pub open spec fn spec_headers_from(b: Seq<u8>, pos: int) -> Seq<MessageHeaderV>
    decreases b.len() - pos,
{
    match spec_read_header(b, pos) {
        Ok(p) => seq![p.0] + spec_headers_from(b, p.1),
        Err(_) => Seq::empty(),
    }
}

/// The record index of the first last-read record at or after `i` whose
/// checksum and id match, if any; only whole 16-byte records count.
pub open spec fn spec_find_last_read_from(b: Seq<u8>, crc: u32, id: u32, i: int) -> Option<int>
    decreases b.len() / 16 - i,
{
    if i < 0 || i >= b.len() / 16 {
        None
    } else if le_u32_at(b, 16 * i) == crc && le_u32_at(b, 16 * i + 4) == id {
        Some(i)
    } else {
        spec_find_last_read_from(b, crc, id, i + 1)
    }
}

/// The header-file offsets stored by the index records from record `i`
/// on whose checksum equals `crc`, in record order.
pub open spec fn spec_index_matches_from(b: Seq<u8>, crc: u32, i: int) -> Seq<u32>
    decreases b.len() / 8 - i,
{
    if i < 0 || i >= b.len() / 8 {
        Seq::empty()
    } else if le_u32_at(b, 8 * i) == crc {
        seq![le_u32_at(b, 8 * i + 4)] + spec_index_matches_from(b, crc, i + 1)
    } else {
        spec_index_matches_from(b, crc, i + 1)
    }
}

/// The header-file offsets of every index record whose checksum equals
/// `crc`, in record order.
pub open spec fn spec_index_matches(b: Seq<u8>, crc: u32) -> Seq<u32> {
    spec_index_matches_from(b, crc, 0)
}

/// Whether index record `i` of image `data` carries checksum `needle`.
pub(crate) fn index_record_matches(data: &Vec<u8>, i: usize, needle: u32) -> (r: bool)
    requires
        8 * i + 8 <= data@.len(),
    ensures
        r == (le_u32_at(data@, 8 * i) == needle),
{
    let n = data.len();
    assert(8 * i + 8 <= n);
    read_u32_le(data, 8 * i) == needle
}

/// The header-file offset that index record `i` of image `data` holds.
pub(crate) fn index_record_offset(data: &Vec<u8>, i: usize) -> (r: u32)
    requires
        8 * i + 8 <= data@.len(),
    ensures
        r == le_u32_at(data@, 8 * i + 4),
{
    let n = data.len();
    assert(8 * i + 8 <= n);
    read_u32_le(data, 8 * i + 4)
}

/// Relies on rayon's parallel iterators: a filter and a map over the
/// record indices, collected into a `Vec`, yield exactly the images of
/// the passing indices in their original order, whatever the degree of
/// parallelism; the per-record test and projection are the verified
/// functions above.
#[verifier::external_body]
fn par_search_index(data: &Vec<u8>, needle: u32) -> (r: Vec<u32>)
    requires
        data@.len() % 8 == 0,
    ensures
        r@ == spec_index_matches(data@, needle),
{
    (0..data.len() / 8)
        .into_par_iter()
        .filter(|i| index_record_matches(data, *i, needle))
        .map(|i| index_record_offset(data, i))
        .collect()
}

impl MessageBase {
    /// Every header that decodes in sequence after the info block; the
    /// scan stops at the first record that fails to decode instead of
    /// trusting the active-message counter, which may lag the files.
    pub fn read_headers(&self, header_data: &Vec<u8>) -> (r: Vec<MessageHeader>)
        ensures
            r.deep_view() == spec_headers_from(header_data@, JHR_HEADER_SIZE as int),
    {
        let mut res: Vec<MessageHeader> = Vec::new();
        let mut pos: usize = JHR_HEADER_SIZE;
        loop
            invariant
                spec_headers_from(header_data@, JHR_HEADER_SIZE as int) == res.deep_view()
                    + spec_headers_from(header_data@, pos as int),
            ensures
                res.deep_view() == spec_headers_from(header_data@, JHR_HEADER_SIZE as int),
            decreases header_data@.len() - pos,
        {
            match MessageHeader::read(header_data, pos) {
                Ok((h, next)) => {
                    let ghost old_deep = res.deep_view();
                    res.push(h);
                    pos = next;
                    proof {
                        assert(res.deep_view() =~= old_deep.push(h@));
                        assert(old_deep + (seq![h@] + spec_headers_from(
                            header_data@,
                            pos as int,
                        )) =~= res.deep_view() + spec_headers_from(header_data@, pos as int));
                    }
                },
                Err(_) => {
                    proof {
                        assert(spec_headers_from(header_data@, pos as int) =~= Seq::<
                            MessageHeaderV,
                        >::empty());
                        assert(res.deep_view() + Seq::<MessageHeaderV>::empty()
                            =~= res.deep_view());
                    }
                    break ;
                },
            }
        }
        res
    }

    /// Every whole record of the last-read file, in order; a short final
    /// record ends the scan rather than failing it.
    pub fn read_last_read_file(&self, data: &Vec<u8>) -> (r: Vec<LastReadStorage>)
        ensures
            r@ == spec_last_read_records(data@),
    {
        let n = data.len();
        let mut res: Vec<LastReadStorage> = Vec::new();
        let mut pos: usize = 0;
        loop
            invariant
                n == data@.len(),
                pos == 16 * res@.len(),
                res@.len() <= data@.len() / 16,
                forall|i: int| 0 <= i < res@.len() ==> res@[i] == spec_last_read_at(data@, i),
            ensures
                res@ == spec_last_read_records(data@),
            decreases data@.len() - pos,
        {
            match LastReadStorage::load(data, pos) {
                Some(rec) => {
                    res.push(rec);
                    pos = pos + 16;
                },
                None => {
                    proof {
                        assert(res@.len() == data@.len() / 16);
                        assert(res@ =~= spec_last_read_records(data@));
                    }
                    break ;
                },
            }
        }
        res
    }

    /// Finds the first last-read record whose checksum and id both
    /// match, remembering its record position for a later in-place
    /// update; without a match the base is left unchanged.
    #[verifier::loop_isolation(false)]
    pub fn find_last_read(&mut self, user_name_crc: u32, id: u32, data: &Vec<u8>) -> (r: Option<
        LastReadStorage,
    >)
        requires
            data@.len() / 16 <= i32::MAX,
        ensures
            match r {
                Some(rec) => {
                    &&& spec_find_last_read_from(data@, user_name_crc, id, 0) == Some(
                        final(self).last_read_record as int,
                    )
                    &&& rec == spec_last_read_at(data@, final(self).last_read_record as int)
                    &&& rec.user_crc == user_name_crc
                    &&& rec.user_id == id
                    &&& *final(self) == (MessageBase {
                        last_read_record: final(self).last_read_record,
                        ..*old(self)
                    })
                },
                None => {
                    &&& spec_find_last_read_from(data@, user_name_crc, id, 0) == None::<int>
                    &&& *final(self) == *old(self)
                },
            },
    {
        let n = data.len();
        let records = n / 16;
        let mut record_number: usize = 0;
        while record_number < records
            invariant
                *self == *old(self),
                data@.len() / 16 <= i32::MAX,
                n == data@.len(),
                records == data@.len() / 16,
                record_number <= records,
                spec_find_last_read_from(data@, user_name_crc, id, 0)
                    == spec_find_last_read_from(data@, user_name_crc, id, record_number as int),
            decreases records - record_number,
        {
            proof {
                assert(16 * (record_number + 1) <= 16 * (data@.len() / 16));
                assert(16 * (data@.len() / 16) <= data@.len());
            }
            let rec_crc = read_u32_le(data, 16 * record_number);
            let rec_id = read_u32_le(data, 16 * record_number + 4);
            if rec_crc == user_name_crc && rec_id == id {
                let last_read_msg = read_u32_le(data, 16 * record_number + 8);
                let high_read_msg = read_u32_le(data, 16 * record_number + 12);
                self.last_read_record = record_number as i32;
                return Some(
                    LastReadStorage {
                        user_crc: user_name_crc,
                        user_id: id,
                        last_read_msg,
                        high_read_msg,
                    },
                );
            }
            record_number = record_number + 1;
        }
        proof {
            assert(record_number as int >= data@.len() / 16);
        }
        None
    }

    /// Scans the whole index for records carrying checksum `crc` and
    /// returns the header-file byte offset each one stores, in record
    /// order.  Every record is tested independently, so the scan runs in
    /// parallel; the result does not depend on the degree of
    /// parallelism.  An image that is not a whole number of records is
    /// corruption and fails the whole search.  Note that the values are
    /// byte offsets into the header file, not message numbers; the index
    /// alone cannot map an offset back to a number.
    pub fn search_message_index(&self, crc: u32, index_data: &Vec<u8>) -> (r: Result<
        Vec<u32>,
        JamError,
    >)
        ensures
            match r {
                Ok(v) => index_data@.len() % 8 == 0 && v@ == spec_index_matches(index_data@, crc),
                Err(e) => index_data@.len() % 8 != 0 && e == JamError::IndexFileCorrupted,
            },
    {
        if index_data.len() % 8 != 0 {
            return Err(JamError::IndexFileCorrupted);
        }
        Ok(par_search_index(index_data, crc))
    }
}

/// Whether index record `i` is backed by a header that decodes at the
/// offset the record stores.
pub open spec fn spec_index_entry_valid(idx: Seq<u8>, hdr: Seq<u8>, i: int) -> bool {
    spec_read_header(hdr, le_u32_at(idx, 8 * i + 4) as int) is Ok
}

/// The range law of direct lookup: for every number below the base
/// message number or above base plus active count, the lookup fails with
/// exactly the range error carrying that number and the two bounds; and
/// for every number in between whose index record is backed by a
/// decodable header, it succeeds.
pub proof fn lemma_get_header_range(mb: MessageBase, n: u32, idx: Seq<u8>, hdr: Seq<u8>)
    requires
        mb.wf(),
    ensures
        (n < mb.header_info.base_msg_num || n > mb.header_info.base_msg_num
            + mb.header_info.active_msgs) ==> mb.spec_get_header(n, idx, hdr) == Err::<
            MessageHeaderV,
            _,
        >(
            JamError::MessageNumberOutOfRange(
                n,
                mb.header_info.base_msg_num,
                (mb.header_info.base_msg_num + mb.header_info.active_msgs) as u32,
            ),
        ),
        (mb.spec_in_range(n) && spec_index_entry_valid(
            idx,
            hdr,
            n - mb.header_info.base_msg_num,
        )) ==> mb.spec_get_header(n, idx, hdr) is Ok,
{
}

/// The append law: when the three byte runs that stage one message are
/// appended to index and header images of the expected sizes, the base
/// counts one more active message, and looking the assigned number up
/// through the grown images returns exactly the stored header, whose
/// offset and length bound the text just written.
pub proof fn lemma_write_then_get_header(
    mb: MessageBase,
    h: MessageHeaderV,
    text_offset: u32,
    text_len: u32,
    date_written: u32,
    idx: Seq<u8>,
    hdr: Seq<u8>,
)
    requires
        mb.wf(),
        mb.header_info.active_msgs < u32::MAX,
        spec_header_wf(h),
        idx.len() == 8 * mb.header_info.active_msgs,
        hdr.len() <= u32::MAX,
    ensures
        ({
            let msg_num = (mb.header_info.base_msg_num + mb.header_info.active_msgs) as u32;
            let stored = spec_stored_header(h, msg_num, date_written, text_offset, text_len);
            let mb2 = MessageBase {
                header_info: JHRHeaderInfo {
                    active_msgs: (mb.header_info.active_msgs + 1) as u32,
                    ..mb.header_info
                },
                ..mb
            };
            let idx2 = idx + spec_u32_to_le_bytes(spec_recipient_crc(h.sub_fields))
                + spec_u32_to_le_bytes(hdr.len() as u32);
            let hdr2 = hdr + spec_header_bytes(stored);
            &&& mb2.header_info.active_msgs == mb.header_info.active_msgs + 1
            &&& stored.offset == text_offset
            &&& stored.txt_len == text_len
            &&& mb2.spec_get_header(msg_num, idx2, hdr2) == Ok::<_, JamError>(stored)
        }),
{
    vstd::bytes::lemma_auto_spec_u32_to_from_le_bytes();
    let base = mb.header_info.base_msg_num;
    let active = mb.header_info.active_msgs as int;
    let msg_num = (base + active) as u32;
    let stored = spec_stored_header(h, msg_num, date_written, text_offset, text_len);
    let mb2 = MessageBase {
        header_info: JHRHeaderInfo {
            active_msgs: (mb.header_info.active_msgs + 1) as u32,
            ..mb.header_info
        },
        ..mb
    };
    let idx2 = idx + spec_u32_to_le_bytes(spec_recipient_crc(h.sub_fields))
        + spec_u32_to_le_bytes(hdr.len() as u32);
    let hdr2 = hdr + spec_header_bytes(stored);
    assert(mb2.spec_in_range(msg_num));
    assert(msg_num - mb2.header_info.base_msg_num == active);
    assert(idx2.subrange(8 * active + 4, 8 * active + 8) =~= spec_u32_to_le_bytes(
        hdr.len() as u32,
    ));
    assert(le_u32_at(idx2, 8 * active + 4) == hdr.len() as u32);
    assert(stored.sub_fields == h.sub_fields);
    lemma_read_header_appended(hdr, stored);
    assert(spec_read_header(hdr2, hdr.len() as int) == Ok::<_, JamError>(
        (stored, (hdr.len() + spec_header_bytes(stored).len()) as int),
    ));
}

} // verus!
