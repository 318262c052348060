//! The PCBoard message-base reader: a simpler sibling of the JAM engine
//! with fixed 128-byte blocks, BASIC packed-real counters, and extended
//! header subrecords.  As with the JAM side, every function works on the
//! byte image of its file.

pub mod base_header;
pub mod message_header;
pub mod message_index;

use crate::pcboard::base_header::MessageBaseHeader;
use crate::pcboard::message_header::{
    spec_deserialize_extended, spec_pcb_header_at, ExtendedHeader, ExtendedHeaderV, MessageHeader,
    MessageHeaderV,
};
use crate::pcboard::message_index::MessageIndex;
use crate::util::basic_real::{basicreal_to_u32, spec_basicreal_to_u32};
use crate::util::codec::{le_u32_at, read_u32_le};
use crate::util::strings::push_char;
use vstd::prelude::*;
use vstd::string::StrSliceExecFns;

verus! {

/// The failures the reader can report.
#[derive(Debug, Clone, Copy, PartialEq, Eq, Structural)]
pub enum PCBoardError {
    /// A message number outside the valid range; the fields are the
    /// number asked for and the bounds of the valid range.
    MessageNumberOutOfRange(u32, u32, u32),
    /// An image ended where a whole record was still owed; the in-memory
    /// stand-in for a short read.
    UnexpectedEndOfData,
    /// An extended header named a function this reader does not know.
    UnknownExtendedHeaderFunction,
}

/// The text of a zero-terminated field: one character per byte up to,
/// not including, the first NUL.
pub open spec fn spec_block_text(b: Seq<u8>) -> Seq<char>
    decreases b.len(),
{
    if b.len() == 0 {
        Seq::empty()
    } else if b[0] == 0 {
        Seq::empty()
    } else {
        seq![b[0] as char] + spec_block_text(b.drop_first())
    }
}

/// `s` with its trailing spaces removed.
pub open spec fn spec_trim_spaces(s: Seq<char>) -> Seq<char>
    decreases s.len(),
{
    if s.len() > 0 && s.last() == ' ' {
        spec_trim_spaces(s.drop_last())
    } else {
        s
    }
}

/// The text of a fixed-width field: zero-terminated, then stripped of
/// trailing spaces.
pub open spec fn spec_text_field(b: Seq<u8>) -> Seq<char> {
    spec_trim_spaces(spec_block_text(b))
}

/// The displayed text of a message block: NUL bytes dropped, the CR and
/// the 0xE3 line terminators both turned into a linefeed, every other
/// byte one character.
pub open spec fn spec_msg_text(b: Seq<u8>) -> Seq<char>
    decreases b.len(),
{
    if b.len() == 0 {
        Seq::empty()
    } else {
        let head: Seq<char> = if b[0] == 0 {
            Seq::empty()
        } else if b[0] == 0x0D || b[0] == 0xE3 {
            seq!['\n']
        } else {
            seq![b[0] as char]
        };
        head + spec_msg_text(b.drop_first())
    }
}

/// The characters of `data[from..to]` up to the first NUL.
fn block_chars(data: &Vec<u8>, from: usize, to: usize) -> (r: Vec<char>)
    requires
        from <= to <= data@.len(),
    ensures
        r@ == spec_block_text(data@.subrange(from as int, to as int)),
{
    let ghost whole = data@.subrange(from as int, to as int);
    let mut out: Vec<char> = Vec::new();
    let mut i = from;
    while i < to
        invariant
            from <= i <= to <= data@.len(),
            whole == data@.subrange(from as int, to as int),
            spec_block_text(whole) == out@ + spec_block_text(
                data@.subrange(i as int, to as int),
            ),
        decreases to - i,
    {
        let b = data[i];
        if b == 0 {
            proof {
                assert(data@.subrange(i as int, to as int)[0] == 0);
                assert(out@ + Seq::<char>::empty() =~= out@);
            }
            return out;
        }
        let ghost out_before = out@;
        out.push(b as char);
        i = i + 1;
        proof {
            let rest = spec_block_text(data@.subrange(i as int, to as int));
            assert(data@.subrange(i - 1, to as int).drop_first() =~= data@.subrange(
                i as int,
                to as int,
            ));
            assert(out_before + (seq![b as char] + rest) =~= out@ + rest);
        }
    }
    proof {
        assert(data@.subrange(to as int, to as int).len() == 0);
        assert(out@ + Seq::<char>::empty() =~= out@);
    }
    out
}

/// The text of `data[from..to]` up to the first NUL, one character per
/// byte.
pub fn convert_block(data: &Vec<u8>, from: usize, to: usize) -> (r: String)
    requires
        from <= to <= data@.len(),
    ensures
        r@ == spec_block_text(data@.subrange(from as int, to as int)),
{
    let chars = block_chars(data, from, to);
    chars_to_string(&chars)
}

/// The text of `data[from..to]` up to the first NUL, with trailing
/// spaces removed.
pub fn convert_str(data: &Vec<u8>, from: usize, to: usize) -> (r: String)
    requires
        from <= to <= data@.len(),
    ensures
        r@ == spec_text_field(data@.subrange(from as int, to as int)),
{
    let mut chars = block_chars(data, from, to);
    let ghost full = chars@;
    while chars.len() > 0 && chars[chars.len() - 1] == ' '
        invariant
            spec_trim_spaces(full) == spec_trim_spaces(chars@),
        decreases chars@.len(),
    {
        let ghost before = chars@;
        chars.pop();
        proof {
            assert(chars@ =~= before.drop_last());
        }
    }
    proof {
        assert(spec_trim_spaces(chars@) == chars@);
    }
    chars_to_string(&chars)
}

/// Builds a `String` from a vector of characters.
fn chars_to_string(chars: &Vec<char>) -> (r: String)
    ensures
        r@ == chars@,
{
    let mut s = String::new();
    let mut i: usize = 0;
    while i < chars.len()
        invariant
            i <= chars@.len(),
            s@ == chars@.take(i as int),
        decreases chars@.len() - i,
    {
        push_char(&mut s, chars[i]);
        i = i + 1;
        proof {
            assert(s@ =~= chars@.take(i as int));
        }
    }
    proof {
        assert(chars@.take(chars@.len() as int) =~= chars@);
    }
    s
}

/// A fixed-width field of `num` bytes holding the first `num` characters
/// of `text` (each truncated to a byte), space-padded.
pub fn _gen_string(text: &str, num: usize) -> (r: Vec<u8>)
    ensures
        r@ == Seq::new(
            num as nat,
            |i: int|
                if i < text@.len() {
                    text@[i] as u8
                } else {
                    32u8
                },
        ),
{
    let tlen = text.unicode_len();
    let mut buf: Vec<u8> = Vec::new();
    let mut i: usize = 0;
    while i < num
        invariant
            i <= num,
            tlen == text@.len(),
            buf@.len() == i,
            forall|j: int|
                0 <= j < i ==> buf@[j] == (if j < text@.len() {
                    text@[j] as u8
                } else {
                    32u8
                }),
        decreases num - i,
    {
        if i < tlen {
            let c = text.get_char(i);
            buf.push(#[verifier::truncate] (c as u8));
        } else {
            buf.push(32);
        }
        i = i + 1;
    }
    proof {
        assert(buf@ =~= Seq::new(
            num as nat,
            |i: int|
                if i < text@.len() {
                    text@[i] as u8
                } else {
                    32u8
                },
        ));
    }
    buf
}

/// How many 128-byte blocks of message data follow the header block.
pub open spec fn spec_block_count(num_blocks: u8) -> int {
    if num_blocks == 0 {
        0
    } else {
        num_blocks - 1
    }
}

/// What scanning the block region `b[lo..hi]` yields: the extended
/// headers that open it, then the text of the rest.  An extended-header
/// marker without room for a whole 71-byte record reads as text.
pub open spec fn spec_message_items(b: Seq<u8>, lo: int, hi: int) -> Result<
    (Seq<ExtendedHeaderV>, Seq<char>),
    PCBoardError,
>
    decreases hi - lo,
{
    if lo < 0 || lo >= hi {
        Ok((Seq::empty(), Seq::empty()))
    } else if b[lo] == 0xFF && lo + 1 < hi && b[lo + 1] == 0x40 && lo + 71 <= hi {
        match spec_deserialize_extended(b, lo) {
            Ok(e) => match spec_message_items(
                b,
                if lo + 72 <= hi {
                    lo + 72
                } else {
                    hi
                },
                hi,
            ) {
                Ok(p) => Ok((seq![e] + p.0, p.1)),
                Err(x) => Err(x),
            },
            Err(x) => Err(x),
        }
    } else {
        Ok((Seq::empty(), spec_msg_text(b.subrange(lo, hi))))
    }
}

/// What reading one whole message at byte `pos` yields: its header, its
/// extended headers and its text, or the error.
pub open spec fn spec_read_message(b: Seq<u8>, pos: int) -> Result<
    (MessageHeaderV, Seq<ExtendedHeaderV>, Seq<char>),
    PCBoardError,
> {
    if pos < 0 || pos + 124 > b.len() {
        Err(PCBoardError::UnexpectedEndOfData)
    } else {
        let h = spec_pcb_header_at(b, pos);
        let hi = pos + 124 + 128 * spec_block_count(h.num_blocks);
        if hi > b.len() {
            Err(PCBoardError::UnexpectedEndOfData)
        } else {
            match spec_message_items(b, pos + 124, hi) {
                Ok(p) => Ok((h, p.0, p.1)),
                Err(e) => Err(e),
            }
        }
    }
}

/// One whole message: its fixed header, the extended headers that opened
/// its block region, and its display text.
#[derive(Debug, Clone, PartialEq)]
pub struct Message {
    /// The fixed header.
    pub header: MessageHeader,
    /// The extended headers, in stored order.
    pub extended_header: Vec<ExtendedHeader>,
    /// The display text.
    pub text: String,
}

impl Message {
    /// The display text of a message block range: NUL bytes dropped,
    /// both line terminators turned into linefeeds.
    pub fn convert_msg(data: &Vec<u8>, from: usize, to: usize) -> (r: String)
        requires
            from <= to <= data@.len(),
        ensures
            r@ == spec_msg_text(data@.subrange(from as int, to as int)),
    {
        let ghost whole = data@.subrange(from as int, to as int);
        let mut s = String::new();
        let mut i = from;
        while i < to
            invariant
                from <= i <= to <= data@.len(),
                whole == data@.subrange(from as int, to as int),
                spec_msg_text(whole) == s@ + spec_msg_text(data@.subrange(i as int, to as int)),
            decreases to - i,
        {
            let b = data[i];
            let ghost s_before = s@;
            if b == 0 {
            } else if b == 0x0D || b == 0xE3 {
                push_char(&mut s, '\n');
            } else {
                push_char(&mut s, b as char);
            }
            i = i + 1;
            proof {
                let rest = spec_msg_text(data@.subrange(i as int, to as int));
                assert(data@.subrange(i - 1, to as int).drop_first() =~= data@.subrange(
                    i as int,
                    to as int,
                ));
                if b == 0 {
                    assert(s_before + (Seq::<char>::empty() + rest) =~= s@ + rest);
                } else if b == 0x0D || b == 0xE3 {
                    assert(s_before + (seq!['\n'] + rest) =~= s@ + rest);
                } else {
                    assert(s_before + (seq![b as char] + rest) =~= s@ + rest);
                }
            }
        }
        proof {
            assert(data@.subrange(to as int, to as int).len() == 0);
            assert(s@ + Seq::<char>::empty() =~= s@);
        }
        s
    }

    /// Reads one whole message starting at byte `pos`: the fixed header,
    /// then its blocks, whose leading extended-header records are
    /// collected until the first byte run that is message text.
    pub fn read(data: &Vec<u8>, pos: usize) -> (r: Result<Message, PCBoardError>)
        ensures
            match r {
                Ok(m) => spec_read_message(data@, pos as int) == Ok::<_, PCBoardError>(
                    (m.header@, m.extended_header.deep_view(), m.text@),
                ),
                Err(e) => spec_read_message(data@, pos as int) == Err::<
                    (MessageHeaderV, Seq<ExtendedHeaderV>, Seq<char>),
                    _,
                >(e),
            },
    {
        let header = MessageHeader::read(data, pos)?;
        let n = data.len();
        let nb = header.num_blocks as usize;
        let block_len = 128 * (if nb == 0 {
            0
        } else {
            nb - 1
        });
        if block_len > n - (pos + 124) {
            return Err(PCBoardError::UnexpectedEndOfData);
        }
        let lo0 = pos + 124;
        let hi = lo0 + block_len;
        let mut extended_header: Vec<ExtendedHeader> = Vec::new();
        let mut text = String::new();
        let mut i = lo0;
        proof {
            assert(extended_header.deep_view() =~= Seq::<ExtendedHeaderV>::empty());
            match spec_message_items(data@, i as int, hi as int) {
                Ok(p) => {
                    assert(Seq::<ExtendedHeaderV>::empty() + p.0 =~= p.0);
                },
                Err(_) => {},
            }
        }
        loop
            invariant_except_break
                text@ == Seq::<char>::empty(),
            invariant
                lo0 <= i <= hi,
                lo0 == pos + 124,
                hi <= data@.len(),
                pos + 124 <= data@.len(),
                header@ == spec_pcb_header_at(data@, pos as int),
                hi as int == pos + 124 + 128 * spec_block_count(header@.num_blocks),
                spec_message_items(data@, lo0 as int, hi as int) == (match spec_message_items(
                    data@,
                    i as int,
                    hi as int,
                ) {
                    Ok(p) => Ok::<_, PCBoardError>((extended_header.deep_view() + p.0, p.1)),
                    Err(x) => Err::<(Seq<ExtendedHeaderV>, Seq<char>), _>(x),
                }),
            ensures
                spec_message_items(data@, lo0 as int, hi as int) == Ok::<_, PCBoardError>(
                    (extended_header.deep_view(), text@),
                ),
            decreases hi - i,
        {
            if i >= hi {
                proof {
                    assert(extended_header.deep_view() + Seq::<ExtendedHeaderV>::empty()
                        =~= extended_header.deep_view());
                }
                break ;
            }
            let b0 = data[i];
            if b0 == 0xFF && i + 1 < hi && data[i + 1] == 0x40 && hi - i >= 71 {
                match ExtendedHeader::deserialize(data, i) {
                    Ok(e) => {
                        let ghost old_deep = extended_header.deep_view();
                        let ghost ev = e@;
                        extended_header.push(e);
                        let i_old = i;
                        if hi - i >= 72 {
                            i = i + 72;
                        } else {
                            i = hi;
                        }
                        proof {
                            assert(extended_header.deep_view() =~= old_deep.push(ev));
                            match spec_message_items(data@, i as int, hi as int) {
                                Ok(p) => {
                                    assert(old_deep + (seq![ev] + p.0)
                                        =~= extended_header.deep_view() + p.0);
                                },
                                Err(_) => {},
                            }
                        }
                    },
                    Err(x) => {
                        return Err(x);
                    },
                }
            } else {
                text = Self::convert_msg(data, i, hi);
                proof {
                    assert(extended_header.deep_view() + Seq::<ExtendedHeaderV>::empty()
                        =~= extended_header.deep_view());
                }
                break ;
            }
        }
        Ok(Message { header, extended_header, text })
    }
}

/// A PCBoard message base: the loaded base-file header.  As on the JAM
/// side, no file handle is held; every operation takes the byte image of
/// the file it reads.
#[derive(Debug, Clone, PartialEq)]
pub struct MessageBase {
    /// The loaded base-file header.
    pub header_info: MessageBaseHeader,
}

impl MessageBase {
    /// Opens a base from the image of its base file, decoding only the
    /// header; messages and indices are read lazily per call.
    pub fn open(data: &Vec<u8>) -> (r: Result<MessageBase, PCBoardError>)
        ensures
            match r {
                Ok(mb) => {
                    &&& data@.len() >= 22
                    &&& mb.header_info.high_msg_num == spec_basicreal_to_u32(le_u32_at(data@, 0))
                    &&& mb.header_info.low_msg_num == spec_basicreal_to_u32(le_u32_at(data@, 4))
                    &&& mb.header_info.active_msgs == spec_basicreal_to_u32(le_u32_at(data@, 8))
                    &&& mb.header_info.callers == spec_basicreal_to_u32(le_u32_at(data@, 12))
                    &&& mb.header_info.lock_status@ == spec_text_field(data@.subrange(16, 22))
                },
                Err(e) => data@.len() < 22 && e == PCBoardError::UnexpectedEndOfData,
            },
    {
        let header_info = MessageBaseHeader::load(data)?;
        Ok(MessageBase { header_info })
    }

    /// The number of active (not deleted) messages.
    pub fn active_messages(&self) -> (r: u32)
        ensures
            r == self.header_info.active_msgs,
    {
        self.header_info.active_msgs
    }

    /// The highest message number in the index file.
    pub fn highest_message_number(&self) -> (r: u32)
        ensures
            r == self.header_info.high_msg_num,
    {
        self.header_info.high_msg_num
    }

    /// The lowest message number in the index file.
    pub fn lowest_message_number(&self) -> (r: u32)
        ensures
            r == self.header_info.low_msg_num,
    {
        self.header_info.low_msg_num
    }

    /// The number of callers of this conference.
    pub fn callers(&self) -> (r: u32)
        ensures
            r == self.header_info.callers,
    {
        self.header_info.callers
    }

    /// What looking message `num` up through the index yields: the range
    /// error outside `low ..= high`, the image exhausted when the index
    /// lacks the record, else the message read at the offset the index
    /// record holds.
    pub open spec fn spec_read_message_by_number(
        self,
        num: u32,
        idx: Seq<u8>,
        base: Seq<u8>,
    ) -> Result<(MessageHeaderV, Seq<ExtendedHeaderV>, Seq<char>), PCBoardError> {
        if num < self.header_info.low_msg_num || num > self.header_info.high_msg_num {
            Err(
                PCBoardError::MessageNumberOutOfRange(
                    num,
                    self.header_info.low_msg_num,
                    self.header_info.high_msg_num,
                ),
            )
        } else if num == 0 || 8 * (num - 1) + 8 > idx.len() {
            Err(PCBoardError::UnexpectedEndOfData)
        } else {
            spec_read_message(base, le_u32_at(idx, 8 * (num - 1)) as int)
        }
    }

    /// Reads message `num` through the index: one seek into the index
    /// file for the record, one seek into the base file for the message.
    pub fn read_message(&self, num: u32, index_data: &Vec<u8>, base_data: &Vec<u8>) -> (r: Result<
        Message,
        PCBoardError,
    >)
        ensures
            match r {
                Ok(m) => self.spec_read_message_by_number(num, index_data@, base_data@) == Ok::<
                    _,
                    PCBoardError,
                >((m.header@, m.extended_header.deep_view(), m.text@)),
                Err(e) => self.spec_read_message_by_number(num, index_data@, base_data@) == Err::<
                    (MessageHeaderV, Seq<ExtendedHeaderV>, Seq<char>),
                    _,
                >(e),
            },
    {
        if num < self.header_info.low_msg_num || num > self.header_info.high_msg_num {
            return Err(
                PCBoardError::MessageNumberOutOfRange(
                    num,
                    self.header_info.low_msg_num,
                    self.header_info.high_msg_num,
                ),
            );
        }
        if num == 0 {
            return Err(PCBoardError::UnexpectedEndOfData);
        }
        let rec = (num - 1) as usize;
        let n = index_data.len();
        if (rec as u64) * 8 + 8 > n as u64 {
            return Err(PCBoardError::UnexpectedEndOfData);
        }
        let idx_rec = MessageIndex::read(index_data, rec * 8)?;
        Message::read(base_data, idx_rec.offset as usize)
    }

    /// One entry of the old-style index: the packed-real record number
    /// turned into a byte offset, record one landing at offset zero.
    /// The arithmetic wraps, as 32-bit arithmetic does.
    pub open spec fn spec_old_index_entry(v: u32) -> u32 {
        let b = spec_basicreal_to_u32(v);
        let bm1: u32 = if b == 0 {
            0xFFFF_FFFFu32
        } else {
            (b - 1) as u32
        };
        (((bm1 as u64) * 128) as u32)
    }

    /// The entries of the old-style index from byte `i` on: 4-byte
    /// packed reals until a zero word or the end of the image.
    pub open spec fn spec_old_index_from(b: Seq<u8>, i: int) -> Seq<u32>
        decreases b.len() - i,
    {
        if i < 0 || i + 4 > b.len() {
            Seq::empty()
        } else {
            let v = le_u32_at(b, i);
            if v == 0 {
                Seq::empty()
            } else {
                seq![Self::spec_old_index_entry(v)] + Self::spec_old_index_from(b, i + 4)
            }
        }
    }

    /// Decodes the optional old-style index: each entry a packed-real
    /// record number, returned as a byte offset; a zero word or the end
    /// of the image ends the list.
    pub fn read_old_index(&self, data: &Vec<u8>) -> (r: Vec<u32>)
        ensures
            r@ == Self::spec_old_index_from(data@, 0),
    {
        let n = data.len();
        let mut res: Vec<u32> = Vec::new();
        let mut i: usize = 0;
        loop
            invariant
                i <= n,
                n == data@.len(),
                Self::spec_old_index_from(data@, 0) == res@ + Self::spec_old_index_from(
                    data@,
                    i as int,
                ),
            ensures
                res@ == Self::spec_old_index_from(data@, 0),
            decreases n - i,
        {
            if n - i < 4 {
                proof {
                    assert(res@ + Self::spec_old_index_from(data@, i as int) =~= res@);
                }
                break ;
            }
            let num = read_u32_le(data, i);
            if num == 0 {
                proof {
                    assert(res@ + Self::spec_old_index_from(data@, i as int) =~= res@);
                }
                break ;
            }
            let b = basicreal_to_u32(num);
            let bm1: u32 = if b == 0 {
                0xFFFF_FFFF
            } else {
                b - 1
            };
            let entry = #[verifier::truncate] (((bm1 as u64) * 128) as u32);
            let ghost res_before = res@;
            res.push(entry);
            i = i + 4;
            proof {
                let rest = Self::spec_old_index_from(data@, i as int);
                assert(res_before + (seq![entry] + rest) =~= res@ + rest);
            }
        }
        res
    }

    /// Every whole record of the index file, in order; a trailing
    /// partial record ends the scan rather than failing it.
    pub fn read_index(&self, data: &Vec<u8>) -> (r: Vec<MessageIndex>)
        ensures
            r@ == crate::pcboard::message_index::spec_message_index_records(data@),
    {
        let n = data.len();
        let mut res: Vec<MessageIndex> = Vec::new();
        let mut pos: usize = 0;
        loop
            invariant
                n == data@.len(),
                pos == 8 * res@.len(),
                res@.len() <= data@.len() / 8,
                forall|i: int|
                    0 <= i < res@.len() ==> res@[i]
                        == crate::pcboard::message_index::spec_message_index_at(data@, i),
            ensures
                res@ == crate::pcboard::message_index::spec_message_index_records(data@),
            decreases data@.len() - pos,
        {
            match MessageIndex::read(data, pos) {
                Ok(rec) => {
                    res.push(rec);
                    pos = pos + 8;
                },
                Err(_) => {
                    proof {
                        assert(res@.len() == data@.len() / 8);
                        assert(res@ =~= crate::pcboard::message_index::spec_message_index_records(
                            data@,
                        ));
                    }
                    break ;
                },
            }
        }
        res
    }
}

} // verus!
