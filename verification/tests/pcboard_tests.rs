use msgbase::pcboard::base_header::MessageBaseHeader;
use msgbase::pcboard::message_header::{
    ExtendedHeader, ExtendedHeaderInformation, MessageHeader,
};
use msgbase::pcboard::message_index::MessageIndex;
use msgbase::pcboard::{convert_block, convert_str, Message, MessageBase, PCBoardError, _gen_string};
use msgbase::util::basic_real::basicreal_to_u32;

/// The packed-real encoding of a small positive integer: exponent byte
/// biased so the 24-bit mantissa (implicit leading one) scales down to
/// the value.
fn packed(value: u32) -> u32 {
    if value == 0 {
        return 0;
    }
    let bits = 32 - value.leading_zeros(); // position of the leading one
    let exp = 128 + bits;
    let mant = (value as u64) << (24 - bits);
    (exp << 24) | ((mant as u32) & 0x007F_FFFF)
}

#[test]
fn packed_reals_decode_to_their_integers() {
    assert_eq!(basicreal_to_u32(0), 0);
    for v in [1u32, 2, 3, 7, 100, 1000, 65535] {
        assert_eq!(basicreal_to_u32(packed(v)), v, "value {v}");
    }
}

fn base_header_bytes(high: u32, low: u32, active: u32, callers: u32) -> Vec<u8> {
    let mut v = Vec::new();
    v.extend_from_slice(&packed(high).to_le_bytes());
    v.extend_from_slice(&packed(low).to_le_bytes());
    v.extend_from_slice(&packed(active).to_le_bytes());
    v.extend_from_slice(&packed(callers).to_le_bytes());
    v.extend_from_slice(b"LOCK \0");
    v
}

#[test]
fn base_header_loads_counters_and_lock_status() {
    let data = base_header_bytes(25, 3, 20, 99);
    let h = MessageBaseHeader::load(&data).expect("load failed");
    assert_eq!(h.high_msg_num, 25);
    assert_eq!(h.low_msg_num, 3);
    assert_eq!(h.active_msgs, 20);
    assert_eq!(h.callers, 99);
    assert_eq!(h.lock_status, "LOCK");
    assert_eq!(
        MessageBaseHeader::load(&vec![0u8; 10]),
        Err(PCBoardError::UnexpectedEndOfData)
    );
}

#[test]
fn open_reads_the_base_header() {
    let data = base_header_bytes(2, 1, 2, 5);
    let base = MessageBase::open(&data).expect("open failed");
    assert_eq!(base.highest_message_number(), 2);
    assert_eq!(base.lowest_message_number(), 1);
    assert_eq!(base.active_messages(), 2);
    assert_eq!(base.callers(), 5);
}

#[test]
fn text_converters_cut_at_nul_and_trim() {
    let data = vec![b'H', b'I', b' ', b' ', 0, b'X'];
    assert_eq!(convert_block(&data, 0, 6), "HI  ");
    assert_eq!(convert_str(&data, 0, 6), "HI");
    assert_eq!(convert_str(&data, 4, 6), "");
}

#[test]
fn gen_string_pads_and_truncates() {
    assert_eq!(_gen_string("AB", 4), vec![65, 66, 32, 32]);
    assert_eq!(_gen_string("ABCDE", 3), vec![65, 66, 67]);
    assert_eq!(_gen_string("", 2), vec![32, 32]);
}

#[test]
fn function_tags_parse_and_print() {
    assert_eq!(
        ExtendedHeaderInformation::from_str("TO"),
        Ok(ExtendedHeaderInformation::To)
    );
    assert_eq!(
        ExtendedHeaderInformation::from_str("UNEWSGR"),
        Ok(ExtendedHeaderInformation::Unewsgr)
    );
    assert_eq!(ExtendedHeaderInformation::from_str("NOPE"), Err(()));
    assert_eq!(ExtendedHeaderInformation::To2.to_str(), "TO2    ");
    assert_eq!(ExtendedHeaderInformation::Subject.to_str(), "SUBJECT");
}

fn extended_record(func: &str, content: &str, status: u8) -> Vec<u8> {
    let mut v = vec![0xFF, 0x40];
    v.extend_from_slice(func.as_bytes());
    assert_eq!(v.len(), 9);
    v.push(b':');
    let mut c = content.as_bytes().to_vec();
    c.resize(60, b' ');
    v.extend_from_slice(&c);
    v.push(status);
    assert_eq!(v.len(), 71);
    v
}

#[test]
fn extended_header_deserializes() {
    let rec = extended_record("TO     ", "John Doe", 1);
    let e = ExtendedHeader::deserialize(&rec, 0).expect("deserialize failed");
    assert_eq!(e.info, ExtendedHeaderInformation::To);
    assert_eq!(e.content, "John Doe");
    assert_eq!(e.status, 1);
    let bad = extended_record("WHAT   ", "x", 0);
    assert_eq!(
        ExtendedHeader::deserialize(&bad, 0),
        Err(PCBoardError::UnknownExtendedHeaderFunction)
    );
    assert_eq!(
        ExtendedHeader::deserialize(&vec![0u8; 10], 0),
        Err(PCBoardError::UnexpectedEndOfData)
    );
}

/// A 124-byte fixed header for a message with the given number and block
/// count, from SYSOP to ALL about "Another message".
fn pcb_header_bytes(num: u32, num_blocks: u8) -> Vec<u8> {
    fn field(text: &str, width: usize) -> Vec<u8> {
        let mut v = text.as_bytes().to_vec();
        v.resize(width, b' ');
        v
    }
    let mut v = Vec::new();
    v.push(b'A'); // status
    v.extend_from_slice(&packed(num).to_le_bytes());
    v.extend_from_slice(&7u32.to_le_bytes()); // ref number
    v.push(num_blocks);
    v.extend_from_slice(&field("01-02-26", 8));
    v.extend_from_slice(&field("12:34", 5));
    v.extend_from_slice(&field("ALL", 25));
    v.extend_from_slice(&0u32.to_le_bytes()); // reply date
    v.extend_from_slice(&field("00:00", 5));
    v.push(0); // reply status
    v.extend_from_slice(&field("SYSOP", 25));
    v.extend_from_slice(&field("Another message", 25));
    v.extend_from_slice(&field("", 8)); // password
    v.push(225); // active flag
    v.push(0); // echo flag
    v.extend_from_slice(&0u32.to_le_bytes()); // reserved
    v.push(0);
    v.push(0);
    assert_eq!(v.len(), 124);
    v
}

#[test]
fn fixed_header_reads_its_fields() {
    let data = pcb_header_bytes(4, 2);
    let h = MessageHeader::read(&data, 0).expect("read failed");
    assert_eq!(h.status, b'A');
    assert_eq!(h.msg_number, 4);
    assert_eq!(h.ref_number, 7);
    assert_eq!(h.num_blocks, 2);
    assert_eq!(h.date, "01-02-26");
    assert_eq!(h.time, "12:34");
    assert_eq!(h.to_field, "ALL");
    assert_eq!(h.from_field, "SYSOP");
    assert_eq!(h.subj_field, "Another message");
    assert_eq!(h.password, "");
    assert_eq!(h.active_flag, 225);
    assert_eq!(
        MessageHeader::read(&data, 10),
        Err(PCBoardError::UnexpectedEndOfData)
    );
}

#[test]
fn message_read_collects_extended_headers_then_text() {
    let mut data = pcb_header_bytes(1, 2);
    // One 128-byte block: a 72-byte extended-header record, then text.
    let mut block = extended_record("FROM   ", "John Doe", 2);
    block.push(0); // record stride is 72
    block.extend_from_slice(b"Hello\rWorld\xE3");
    block.resize(128, 0);
    data.extend_from_slice(&block);
    let m = Message::read(&data, 0).expect("read failed");
    assert_eq!(m.header.msg_number, 1);
    assert_eq!(m.extended_header.len(), 1);
    assert_eq!(m.extended_header[0].info, ExtendedHeaderInformation::From);
    assert_eq!(m.extended_header[0].content, "John Doe");
    assert_eq!(m.text, "Hello\nWorld\n");
}

#[test]
fn message_read_without_blocks_has_empty_text() {
    let data = pcb_header_bytes(1, 1);
    let m = Message::read(&data, 0).expect("read failed");
    assert_eq!(m.extended_header.len(), 0);
    assert_eq!(m.text, "");
    assert_eq!(
        Message::read(&pcb_header_bytes(1, 3), 0),
        Err(PCBoardError::UnexpectedEndOfData)
    );
}

#[test]
fn convert_msg_drops_nuls_and_breaks_lines() {
    let data = vec![b'a', 0, b'b', 0x0D, b'c', 0xE3];
    assert_eq!(Message::convert_msg(&data, 0, 6), "ab\nc\n");
}

#[test]
fn read_message_checks_the_range_and_follows_the_index() {
    let base = MessageBase::open(&base_header_bytes(2, 1, 2, 0)).unwrap();
    // Base file: header block, then message 1 at offset 0 and message 2
    // at offset 252 (124 + 128), each with one empty block.
    let mut base_file = pcb_header_bytes(1, 2);
    base_file.resize(124 + 128, 0);
    let second_at = base_file.len() as u32;
    base_file.extend_from_slice(&pcb_header_bytes(2, 1));
    let mut index = Vec::new();
    index.extend_from_slice(&0u32.to_le_bytes());
    index.extend_from_slice(&1u32.to_le_bytes());
    index.extend_from_slice(&second_at.to_le_bytes());
    index.extend_from_slice(&2u32.to_le_bytes());
    let m1 = Message::read(&base_file, 0).unwrap();
    assert_eq!(m1.header.msg_number, 1);
    let m2 = base.read_message(2, &index, &base_file).expect("read failed");
    assert_eq!(m2.header.msg_number, 2);
    assert_eq!(
        base.read_message(9, &index, &base_file),
        Err(PCBoardError::MessageNumberOutOfRange(9, 1, 2))
    );
    assert_eq!(
        base.read_message(0, &index, &base_file),
        Err(PCBoardError::MessageNumberOutOfRange(0, 1, 2))
    );
    // An index too short for the record reads as exhausted data.
    assert_eq!(
        base.read_message(2, &vec![0u8; 8], &base_file),
        Err(PCBoardError::UnexpectedEndOfData)
    );
}

#[test]
fn index_scans_whole_records() {
    let base = MessageBase::open(&base_header_bytes(2, 1, 2, 0)).unwrap();
    let mut data = Vec::new();
    data.extend_from_slice(&100u32.to_le_bytes());
    data.extend_from_slice(&1u32.to_le_bytes());
    data.extend_from_slice(&300u32.to_le_bytes());
    data.extend_from_slice(&2u32.to_le_bytes());
    data.push(9); // trailing partial record
    let records = base.read_index(&data);
    assert_eq!(
        records,
        vec![
            MessageIndex {
                offset: 100,
                num: 1
            },
            MessageIndex {
                offset: 300,
                num: 2
            }
        ]
    );
}

#[test]
fn old_index_stops_at_the_zero_word() {
    let base = MessageBase::open(&base_header_bytes(2, 1, 2, 0)).unwrap();
    let mut data = Vec::new();
    data.extend_from_slice(&packed(1).to_le_bytes());
    data.extend_from_slice(&packed(3).to_le_bytes());
    data.extend_from_slice(&0u32.to_le_bytes());
    data.extend_from_slice(&packed(9).to_le_bytes());
    assert_eq!(base.read_old_index(&data), vec![0, 256]);
}
