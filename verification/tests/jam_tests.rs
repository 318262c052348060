use msgbase::jam::attributes::MSG_LOCAL;
use msgbase::jam::jhr_header::{JHRHeaderInfo, JHR_HEADER_SIZE};
use msgbase::jam::last_read_storage::LastReadStorage;
use msgbase::jam::msg_header::{MessageHeader, MessageSubfield, SubfieldType};
use msgbase::jam::{JamError, MessageBase};
use msgbase::util::crc32::{get_crc32, CRC_SEED};

fn subfield(id: u32, content: &[u8]) -> MessageSubfield {
    MessageSubfield {
        id,
        content: content.to_vec(),
    }
}

fn sample_header() -> MessageHeader {
    let mut h = MessageHeader::default();
    h.times_read = 7;
    h.msgid_crc = 0xDEAD_BEEF;
    h.replycrc = 0x1234_5678;
    h.reply_to = 3;
    h.reply1st = 4;
    h.replynext = 5;
    h.date_written = 1_700_000_000;
    h.date_received = 1_700_000_001;
    h.date_processed = 1_700_000_002;
    h.message_number = 17;
    h.attributes = MSG_LOCAL;
    h.attributes2 = 0;
    h.offset = 9;
    h.txt_len = 11;
    h.password_crc = CRC_SEED;
    h.cost = 0;
    h.sub_fields = vec![
        subfield(2, b"alice"),
        subfield(3, b"bob"),
        subfield(6, b"hello there"),
        subfield(9999, &[0xFF, 0x00, 0x80]),
    ];
    h
}

#[test]
fn header_roundtrip_preserves_every_field() {
    let h = sample_header();
    let mut encoded: Vec<u8> = Vec::new();
    h.write(&mut encoded);
    let (decoded, consumed) = MessageHeader::read(&encoded, 0).expect("decode failed");
    assert_eq!(consumed, encoded.len());
    assert_eq!(decoded, h);
}

#[test]
fn header_roundtrip_empty_subfields() {
    let h = MessageHeader::default();
    let mut encoded: Vec<u8> = Vec::new();
    h.write(&mut encoded);
    assert_eq!(encoded.len(), 76);
    let (decoded, consumed) = MessageHeader::read(&encoded, 0).expect("decode failed");
    assert_eq!(consumed, 76);
    assert_eq!(decoded, h);
}

#[test]
fn read_rejects_bad_signature() {
    let mut encoded: Vec<u8> = Vec::new();
    MessageHeader::default().write(&mut encoded);
    encoded[0] = b'X';
    assert_eq!(
        MessageHeader::read(&encoded, 0),
        Err(JamError::InvalidHeaderSignature)
    );
}

#[test]
fn read_rejects_unsupported_revision() {
    let mut encoded: Vec<u8> = Vec::new();
    MessageHeader::default().write(&mut encoded);
    encoded[4] = 2;
    assert_eq!(
        MessageHeader::read(&encoded, 0),
        Err(JamError::UnsupportedMessageHeaderRevision(2))
    );
}

#[test]
fn read_rejects_overrunning_subfield() {
    let mut h = MessageHeader::default();
    h.sub_fields = vec![subfield(6, b"abcd")];
    let mut encoded: Vec<u8> = Vec::new();
    h.write(&mut encoded);
    // Declare more payload than the subfield block holds.
    encoded[76 + 4] = 200;
    assert_eq!(
        MessageHeader::read(&encoded, 0),
        Err(JamError::InvalidSubfieldLength(200, 0))
    );
}

#[test]
fn read_treats_short_image_as_end() {
    let data = vec![b'J', b'A', b'M', 0, 1, 0];
    assert_eq!(
        MessageHeader::read(&data, 0),
        Err(JamError::InvalidHeaderSignature)
    );
}

#[test]
fn accessors_return_first_matching_subfield() {
    let h = sample_header();
    assert_eq!(h.get_from().as_deref(), Some("alice"));
    assert_eq!(h.get_to().as_deref(), Some("bob"));
    assert_eq!(h.get_subject().as_deref(), Some("hello there"));
    assert_eq!(MessageHeader::default().get_to(), None);
    let sf = h.first_of_type(SubfieldType::ReceiverName).unwrap();
    assert_eq!(sf.content, b"bob".to_vec());
    assert_eq!(sf.field_type(), SubfieldType::ReceiverName);
}

#[test]
fn crc_is_the_zmodem_crc32_of_the_lowercased_text() {
    // The standard CRC-32 check value.
    assert_eq!(get_crc32(&b"123456789".to_vec()), 0xCBF4_3926);
    assert_eq!(MessageBase::get_crc("ALICE"), MessageBase::get_crc("alice"));
    assert_eq!(
        MessageBase::get_crc("alice"),
        get_crc32(&b"alice".to_vec())
    );
}

#[test]
fn fresh_base_has_no_password() {
    let (base, _) = MessageBase::create(1_700_000_000);
    assert!(!base.needs_password());
    assert!(base.is_password_valid("anything"));
    assert!(base.is_password_valid(""));
}

#[test]
fn password_base_accepts_only_the_lowercased_match() {
    let (base, _) = MessageBase::create_with_password("Secret", 1_700_000_000);
    assert!(base.needs_password());
    assert!(base.is_password_valid("secret"));
    assert!(base.is_password_valid("SECRET"));
    assert!(base.is_password_valid("Secret"));
    assert!(!base.is_password_valid("other"));
    assert!(!base.is_password_valid(""));
}

#[test]
fn create_then_load_gives_the_same_info() {
    let (base, image) = MessageBase::create_with_password("pw", 123_456);
    assert_eq!(image.len(), JHR_HEADER_SIZE);
    let info = JHRHeaderInfo::load(&image).expect("load failed");
    assert_eq!(info, base.header_info);
    assert_eq!(info.date_created, 123_456);
    assert_eq!(info.mod_counter, 0);
    assert_eq!(info.active_msgs, 0);
    assert_eq!(info.base_msg_num, 1);
}

#[test]
fn load_rejects_bad_magic() {
    let (_, mut image) = MessageBase::create(0);
    image[1] = b'X';
    assert_eq!(
        JHRHeaderInfo::load(&image),
        Err(JamError::InvalidHeaderSignature)
    );
    assert_eq!(
        MessageBase::open(&vec![0u8; 10]),
        Err(JamError::InvalidHeaderSignature)
    );
}

#[test]
fn update_commits_counters_in_place() {
    let (mut base, mut image) = MessageBase::create(55);
    base.header_info.active_msgs = 9;
    let creation = base.header_info.date_created;
    base.header_info.update(&mut image);
    assert_eq!(base.header_info.mod_counter, 1);
    let reloaded = JHRHeaderInfo::load(&image).unwrap();
    assert_eq!(reloaded.mod_counter, 1);
    assert_eq!(reloaded.active_msgs, 9);
    assert_eq!(reloaded.date_created, creation);
}

#[test]
fn lock_is_advisory_and_idempotent() {
    let (mut base, _) = MessageBase::create(0);
    assert!(!base.is_locked);
    assert!(base.lock());
    assert!(!base.lock());
    base.unlock();
    assert!(base.lock());
}

/// One in-memory base with its four file images, exercised the way the
/// on-disk workflow would be.
struct Store {
    base: MessageBase,
    header_file: Vec<u8>,
    text_file: Vec<u8>,
    index_file: Vec<u8>,
}

impl Store {
    fn create() -> Store {
        let (base, header_file) = MessageBase::create(1_700_000_000);
        Store {
            base,
            header_file,
            text_file: Vec::new(),
            index_file: Vec::new(),
        }
    }

    fn write(&mut self, to: &str, text: &str) {
        let mut h = MessageHeader::default();
        h.sub_fields = vec![subfield(3, to.as_bytes())];
        let appends = self.base.write_message(
            h,
            text,
            self.text_file.len() as u32,
            self.header_file.len() as u32,
            1_700_000_100,
        );
        self.text_file.extend_from_slice(&appends.text_data);
        self.header_file.extend_from_slice(&appends.header_data);
        self.index_file.extend_from_slice(&appends.index_data);
    }
}

#[test]
fn fresh_base_counts() {
    let store = Store::create();
    assert_eq!(store.base.active_messages(), 0);
    assert_eq!(store.base.base_messagenumber(), 1);
}

#[test]
fn three_writes_two_alices() {
    let mut store = Store::create();
    store.write("alice", "first\r");
    store.write("bob", "second\r");
    store.write("alice", "third\r");
    store.base.header_info.update(&mut store.header_file);
    assert_eq!(store.base.active_messages(), 3);
    let hits = store
        .base
        .search_message_index(MessageBase::get_crc("alice"), &store.index_file)
        .expect("search failed");
    assert_eq!(hits.len(), 2);
    let bob_hits = store
        .base
        .search_message_index(MessageBase::get_crc("bob"), &store.index_file)
        .expect("search failed");
    assert_eq!(bob_hits.len(), 1);
    // The values are header-file byte offsets, in record order; the
    // first record sits right after the 1024-byte info block.
    assert_eq!(hits[0], 1024);
    assert!(hits[0] < hits[1]);
    // Reopening from the committed image sees the counters.
    let reopened = MessageBase::open(&store.header_file).unwrap();
    assert_eq!(reopened.active_messages(), 3);
    assert_eq!(reopened.mod_counter(), 1);
}

#[test]
fn write_then_lookup_bounds_the_text() {
    let mut store = Store::create();
    store.write("alice", "first message\r");
    let before = store.base.active_messages();
    let text_start = store.text_file.len() as u32;
    store.write("bob", "the second text\r");
    assert_eq!(store.base.active_messages(), before + 1);
    let number = store.base.base_messagenumber() + before;
    let h = store
        .base
        .get_header(number, &store.index_file, &store.header_file)
        .expect("lookup failed");
    assert_eq!(h.message_number, number);
    assert_eq!(h.offset, text_start);
    assert_eq!(h.txt_len, "the second text\r".len() as u32);
    let text = store.base.get_msg_text(&h, &store.text_file);
    assert_eq!(text, "the second text\r\n");
}

#[test]
fn lookup_range_errors_and_successes() {
    let mut store = Store::create();
    store.write("a", "one\r");
    store.write("b", "two\r");
    store.write("c", "three\r");
    assert_eq!(
        store
            .base
            .get_header(0, &store.index_file, &store.header_file),
        Err(JamError::MessageNumberOutOfRange(0, 1, 4))
    );
    assert_eq!(
        store
            .base
            .get_header(5, &store.index_file, &store.header_file),
        Err(JamError::MessageNumberOutOfRange(5, 1, 4))
    );
    for n in 1..=3u32 {
        let h = store
            .base
            .get_header(n, &store.index_file, &store.header_file)
            .expect("in-range lookup failed");
        assert_eq!(h.message_number, n);
    }
}

#[test]
fn search_finds_exactly_the_matching_records() {
    let mut index: Vec<u8> = Vec::new();
    for (crc, off) in [(7u32, 100u32), (9, 200), (7, 300), (8, 400)] {
        index.extend_from_slice(&crc.to_le_bytes());
        index.extend_from_slice(&off.to_le_bytes());
    }
    let (base, _) = MessageBase::create(0);
    assert_eq!(base.search_message_index(7, &index).unwrap(), vec![100, 300]);
    assert_eq!(base.search_message_index(9, &index).unwrap(), vec![200]);
    assert_eq!(base.search_message_index(5, &index).unwrap(), Vec::<u32>::new());
    index.push(0);
    assert_eq!(
        base.search_message_index(7, &index),
        Err(JamError::IndexFileCorrupted)
    );
}

#[test]
fn get_text_expands_carriage_returns() {
    let (base, _) = MessageBase::create(0);
    let mut h = MessageHeader::default();
    h.offset = 0;
    h.txt_len = 3;
    let text_file = vec![b'a', b'\r', b'b'];
    assert_eq!(base.get_msg_text(&h, &text_file), "a\r\nb");
}

#[test]
fn read_headers_scans_until_decode_fails() {
    let mut store = Store::create();
    store.write("x", "one\r");
    store.write("y", "two\r");
    let headers = store.base.read_headers(&store.header_file);
    assert_eq!(headers.len(), 2);
    assert_eq!(headers[0].message_number, 1);
    assert_eq!(headers[1].message_number, 2);
    // Garbage after the last record ends the scan without an error.
    let mut trailing = store.header_file.clone();
    trailing.extend_from_slice(&[1, 2, 3]);
    assert_eq!(store.base.read_headers(&trailing).len(), 2);
    // An empty header file yields no headers.
    assert_eq!(store.base.read_headers(&Vec::new()).len(), 0);
}

fn lr_record(crc: u32, id: u32, last: u32, high: u32) -> Vec<u8> {
    let mut v = Vec::new();
    v.extend_from_slice(&crc.to_le_bytes());
    v.extend_from_slice(&id.to_le_bytes());
    v.extend_from_slice(&last.to_le_bytes());
    v.extend_from_slice(&high.to_le_bytes());
    v
}

#[test]
fn last_read_scan_and_find() {
    let mut data = Vec::new();
    data.extend_from_slice(&lr_record(11, 1, 5, 9));
    data.extend_from_slice(&lr_record(22, 2, 6, 10));
    data.extend_from_slice(&lr_record(22, 3, 7, 11));
    // A short trailing record is ignored by the scan.
    data.extend_from_slice(&[1, 2, 3]);
    let (mut base, _) = MessageBase::create(0);
    let records = base.read_last_read_file(&data);
    assert_eq!(records.len(), 3);
    assert_eq!(
        records[1],
        LastReadStorage {
            user_crc: 22,
            user_id: 2,
            last_read_msg: 6,
            high_read_msg: 10
        }
    );
    let hit = base.find_last_read(22, 3, &data).expect("no record found");
    assert_eq!(hit.last_read_msg, 7);
    assert_eq!(hit.high_read_msg, 11);
    assert_eq!(base.last_read_record, 2);
    assert_eq!(base.find_last_read(22, 9, &data), None);
    assert_eq!(base.find_last_read(11, 1, &data).unwrap().last_read_msg, 5);
    assert_eq!(base.last_read_record, 0);
}
