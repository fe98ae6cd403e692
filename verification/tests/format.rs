use bitcask_format::crc::hash;
use bitcask_format::data::{DiskEntry, Header, HEADER_SIZE};
use bitcask_format::hint::{HintEntry, HintHeader, HINT_HEADER_SIZE};
use bitcask_format::io::EntryIO;
use bitcask_format::stream::Stream;
use bitcask_format::FormatError;

#[test]
fn test_disk_entry_io() {
    let entry = DiskEntry::new(b"hello".to_vec(), b"world".to_vec());

    let mut cursor = Stream::new();

    let offset = entry.write_to(&mut cursor).unwrap();
    assert_eq!(offset, 0);

    let entry1 = DiskEntry::read_from(&mut cursor, offset).unwrap();
    assert_eq!(entry1.is_some(), true);

    let e = entry1.unwrap();
    assert_eq!(e.key, b"hello".to_vec());
}

#[test]
fn test_crc_check() {
    let mut entry = DiskEntry::new(b"hello".to_vec(), b"world".to_vec());

    assert_eq!(entry.is_validate(), true);

    entry.value = b"hello".to_vec();
    assert_eq!(entry.is_validate(), false);
}

#[test]
fn test_hint_entry_io() {
    let entry = HintEntry::new(b"hello".to_vec(), 0, 100, 0).unwrap();

    assert_eq!(entry.header.key_sz(), 5);
    assert_eq!(entry.header.value_sz(), 100 - 5 - HEADER_SIZE);
    assert_eq!(entry.size(), 100);
    assert_eq!(entry.hint_size(), 5 + HINT_HEADER_SIZE as u64);

    let mut cursor = Stream::new();

    let offset = entry.write_to(&mut cursor).unwrap();
    assert_eq!(offset, 0);

    let entry1 = HintEntry::read_from(&mut cursor, offset).unwrap();
    assert_eq!(entry1.is_some(), true);

    let e = entry1.unwrap();
    assert_eq!(e.key, b"hello".to_vec());
    assert_eq!(e.size(), 100);
    assert_eq!(entry.hint_size(), 5 + HINT_HEADER_SIZE as u64);
}

#[test]
fn data_round_trip_preserves_everything() {
    let entry = DiskEntry::new(b"key-bytes".to_vec(), b"value-bytes".to_vec());
    let mut cursor = Stream::new();
    let offset = entry.write_to(&mut cursor).unwrap();

    let e = DiskEntry::read_from(&mut cursor, offset).unwrap().unwrap();
    assert_eq!(e.key, entry.key);
    assert_eq!(e.value, entry.value);
    assert_eq!(e.crc(), entry.crc());
    assert_eq!(e.timestamp(), entry.timestamp());
    assert_eq!(e.offset, None);
    assert_eq!(e.file_id, None);
    assert!(e.is_validate());
    assert_eq!(entry.size(), HEADER_SIZE as u64 + 9 + 11);
}

#[test]
fn data_round_trip_empty_key_and_value() {
    let entry = DiskEntry::new(Vec::new(), Vec::new());
    assert_eq!(entry.size(), HEADER_SIZE as u64);
    let mut cursor = Stream::new();
    let offset = entry.write_to(&mut cursor).unwrap();
    let e = DiskEntry::read_from(&mut cursor, offset).unwrap().unwrap();
    assert_eq!(e.key, Vec::<u8>::new());
    assert_eq!(e.value, Vec::<u8>::new());
    assert_eq!(e.crc(), entry.crc());
    assert!(e.is_validate());
}

#[test]
fn sequential_scan_and_clean_end() {
    let first = DiskEntry::new(b"a".to_vec(), b"1".to_vec());
    let second = DiskEntry::new(b"bb".to_vec(), b"22".to_vec());

    let mut cursor = Stream::new();
    let off1 = first.write_to(&mut cursor).unwrap();
    let off2 = second.write_to(&mut cursor).unwrap();
    assert_eq!(off1, 0);
    assert_eq!(off2, first.size());

    let e1 = DiskEntry::read_from(&mut cursor, off1).unwrap().unwrap();
    assert_eq!(e1.key, b"a".to_vec());
    let e2 = DiskEntry::read_from(&mut cursor, off2).unwrap().unwrap();
    assert_eq!(e2.key, b"bb".to_vec());
    assert_eq!(e2.value, b"22".to_vec());

    // Reading at an offset equal to the stream's length is a clean end of
    // stream, not an error.
    let end = off2 + second.size();
    assert_eq!(end, cursor.len() as u64);
    let none = DiskEntry::read_from(&mut cursor, end).unwrap();
    assert!(none.is_none());
}

#[test]
fn hint_read_at_end_returns_none() {
    let mut empty = Stream::new();
    let none = HintEntry::read_from(&mut empty, 0).unwrap();
    assert!(none.is_none());
}

#[test]
fn truncated_header_is_an_error() {
    let entry = DiskEntry::new(b"hello".to_vec(), b"world".to_vec());
    let mut cursor = Stream::new();
    entry.write_to(&mut cursor).unwrap();

    let mut bytes = cursor.data;
    bytes.truncate(HEADER_SIZE - 6);
    let mut short = Stream::from_vec(bytes);
    let r = DiskEntry::read_from(&mut short, 0);
    assert_eq!(r.unwrap_err(), FormatError::Truncated);
}

#[test]
fn truncated_payload_is_an_error() {
    let entry = DiskEntry::new(b"hello".to_vec(), b"world".to_vec());
    let mut cursor = Stream::new();
    entry.write_to(&mut cursor).unwrap();

    // A complete header, but fewer than key_size + value_size bytes after it.
    let mut bytes = cursor.data;
    bytes.truncate(HEADER_SIZE + 7);
    let mut short = Stream::from_vec(bytes);
    let r = DiskEntry::read_from(&mut short, 0);
    assert_eq!(r.unwrap_err(), FormatError::Truncated);
}

#[test]
fn truncated_hint_tail_is_an_error() {
    let entry = HintEntry::new(b"hello".to_vec(), 3, 100, 9).unwrap();
    let mut cursor = Stream::new();
    entry.write_to(&mut cursor).unwrap();

    let mut bytes = cursor.data;
    bytes.truncate(HINT_HEADER_SIZE + 2);
    let mut short = Stream::from_vec(bytes);
    let r = HintEntry::read_from(&mut short, 0);
    assert_eq!(r.unwrap_err(), FormatError::Truncated);
}

#[test]
fn single_byte_mutation_breaks_validity() {
    let mut entry = DiskEntry::new(b"hello".to_vec(), b"world".to_vec());
    assert!(entry.is_validate());

    entry.value[2] = entry.value[2].wrapping_add(1);
    assert!(!entry.is_validate());
    assert_ne!(entry.crc_expected(), entry.crc_actual());

    entry.value[2] = entry.value[2].wrapping_sub(1);
    assert!(entry.is_validate());
    assert_eq!(entry.crc_expected(), entry.crc_actual());

    entry.key[0] = entry.key[0].wrapping_add(1);
    assert!(!entry.is_validate());
}

#[test]
fn derive_from_unplaced_entry_fails() {
    let entry = DiskEntry::new(b"hello".to_vec(), b"world".to_vec());
    let r = HintEntry::derive_from(&entry);
    assert_eq!(r.unwrap_err(), FormatError::NotPlaced);
}

#[test]
fn derive_from_placed_entry_copies_placement() {
    let entry = DiskEntry::new(b"hello".to_vec(), b"world".to_vec()).offset(40).file_id(7);
    let hint = HintEntry::derive_from(&entry).unwrap();
    assert_eq!(hint.offset(), 40);
    assert_eq!(hint.key_sz(), 5);
    assert_eq!(hint.value_sz(), 5);
    assert_eq!(hint.timestamp(), entry.timestamp());
    assert_eq!(hint.key, b"hello".to_vec());
    assert_eq!(hint.file_id, Some(7));
    assert_eq!(hint.size(), entry.size());
}

#[test]
fn hint_new_rejects_too_small_total_size() {
    // 20 < HEADER_SIZE + key length: the subtraction would underflow.
    let r = HintEntry::new(b"hello".to_vec(), 0, 20, 0);
    assert_eq!(r.unwrap_err(), FormatError::InvalidSize);

    // The smallest valid total size leaves a zero-length value.
    let h = HintEntry::new(b"hello".to_vec(), 0, 21, 0).unwrap();
    assert_eq!(h.value_sz(), 0);
    assert_eq!(h.size(), 21);
}

#[test]
fn hint_round_trip_preserves_fields() {
    let entry = HintEntry::new(b"hello".to_vec(), 1234, 100, 42).unwrap();
    let mut cursor = Stream::new();
    let offset = entry.write_to(&mut cursor).unwrap();

    let e = HintEntry::read_from(&mut cursor, offset).unwrap().unwrap();
    assert_eq!(e.offset(), 1234);
    assert_eq!(e.key_sz(), 5);
    assert_eq!(e.value_sz(), 100 - 5 - HEADER_SIZE);
    assert_eq!(e.timestamp(), 42);
    assert_eq!(e.key, b"hello".to_vec());
    assert_eq!(e.file_id, None);
    assert_eq!(e.hint_size(), HINT_HEADER_SIZE as u64 + 5);
}

#[test]
fn header_layout_is_little_endian() {
    let h = Header::new(1, 2, 3, 4);
    let bytes = h.encode();
    assert_eq!(bytes, vec![1, 0, 0, 0, 2, 0, 0, 0, 3, 0, 0, 0, 4, 0, 0, 0]);
    assert_eq!(Header::decode(&bytes), h);

    let wide = Header::new(0x01020304, 0, 0xfffffffe, 0);
    let wb = wide.encode();
    assert_eq!(wb[0..4].to_vec(), vec![0x04, 0x03, 0x02, 0x01]);
    assert_eq!(wb[8..12].to_vec(), vec![0xfe, 0xff, 0xff, 0xff]);
    assert_eq!(Header::decode(&wb), wide);
}

#[test]
fn hint_header_layout_is_little_endian() {
    let h = HintHeader::new(0x0102030405060708, 1, 2, 3);
    let bytes = h.encode();
    assert_eq!(
        bytes,
        vec![8, 7, 6, 5, 4, 3, 2, 1, 1, 0, 0, 0, 2, 0, 0, 0, 3, 0, 0, 0]
    );
    assert_eq!(HintHeader::decode(&bytes), h);
    assert_eq!(h.offset(), 0x0102030405060708);
    assert_eq!(h.key_sz(), 1);
    assert_eq!(h.value_sz(), 2);
    assert_eq!(h.timestamp(), 3);
}

#[test]
fn checksum_exact_values() {
    // The polynomial of the empty input is zero; one byte is the byte itself;
    // each further byte multiplies by the base 16777619 and adds the byte.
    assert_eq!(hash(&vec![], &vec![]), 0);
    assert_eq!(hash(&vec![1], &vec![]), 1);
    assert_eq!(hash(&vec![], &vec![1]), 1);
    assert_eq!(hash(&vec![1, 2], &vec![]), 16777621);
    assert_eq!(hash(&vec![1], &vec![2]), 16777621);
    assert_eq!(hash(&vec![255, 255], &vec![]), 255u32 * 16777619 + 255);
}

#[test]
fn stream_overwrite_in_place() {
    let mut s = Stream::new();
    s.write_all(&vec![1, 2, 3, 4]);
    assert_eq!(s.position(), 4);

    s.seek(1);
    s.write_all(&vec![9, 8]);
    assert_eq!(s.data, vec![1, 9, 8, 4]);
    assert_eq!(s.position(), 3);

    s.seek(3);
    s.write_all(&vec![7, 6]);
    assert_eq!(s.data, vec![1, 9, 8, 7, 6]);
    assert_eq!(s.len(), 5);
}

#[test]
fn entry_size_matches_size() {
    let k = b"hello".to_vec();
    let v = b"world".to_vec();
    let entry = DiskEntry::new(k.clone(), v.clone());
    assert_eq!(DiskEntry::entry_size(&k, &v), entry.size());
    assert_eq!(entry.size(), 26);
}
