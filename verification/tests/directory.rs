//! Directory-entry decoding: termination, deletion, names, and fields.
use fatfs::dir::{get_entries, parse_directory_entry};
use fatfs::errors::FatError;

/// One 32-byte directory record with the given name bytes, extension bytes,
/// attribute byte, starting-cluster halves, and file size.
fn record(name: &[u8; 8], ext: &[u8; 3], attr: u8, high: u16, low: u16, size: u32) -> Vec<u8> {
    let mut r = vec![0u8; 32];
    r[0..8].copy_from_slice(name);
    r[8..11].copy_from_slice(ext);
    r[12] = attr;
    r[0x14..0x16].copy_from_slice(&high.to_le_bytes());
    r[0x1A..0x1C].copy_from_slice(&low.to_le_bytes());
    r[0x1C..0x20].copy_from_slice(&size.to_le_bytes());
    r
}

/// The buffer followed by one end-of-directory record.
fn terminated(mut buf: Vec<u8>) -> Vec<u8> {
    buf.extend_from_slice(&[0u8; 32]);
    buf
}

#[test]
fn end_marker_first_yields_empty() {
    let buf = vec![0u8; 64];
    let entries = get_entries(&buf).unwrap();
    assert_eq!(entries.len(), 0);
}

#[test]
fn buffer_shorter_than_one_record_is_out_of_range() {
    let buf = vec![0x41u8; 31];
    assert_eq!(get_entries(&buf).unwrap_err(), FatError::IndexOutOfRange);
    let empty: Vec<u8> = Vec::new();
    assert_eq!(get_entries(&empty).unwrap_err(), FatError::IndexOutOfRange);
}

#[test]
fn missing_end_marker_is_out_of_range() {
    let buf = record(b"WHOLE   ", b"TXT", 0x00, 0, 3, 1);
    assert_eq!(get_entries(&buf).unwrap_err(), FatError::IndexOutOfRange);
}

#[test]
fn missing_end_marker_after_partial_record_is_out_of_range() {
    let mut buf = record(b"WHOLE   ", b"TXT", 0x00, 0, 3, 1);
    buf.extend_from_slice(&[0x42u8; 16]);
    assert_eq!(get_entries(&buf).unwrap_err(), FatError::IndexOutOfRange);
}

#[test]
fn deleted_then_valid_yields_only_the_valid_one() {
    let mut deleted = record(b"GONE    ", b"TXT", 0x00, 0, 9, 5);
    deleted[0] = 0xE5;
    let valid = record(b"KEPT    ", b"TXT", 0x00, 0, 7, 11);
    let mut buf = deleted;
    buf.extend_from_slice(&valid);
    let entries = get_entries(&terminated(buf)).unwrap();
    assert_eq!(entries.len(), 1);
    assert_eq!(entries[0].name, "KEPT.TXT");
    assert_eq!(entries[0].start_cluster, 7);
    assert_eq!(entries[0].file_size, 11);
}

#[test]
fn name_renders_base_dot_extension() {
    let buf = terminated(record(b"HELLO   ", b"TXT", 0x00, 0, 3, 0));
    let entries = get_entries(&buf).unwrap();
    assert_eq!(entries.len(), 1);
    assert_eq!(entries[0].name, "HELLO.TXT");
}

#[test]
fn full_base_name_is_kept_whole() {
    let buf = terminated(record(b"ABCDEFGH", b"BIN", 0x00, 0, 3, 0));
    let entries = get_entries(&buf).unwrap();
    assert_eq!(entries[0].name, "ABCDEFGH.BIN");
}

#[test]
fn all_fill_base_name_trims_to_nothing() {
    let buf = terminated(record(b"        ", b"TXT", 0x00, 0, 3, 0));
    let entries = get_entries(&buf).unwrap();
    assert_eq!(entries[0].name, ".TXT");
}

#[test]
fn extension_is_not_trimmed() {
    let buf = terminated(record(b"A       ", b"T  ", 0x00, 0, 3, 0));
    let entries = get_entries(&buf).unwrap();
    assert_eq!(entries[0].name, "A.T  ");
}

#[test]
fn interior_fill_in_base_name_is_kept() {
    let buf = terminated(record(b"A B     ", b"TXT", 0x00, 0, 3, 0));
    let entries = get_entries(&buf).unwrap();
    assert_eq!(entries[0].name, "A B.TXT");
}

#[test]
fn directory_attribute_bit_set_means_directory() {
    let buf = terminated(record(b"SUBDIR  ", b"   ", 0x10, 0, 3, 0));
    let entries = get_entries(&buf).unwrap();
    assert!(entries[0].is_directory);
}

#[test]
fn directory_attribute_bit_clear_means_file() {
    let buf = terminated(record(b"FILE    ", b"TXT", 0x20, 0, 3, 0));
    let entries = get_entries(&buf).unwrap();
    assert!(!entries[0].is_directory);
}

#[test]
fn start_cluster_combines_high_and_low_words() {
    let buf = terminated(record(b"BIG     ", b"DAT", 0x00, 0x0001, 0x0005, 0));
    let entries = get_entries(&buf).unwrap();
    assert_eq!(entries[0].start_cluster, 0x0001_0005);
    assert_eq!(entries[0].start_cluster, 65541);
}

#[test]
fn start_cluster_extremes_combine_exactly() {
    let buf = terminated(record(b"HUGE    ", b"DAT", 0x00, 0xFFFF, 0xFFFF, 0));
    let entries = get_entries(&buf).unwrap();
    assert_eq!(entries[0].start_cluster, u32::MAX);
}

#[test]
fn file_size_is_little_endian() {
    let buf = terminated(record(b"SIZED   ", b"BIN", 0x00, 0, 3, 0x1234_5678));
    let entries = get_entries(&buf).unwrap();
    assert_eq!(entries[0].file_size, 0x1234_5678);
}

#[test]
fn decoding_stops_at_end_marker_despite_garbage_after() {
    let mut buf = vec![0u8; 32];
    buf.extend_from_slice(&record(b"GARBAGE ", b"XXX", 0x10, 1, 2, 3));
    buf.extend_from_slice(&[0xAAu8; 32]);
    let entries = get_entries(&buf).unwrap();
    assert_eq!(entries.len(), 0);
}

#[test]
fn entries_come_in_record_order() {
    let mut buf = record(b"FIRST   ", b"TXT", 0x00, 0, 3, 1);
    buf.extend_from_slice(&record(b"SECOND  ", b"TXT", 0x00, 0, 4, 2));
    buf.extend_from_slice(&record(b"THIRD   ", b"TXT", 0x00, 0, 5, 3));
    let entries = get_entries(&terminated(buf)).unwrap();
    assert_eq!(entries.len(), 3);
    assert_eq!(entries[0].name, "FIRST.TXT");
    assert_eq!(entries[1].name, "SECOND.TXT");
    assert_eq!(entries[2].name, "THIRD.TXT");
}

#[test]
fn trailing_partial_record_is_not_read() {
    let mut buf = record(b"WHOLE   ", b"TXT", 0x00, 0, 3, 1);
    buf.extend_from_slice(&[0u8; 32]);
    buf.extend_from_slice(&[0x42u8; 16]);
    let entries = get_entries(&buf).unwrap();
    assert_eq!(entries.len(), 1);
    assert_eq!(entries[0].name, "WHOLE.TXT");
}

#[test]
fn parse_returns_none_exactly_at_end_marker() {
    let buf = vec![0u8; 32];
    assert!(parse_directory_entry(&buf, 0).is_none());
    let live = record(b"LIVE    ", b"TXT", 0x00, 0, 3, 1);
    assert!(parse_directory_entry(&live, 0).is_some());
}

#[test]
fn parse_decodes_a_deleted_record_too() {
    let mut deleted = record(b"XGONE   ", b"TXT", 0x00, 0, 9, 5);
    deleted[0] = 0xE5;
    let e = parse_directory_entry(&deleted, 0).unwrap();
    assert_eq!(e.start_cluster, 9);
    assert_eq!(e.file_size, 5);
}

#[test]
fn parse_reads_the_record_at_the_given_index() {
    let mut buf = record(b"ZERO    ", b"AAA", 0x00, 0, 2, 0);
    buf.extend_from_slice(&record(b"ONE     ", b"BBB", 0x00, 0, 3, 0));
    let e = parse_directory_entry(&buf, 1).unwrap();
    assert_eq!(e.name, "ONE.BBB");
}
