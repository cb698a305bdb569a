//! HTTP range parsing and validation.

use humanboard::range_utils::{ByteRange, safe_buffer_size, MAX_RANGE_SIZE};

#[test]
fn test_valid_range() {
    let range = ByteRange::new(0, 1023, 10000).unwrap();
    assert_eq!(range.start, 0);
    assert_eq!(range.end, 1023);
    assert_eq!(range.length(), 1024);
}

#[test]
fn test_range_clamped_to_file_size() {
    let range = ByteRange::new(0, 99999, 5000).unwrap();
    assert_eq!(range.start, 0);
    assert_eq!(range.end, 4999);
}

#[test]
fn test_invalid_range_end_before_start() {
    assert!(ByteRange::new(1000, 0, 10000).is_none());
}

#[test]
fn test_invalid_range_start_beyond_file() {
    assert!(ByteRange::new(10000, 10010, 10000).is_none());
}

#[test]
fn test_invalid_range_exceeds_max_size() {
    assert!(ByteRange::new(0, MAX_RANGE_SIZE + 1, MAX_RANGE_SIZE + 2).is_none());
}

#[test]
fn test_parse_header_valid() {
    let range = ByteRange::parse_header("bytes=0-1023", 10000).unwrap();
    assert_eq!(range.start, 0);
    assert_eq!(range.end, 1023);
}

#[test]
fn test_parse_header_open_ended() {
    let range = ByteRange::parse_header("bytes=1000-", 5000).unwrap();
    assert_eq!(range.start, 1000);
    assert_eq!(range.end, 4999);
}

#[test]
fn test_parse_header_invalid_format() {
    assert!(ByteRange::parse_header("invalid", 10000).is_none());
    assert!(ByteRange::parse_header("bytes=", 10000).is_none());
    assert!(ByteRange::parse_header("bytes=abc-def", 10000).is_none());
}

#[test]
fn test_content_range_format() {
    let range = ByteRange::new(100, 200, 1000).unwrap();
    assert_eq!(range.format_content_range(), "bytes 100-200/1000");
}

#[test]
fn test_safe_buffer_size() {
    assert_eq!(safe_buffer_size(1024), 1024);
    assert_eq!(safe_buffer_size(MAX_RANGE_SIZE + 1000), MAX_RANGE_SIZE as usize);
}

#[test]
fn test_range_as_inclusive() {
    let range = ByteRange::new(5, 9, 100).unwrap();
    let incl = range.as_range_inclusive();
    assert_eq!(*incl.start(), 5);
    assert_eq!(*incl.end(), 9);
}

#[test]
fn test_parse_header_second_dash_ignored() {
    let range = ByteRange::parse_header("bytes=0-10-20", 100).unwrap();
    assert_eq!(range.start, 0);
    assert_eq!(range.end, 10);
}
