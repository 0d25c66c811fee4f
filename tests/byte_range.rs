use pdf_signing::binary_patch::{find_binary_pattern, splice};
use pdf_signing::{ByteRange, Error};

#[test]
fn to_list_pads_to_width() {
    let range = ByteRange(vec![0, 10, 20, 30]);
    assert_eq!(range.to_list(15).unwrap(), "0 10 20 30     ");
    assert_eq!(range.to_list(10).unwrap(), "0 10 20 30");
}

#[test]
fn to_list_bytes_matches_to_list() {
    let range = ByteRange(vec![7, 1234567890]);
    assert_eq!(range.to_list_bytes(12).unwrap(), b"7 1234567890".to_vec());
}

#[test]
fn to_list_too_narrow_fails() {
    let range = ByteRange(vec![0, 123456, 789, 1]);
    match range.to_list(5) {
        Err(Error::FixedWidthTooSmall { width, needed }) => {
            assert_eq!(width, 5);
            assert_eq!(needed, 14);
        }
        other => panic!("unexpected: {:?}", other),
    }
}

#[test]
fn to_list_empty_range() {
    assert_eq!(ByteRange(vec![]).to_list(3).unwrap(), "   ");
}

#[test]
fn get_range_is_inclusive_span() {
    let range = ByteRange(vec![0, 100, 150, 50]);
    assert_eq!(range.get_range(0), 0..=99);
    assert_eq!(range.get_range(1), 150..=199);
}

#[test]
fn capacity_sums_lengths() {
    assert_eq!(ByteRange(vec![0, 100, 150, 50]).get_capacity_inclusive(), 150);
    assert_eq!(ByteRange(vec![3, 4, 5]).get_capacity_inclusive(), 4);
    assert_eq!(ByteRange(vec![]).get_capacity_inclusive(), 0);
}

#[test]
fn find_pattern_first_occurrence() {
    assert_eq!(find_binary_pattern(b"xxabcabc", b"abc"), Some(2));
    assert_eq!(find_binary_pattern(b"aab", b"ab"), Some(1));
    assert_eq!(find_binary_pattern(b"abab", b"abc"), None);
    assert_eq!(find_binary_pattern(b"", b"a"), None);
    assert_eq!(find_binary_pattern(b"abc", b""), None);
    assert_eq!(find_binary_pattern(b"ab", b"abc"), None);
}

#[test]
fn splice_overwrites_in_place() {
    let mut buf = b"hello world".to_vec();
    splice(&mut buf, 6, b"WORLD");
    assert_eq!(buf, b"hello WORLD".to_vec());
    splice(&mut buf, 0, b"");
    assert_eq!(buf.len(), 11);
}
