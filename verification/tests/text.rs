use ffpb::text::{decode, strip_line_breaks, CARRIAGE_RETURN, LINE_FEED};

#[test]
fn line_breaks_are_the_two_bytes() {
    assert_eq!(LINE_FEED, b'\n');
    assert_eq!(CARRIAGE_RETURN, b'\r');
}

#[test]
fn line_breaks_are_taken_out() {
    assert_eq!(strip_line_breaks(b"size=1 time=2\r"), b"size=1 time=2".to_vec());
    assert_eq!(strip_line_breaks(b"\r\na\nb\r\rc\n"), b"abc".to_vec());
    assert_eq!(strip_line_breaks(b"\r\n\r\n"), Vec::<u8>::new());
}

#[test]
fn other_bytes_stay_in_their_order() {
    assert_eq!(strip_line_breaks(b""), Vec::<u8>::new());
    assert_eq!(strip_line_breaks(b"a b\tc"), b"a b\tc".to_vec());
    assert_eq!(strip_line_breaks(&[0, 9, 10, 11, 12, 13, 14, 255]), vec![0, 9, 11, 12, 14, 255]);
}

#[test]
fn well_formed_bytes_are_decoded() {
    assert_eq!(decode(b""), Some(""));
    assert_eq!(decode(b"time=00:00:01.00\r"), Some("time=00:00:01.00\r"));
    assert_eq!(decode(&[0x74, 0xc3, 0xad, 0x74]), Some("t\u{ed}t"));
    assert_eq!(decode(&[0xd9, 0xa0, 0xd9, 0xa1]), Some("\u{660}\u{661}"));
}

#[test]
fn other_bytes_are_not_decoded() {
    assert_eq!(decode(&[0xff]), None);
    assert_eq!(decode(&[b'a', 0xc3]), None);
    assert_eq!(decode(&[0xc3, 0x28]), None);
    assert_eq!(decode(&[0xed, 0xa0, 0x80]), None);
}
