use ffpb::cursor::{ByteCursor, ReadRequest, ReadResult};

#[test]
fn read_until_takes_the_delimiter_along() {
    let mut cursor = ByteCursor::new(b"ab\ncd\n".to_vec());
    assert_eq!(cursor.read_until(b'\n'), ReadResult::Bytes(b"ab\n".to_vec()));
    assert_eq!(cursor.remaining_len(), 3);
    assert_eq!(cursor.read_until(b'\n'), ReadResult::Bytes(b"cd\n".to_vec()));
    assert_eq!(cursor.remaining_len(), 0);
}

#[test]
fn read_until_stops_at_the_first_delimiter() {
    let mut cursor = ByteCursor::new(b"\r\rx".to_vec());
    assert_eq!(cursor.read_until(b'\r'), ReadResult::Bytes(b"\r".to_vec()));
    assert_eq!(cursor.read_until(b'\r'), ReadResult::Bytes(b"\r".to_vec()));
    assert_eq!(cursor.read_until(b'\r'), ReadResult::EndOfStream(b"x".to_vec()));
}

#[test]
fn read_until_runs_dry_without_a_delimiter() {
    let mut cursor = ByteCursor::new(b"ab\ncd".to_vec());
    assert_eq!(cursor.read_until(b'\r'), ReadResult::EndOfStream(b"ab\ncd".to_vec()));
    assert_eq!(cursor.remaining_len(), 0);
    assert_eq!(cursor.read_until(b'\r'), ReadResult::EndOfStream(Vec::new()));
}

#[test]
fn read_exact_takes_the_count() {
    let mut cursor = ByteCursor::new(b"File 'x'".to_vec());
    assert_eq!(cursor.read_exact(5), ReadResult::Bytes(b"File ".to_vec()));
    assert_eq!(cursor.remaining_len(), 3);
    assert_eq!(cursor.read_exact(0), ReadResult::Bytes(Vec::new()));
    assert_eq!(cursor.read_exact(3), ReadResult::Bytes(b"'x'".to_vec()));
    assert_eq!(cursor.remaining_len(), 0);
}

#[test]
fn read_exact_runs_dry_on_too_few_bytes() {
    let mut cursor = ByteCursor::new(b"abc".to_vec());
    assert_eq!(cursor.read_exact(5), ReadResult::EndOfStream(b"abc".to_vec()));
    assert_eq!(cursor.remaining_len(), 0);
    assert_eq!(cursor.read_exact(usize::MAX), ReadResult::EndOfStream(Vec::new()));
}

#[test]
fn cursor_answers_each_request() {
    let mut cursor = ByteCursor::new(b"Press [q]\nframe=1\r".to_vec());
    assert_eq!(cursor.read(ReadRequest::Exact(5)), ReadResult::Bytes(b"Press".to_vec()));
    assert_eq!(cursor.read(ReadRequest::Stop), ReadResult::EndOfStream(Vec::new()));
    assert_eq!(cursor.remaining_len(), 13);
    assert_eq!(
        cursor.read(ReadRequest::Until(b'\r')),
        ReadResult::Bytes(b" [q]\nframe=1\r".to_vec())
    );
    assert_eq!(cursor.read(ReadRequest::Until(b'\r')), ReadResult::EndOfStream(Vec::new()));
}

#[test]
fn record_with_its_delimiter_is_whole() {
    assert_eq!(
        ReadResult::from_record(b"frame=1\r".to_vec(), b'\r'),
        ReadResult::Bytes(b"frame=1\r".to_vec())
    );
    assert_eq!(ReadResult::from_record(b"\n".to_vec(), b'\n'), ReadResult::Bytes(b"\n".to_vec()));
}

#[test]
fn record_without_its_delimiter_tells_the_end() {
    assert_eq!(
        ReadResult::from_record(b"frame=1\n".to_vec(), b'\r'),
        ReadResult::EndOfStream(b"frame=1\n".to_vec())
    );
    assert_eq!(ReadResult::from_record(Vec::new(), b'\r'), ReadResult::EndOfStream(Vec::new()));
}

#[test]
fn record_told_from_its_bytes_is_what_the_cursor_answers() {
    let streams: [&[u8]; 5] = [b"", b"\r", b"ab\rcd", b"ab\ncd", b"abc\r"];
    for stream in streams {
        let brought = match stream.iter().position(|byte| *byte == b'\r') {
            Some(at) => stream[..at + 1].to_vec(),
            None => stream.to_vec(),
        };
        let mut cursor = ByteCursor::new(stream.to_vec());
        assert_eq!(ReadResult::from_record(brought, b'\r'), cursor.read_until(b'\r'));
    }
}
