use warc::header::FieldNames;
use warc::reader::{parse_record, Reader, ReaderError};

/// Two complete records followed by one whose body is truncated.
fn demo_stream() -> Vec<u8> {
    "WARC/1.1\r\nWARC-Type: warcinfo\r\nContent-Length: 5\r\n\r\nhello\r\n\r\nWARC/1.1\r\nWARC-Type: request\r\nContent-Length: 3\r\n\r\nabc\r\n\r\nWARC/1.1\r\nWARC-Type: response\r\nContent-Length: 50\r\n\r\nshort"
        .as_bytes()
        .to_vec()
}

fn malformed_reason(e: ReaderError) -> String {
    match e {
        ReaderError::Malformed(m) => m,
        other => panic!("expected a malformed error, got {:?}", other),
    }
}

#[test]
fn test_reader() {
    let mut warc = Reader::new(demo_stream());

    let item = warc.next();
    assert!(item.is_some());

    // count remaining items
    let mut count = 0;
    while let Some(_) = warc.next() {
        count += 1;
    }
    assert_eq!(count, 2);
}

#[test]
fn reader_parses_many_records() {
    let mut warc = Reader::new(demo_stream());

    let item = warc.next();
    assert!(item.is_some());
    let item = item.unwrap();
    assert!(item.is_ok());
    let item = item.unwrap();
    assert_eq!(item.header.get(&FieldNames::Type), Some(&"warcinfo".into()));

    let item = warc.next();
    assert!(item.is_some());
    let item = item.unwrap();
    assert!(item.is_ok());
    let item = item.unwrap();
    assert_eq!(item.header.get(&FieldNames::Type), Some(&"request".into()));

    let item = warc.next();
    assert!(item.is_some());
    let item = item.unwrap();
    assert!(item.is_err()); // incomplete record
}

#[test]
fn test_parse_record() {
    let data =
        "WARC/1.1\r\ncontent-type: text/plain\r\nWARC-Record-ID: multiline\r\n uuid value\r\nContent-Length: 4\r\n\r\ntest\r\n\r\n"
            .as_bytes()
            .to_vec();
    let mut pos: usize = 0;

    let item = parse_record(&data, &mut pos).unwrap();

    assert_eq!(item.version, "WARC/1.1");

    // header names are case insensitive
    assert_eq!(item.header.get(&FieldNames::ContentType), Some(&"text/plain".into()));
    // and may span multiple lines
    assert_eq!(item.header.get(&FieldNames::RecordID), Some(&"multiline\nuuid value".into()));

    assert_eq!(item.content, "test".as_bytes());
}

#[test]
fn example_resource_record() {
    let data = "WARC/1.1\r\nContent-Length: 4\r\nWARC-Type: resource\r\n\r\ntest\r\n\r\n"
        .as_bytes()
        .to_vec();
    let mut pos: usize = 0;
    let item = parse_record(&data, &mut pos).unwrap();
    assert_eq!(item.version, "WARC/1.1");
    assert_eq!(item.header.get(&FieldNames::Type), Some(&"resource".into()));
    assert_eq!(item.header.get(&FieldNames::ContentLength), Some(&"4".into()));
    assert_eq!(item.content, "test".as_bytes());
    assert_eq!(item.content_length, 4);
    assert_eq!(pos, data.len());
}

#[test]
fn two_records_then_end_of_stream() {
    let data = "WARC/1.1\r\nContent-Length: 2\r\n\r\nab\r\n\r\nWARC/1.1\r\nContent-Length: 1\r\n\r\nc\r\n\r\n"
        .as_bytes()
        .to_vec();
    let mut warc = Reader::new(data);
    let first = warc.next().unwrap().unwrap();
    assert_eq!(first.content, "ab".as_bytes());
    let second = warc.next().unwrap().unwrap();
    assert_eq!(second.content, "c".as_bytes());
    assert!(warc.next().is_none());
    assert!(warc.next().is_none());
}

#[test]
fn empty_stream_yields_nothing() {
    let mut warc = Reader::new(Vec::new());
    assert!(warc.next().is_none());
    assert!(warc.next().is_none());
}

#[test]
fn failure_is_sticky_even_before_valid_bytes() {
    // A record with a truncated body, then a perfectly valid record.
    let data = "WARC/1.1\r\nContent-Length: 50\r\n\r\nshort\r\n\r\nWARC/1.1\r\nContent-Length: 2\r\n\r\nab\r\n\r\n"
        .as_bytes()
        .to_vec();
    let mut warc = Reader::new(data);
    let first = warc.next();
    assert!(first.is_some());
    assert!(first.unwrap().is_err());
    assert!(warc.next().is_none());
    assert!(warc.next().is_none());
}

#[test]
fn missing_trailer_is_malformed() {
    let data = "WARC/1.1\r\nContent-Length: 4\r\n\r\ntestABCD".as_bytes().to_vec();
    let mut pos: usize = 0;
    let e = parse_record(&data, &mut pos).unwrap_err();
    assert_eq!(malformed_reason(e), "No double linefeed after record content");
}

#[test]
fn missing_content_length_is_malformed() {
    let data = "WARC/1.1\r\nWARC-Type: resource\r\n\r\ntest\r\n\r\n".as_bytes().to_vec();
    let mut pos: usize = 0;
    let e = parse_record(&data, &mut pos).unwrap_err();
    assert_eq!(malformed_reason(e), "Content-Length is missing");
}

#[test]
fn content_length_must_be_a_number() {
    let data = "WARC/1.1\r\nContent-Length: four\r\n\r\ntest\r\n\r\n".as_bytes().to_vec();
    let mut pos: usize = 0;
    let e = parse_record(&data, &mut pos).unwrap_err();
    assert_eq!(malformed_reason(e), "Content-Length is not a number");
}

#[test]
fn content_length_overflow_is_not_a_number() {
    let data = "WARC/1.1\r\nContent-Length: 99999999999999999999\r\n\r\n".as_bytes().to_vec();
    let mut pos: usize = 0;
    let e = parse_record(&data, &mut pos).unwrap_err();
    assert_eq!(malformed_reason(e), "Content-Length is not a number");
}

#[test]
fn content_length_accepts_leading_plus() {
    let data = "WARC/1.1\r\nContent-Length: +4\r\n\r\ntest\r\n\r\n".as_bytes().to_vec();
    let mut pos: usize = 0;
    let item = parse_record(&data, &mut pos).unwrap();
    assert_eq!(item.content_length, 4);
    assert_eq!(item.content, "test".as_bytes());
}

#[test]
fn unknown_version_is_malformed() {
    let data = "HTTP/1.0\r\nContent-Length: 0\r\n\r\n\r\n\r\n".as_bytes().to_vec();
    let mut pos: usize = 0;
    let e = parse_record(&data, &mut pos).unwrap_err();
    assert_eq!(malformed_reason(e), "Unknown WARC version: HTTP/1.0");
}

#[test]
fn continuation_without_pending_field_is_malformed() {
    let data = "WARC/1.1\r\n value-first\r\nContent-Length: 0\r\n\r\n\r\n\r\n".as_bytes().to_vec();
    let mut pos: usize = 0;
    let e = parse_record(&data, &mut pos).unwrap_err();
    assert_eq!(malformed_reason(e), "Invalid header block");
}

#[test]
fn header_line_without_colon_is_malformed() {
    let data = "WARC/1.1\r\nnocolon\r\nContent-Length: 0\r\n\r\n\r\n\r\n".as_bytes().to_vec();
    let mut pos: usize = 0;
    let e = parse_record(&data, &mut pos).unwrap_err();
    assert_eq!(malformed_reason(e), "Invalid header field");
}

#[test]
fn truncated_body_is_an_io_failure() {
    let data = "WARC/1.1\r\nContent-Length: 10\r\n\r\nabc".as_bytes().to_vec();
    let mut pos: usize = 0;
    let e = parse_record(&data, &mut pos).unwrap_err();
    assert!(matches!(e, ReaderError::IO));
}

#[test]
fn unicode_whitespace_is_trimmed() {
    // No-break space (U+00A0) around a value is whitespace to trim.
    let data = "WARC/1.1\r\nWARC-Target-URI: \u{a0}value\u{a0}\r\nContent-Length: 0\r\n\r\n\r\n\r\n"
        .as_bytes()
        .to_vec();
    let mut pos: usize = 0;
    let item = parse_record(&data, &mut pos).unwrap();
    assert_eq!(item.header.get(&FieldNames::TargetURI), Some(&"value".into()));
}

#[test]
fn continuation_lines_are_trimmed_and_joined() {
    let data = "WARC/1.1\r\nWARC-Target-URI: first\r\n\t  second part  \r\n   third\r\nContent-Length: 0\r\n\r\n\r\n\r\n"
        .as_bytes()
        .to_vec();
    let mut pos: usize = 0;
    let item = parse_record(&data, &mut pos).unwrap();
    assert_eq!(
        item.header.get(&FieldNames::TargetURI),
        Some(&"first\nsecond part\nthird".into())
    );
}
