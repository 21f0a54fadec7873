use warc::header::{FieldNames, Header};
use warc::reader::parse_record;
use warc::record::Record;
use warc::writer::{write_body, write_header, write_record, write_record_without_body, write_version};

#[test]
fn write_version_emits_line() {
    let mut w: Vec<u8> = Vec::new();
    write_version(&mut w, "WARC/1.1");
    assert_eq!(w, b"WARC/1.1\r\n".to_vec());
}

#[test]
fn write_header_renders_canonical_names_in_order() {
    let mut h = Header::new();
    h.insert(FieldNames::Type, "resource".to_string());
    h.insert(FieldNames::ContentLength, "4".to_string());
    let mut w: Vec<u8> = Vec::new();
    write_header(&mut w, &h);
    assert_eq!(w, b"WARC-Type: resource\r\nContent-Length: 4\r\n\r\n".to_vec());
}

#[test]
fn write_body_copies_at_most_content_length() {
    let body = b"abcdef".to_vec();
    let mut w: Vec<u8> = Vec::new();
    write_body(&mut w, 4, &body);
    assert_eq!(w, b"abcd\r\n\r\n".to_vec());

    let mut w2: Vec<u8> = Vec::new();
    write_body(&mut w2, 10, &body);
    assert_eq!(w2, b"abcdef\r\n\r\n".to_vec());
}

#[test]
fn write_record_emits_whole_record() {
    let mut h = Header::new();
    h.insert(FieldNames::ContentLength, "4".to_string());
    let rec = Record::new(h, 4);
    let body = b"test".to_vec();
    let mut w: Vec<u8> = Vec::new();
    write_record(&mut w, &rec, &body);
    assert_eq!(w, b"WARC/1.1\r\nContent-Length: 4\r\n\r\ntest\r\n\r\n".to_vec());
}

#[test]
fn write_record_without_body_stops_after_headers() {
    let mut h = Header::new();
    h.insert(FieldNames::ContentLength, "4".to_string());
    let rec = Record::new(h, 4);
    let mut w: Vec<u8> = Vec::new();
    write_record_without_body(&mut w, &rec);
    assert_eq!(w, b"WARC/1.1\r\nContent-Length: 4\r\n\r\n".to_vec());
}

#[test]
fn written_record_parses_back() {
    let mut h = Header::new();
    h.insert(FieldNames::Type, "resource".to_string());
    h.insert(FieldNames::ContentLength, "5".to_string());
    h.insert(FieldNames::TargetURI, "http://example.test/".to_string());
    let rec = Record::new(h, 5);
    let body = b"hello".to_vec();
    let mut w: Vec<u8> = Vec::new();
    write_record(&mut w, &rec, &body);

    let mut pos: usize = 0;
    let back = parse_record(&w, &mut pos).unwrap();
    assert_eq!(back.version, "WARC/1.1");
    assert_eq!(back.header.get(&FieldNames::Type), Some(&"resource".into()));
    assert_eq!(back.header.get(&FieldNames::TargetURI), Some(&"http://example.test/".into()));
    assert_eq!(back.content, b"hello".to_vec());
    assert_eq!(back.content_length, 5);
    assert_eq!(pos, w.len());
}

#[test]
fn record_new_uses_current_version_and_empty_content() {
    let rec = Record::new(Header::new(), 7);
    assert_eq!(rec.version, "WARC/1.1");
    assert_eq!(rec.content_length, 7);
    assert!(rec.content.is_empty());
    assert_eq!(rec.header.len(), 0);
}
