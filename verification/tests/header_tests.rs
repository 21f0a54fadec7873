use warc::header::{FieldNames, Header, RecordID, RecordTypes};

#[test]
fn test_from_string_downcases_input() {
    assert!(FieldNames::from_string("warc-record-id") == FieldNames::RecordID);
    assert!(FieldNames::from_string("WARC-record-id") == FieldNames::RecordID);
    assert!(FieldNames::from_string("WARC-Record-Id") == FieldNames::RecordID);
    assert!(
        FieldNames::from_string("custom-field-name")
            == FieldNames::Custom("custom-field-name".to_string())
    );
}

#[test]
fn test_to_string() {
    assert!(FieldNames::RecordID.to_string() == "WARC-Record-ID".to_string());
}

#[test]
fn case_insensitive_variants_normalize_alike() {
    assert!(FieldNames::from_string("CONTENT-LENGTH") == FieldNames::ContentLength);
    assert!(FieldNames::from_string("Content-length") == FieldNames::ContentLength);
    assert!(FieldNames::from_string("content-length") == FieldNames::ContentLength);
    assert!(FieldNames::from_string("WARC-TARGET-URI") == FieldNames::TargetURI);
    assert!(FieldNames::from_string("Warc-Target-Uri") == FieldNames::TargetURI);
}

#[test]
fn canonical_text_round_trips() {
    let canonicals = vec![
        "WARC-Record-ID",
        "Content-Length",
        "WARC-Date",
        "WARC-Type",
        "Content-Type",
        "WARC-Concurrent-To",
        "WARC-Block-Digest",
        "WARC-Payload-Digest",
        "WARC-IP-Address",
        "WARC-Refers-To",
        "WARC-Refers-To-Target-URI",
        "WARC-Refers-To-Date",
        "WARC-Target-URI",
        "WARC-Truncated",
        "WARC-Warcinfo-ID",
        "WARC-Filename",
        "WARC-Profile",
        "WARC-Identified-Payload-Type",
        "WARC-Segment-Number",
        "WARC-Segment-Origin-ID",
        "WARC-Segment-Total-Length",
    ];
    for c in canonicals {
        assert_eq!(FieldNames::from_string(c).to_string(), c.to_string());
    }
}

#[test]
fn custom_names_keep_only_lowercased_text() {
    let f = FieldNames::from_string("X-Custom-Header");
    assert!(f == FieldNames::Custom("x-custom-header".to_string()));
    assert_eq!(f.to_string(), "x-custom-header".to_string());
}

#[test]
fn header_insert_last_value_wins() {
    let mut h = Header::new();
    h.insert(FieldNames::ContentLength, "4".to_string());
    h.insert(FieldNames::Type, "resource".to_string());
    h.insert(FieldNames::ContentLength, "8".to_string());
    assert_eq!(h.len(), 2);
    assert_eq!(h.get(&FieldNames::ContentLength), Some(&"8".to_string()));
    assert_eq!(h.get(&FieldNames::Type), Some(&"resource".to_string()));
    assert_eq!(h.get(&FieldNames::Date), None);
}

#[test]
fn record_types_round_trip() {
    assert_eq!(RecordTypes::WarcInfo.to_string(), "warcinfo".to_string());
    assert!(RecordTypes::from_string("warcinfo") == Ok(RecordTypes::WarcInfo));
    assert!(RecordTypes::from_string("request") == Ok(RecordTypes::Request));
    assert!(RecordTypes::from_string("conversion") == Ok(RecordTypes::Conversion));
    match RecordTypes::from_string("bogus") {
        Ok(_) => panic!("expected an error"),
        Err(m) => assert_eq!(m, "no record type matches: bogus"),
    }
}

#[test]
fn record_id_renders_bracketed_urn() {
    let id = RecordID::new();
    let s = id.to_string();
    assert_eq!(s.chars().count(), 47);
    assert!(s.starts_with('<'));
    assert!(s.ends_with('>'));
}
