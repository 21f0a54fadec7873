//! WARC header field names and the header block model.
//!
//! A field name is either one of the well-known WARC names or a custom
//! name.  Raw names are matched case-insensitively; rendering a well-known
//! name reproduces the WARC-spec capitalization.

use vstd::prelude::*;
use vstd::string::*;

verus! {

/// Spec-level identity of a header field name: well-known names are
/// distinguished constructors, any other name is the custom text itself
/// (as it is stored, i.e. already lowercased by normalization).
pub enum FieldKey {
    RecordID,
    ContentLength,
    Date,
    Type,
    ContentType,
    ConcurrentTo,
    BlockDigest,
    PayloadDigest,
    IPAddress,
    RefersTo,
    RefersToTargetURI,
    RefersToDate,
    TargetURI,
    Truncated,
    WarcinfoID,
    FileName,
    Profile,
    IdentifiedPayloadType,
    SegmentNumber,
    SegmentOriginID,
    SegmentTotalLength,
    Custom(Seq<char>),
}

/// ASCII lowercasing of one character; all other characters are unchanged.
pub open spec fn lower_char(c: char) -> char {
    if 'A' <= c && c <= 'Z' {
        ((c as u32) + 32) as char
    } else {
        c
    }
}

/// ASCII lowercasing of a character sequence.
pub open spec fn lower_chars(s: Seq<char>) -> Seq<char> {
    Seq::new(s.len(), |i: int| lower_char(s[i]))
}

/// Two raw names are case-insensitive variants of each other: equal length,
/// and at each position the characters agree up to ASCII case.
pub open spec fn case_variant(s: Seq<char>, t: Seq<char>) -> bool {
    &&& s.len() == t.len()
    &&& forall|i: int| 0 <= i < s.len() ==> lower_char(s[i]) == lower_char(t[i])
}

/// Matches an already-lowercased name against the table of well-known
/// names; anything else is a custom name holding that text.
pub open spec fn field_key_of(s: Seq<char>) -> FieldKey {
    if s == "warc-record-id"@ {
        FieldKey::RecordID
    } else if s == "content-length"@ {
        FieldKey::ContentLength
    } else if s == "warc-date"@ {
        FieldKey::Date
    } else if s == "warc-type"@ {
        FieldKey::Type
    } else if s == "content-type"@ {
        FieldKey::ContentType
    } else if s == "warc-concurrent-to"@ {
        FieldKey::ConcurrentTo
    } else if s == "warc-block-digest"@ {
        FieldKey::BlockDigest
    } else if s == "warc-payload-digest"@ {
        FieldKey::PayloadDigest
    } else if s == "warc-ip-address"@ {
        FieldKey::IPAddress
    } else if s == "warc-refers-to"@ {
        FieldKey::RefersTo
    } else if s == "warc-refers-to-target-uri"@ {
        FieldKey::RefersToTargetURI
    } else if s == "warc-refers-to-date"@ {
        FieldKey::RefersToDate
    } else if s == "warc-target-uri"@ {
        FieldKey::TargetURI
    } else if s == "warc-truncated"@ {
        FieldKey::Truncated
    } else if s == "warc-warcinfo-id"@ {
        FieldKey::WarcinfoID
    } else if s == "warc-filename"@ {
        FieldKey::FileName
    } else if s == "warc-profile"@ {
        FieldKey::Profile
    } else if s == "warc-identified-payload-type"@ {
        FieldKey::IdentifiedPayloadType
    } else if s == "warc-segment-number"@ {
        FieldKey::SegmentNumber
    } else if s == "warc-segment-origin-id"@ {
        FieldKey::SegmentOriginID
    } else if s == "warc-segment-total-length"@ {
        FieldKey::SegmentTotalLength
    } else {
        FieldKey::Custom(s)
    }
}

/// Normalization of a raw field name: lowercase, then table lookup.
pub open spec fn normalize_key(s: Seq<char>) -> FieldKey {
    field_key_of(lower_chars(s))
}

/// The canonical display form of a field name: the WARC-spec
/// capitalization for well-known names, the stored text for custom names.
pub open spec fn canonical_chars(k: FieldKey) -> Seq<char> {
    match k {
        FieldKey::RecordID => "WARC-Record-ID"@,
        FieldKey::ContentLength => "Content-Length"@,
        FieldKey::Date => "WARC-Date"@,
        FieldKey::Type => "WARC-Type"@,
        FieldKey::ContentType => "Content-Type"@,
        FieldKey::ConcurrentTo => "WARC-Concurrent-To"@,
        FieldKey::BlockDigest => "WARC-Block-Digest"@,
        FieldKey::PayloadDigest => "WARC-Payload-Digest"@,
        FieldKey::IPAddress => "WARC-IP-Address"@,
        FieldKey::RefersTo => "WARC-Refers-To"@,
        FieldKey::RefersToTargetURI => "WARC-Refers-To-Target-URI"@,
        FieldKey::RefersToDate => "WARC-Refers-To-Date"@,
        FieldKey::TargetURI => "WARC-Target-URI"@,
        FieldKey::Truncated => "WARC-Truncated"@,
        FieldKey::WarcinfoID => "WARC-Warcinfo-ID"@,
        FieldKey::FileName => "WARC-Filename"@,
        FieldKey::Profile => "WARC-Profile"@,
        FieldKey::IdentifiedPayloadType => "WARC-Identified-Payload-Type"@,
        FieldKey::SegmentNumber => "WARC-Segment-Number"@,
        FieldKey::SegmentOriginID => "WARC-Segment-Origin-ID"@,
        FieldKey::SegmentTotalLength => "WARC-Segment-Total-Length"@,
        FieldKey::Custom(s) => s,
    }
}

/// A WARC header field name.
///
/// The common names all have their own variant; any other name is carried
/// by `Custom`.
#[derive(Eq, Hash, PartialEq, Clone, Debug)]
pub enum FieldNames {
    RecordID,
    ContentLength,
    Date,
    Type,
    ContentType,
    ConcurrentTo,
    BlockDigest,
    PayloadDigest,
    IPAddress,
    RefersTo,
    RefersToTargetURI,
    RefersToDate,
    TargetURI,
    Truncated,
    WarcinfoID,
    FileName,
    Profile,
    IdentifiedPayloadType,
    SegmentNumber,
    SegmentOriginID,
    SegmentTotalLength,
    Custom(String),
}

impl View for FieldNames {
    type V = FieldKey;

    open spec fn view(&self) -> FieldKey {
        match self {
            FieldNames::RecordID => FieldKey::RecordID,
            FieldNames::ContentLength => FieldKey::ContentLength,
            FieldNames::Date => FieldKey::Date,
            FieldNames::Type => FieldKey::Type,
            FieldNames::ContentType => FieldKey::ContentType,
            FieldNames::ConcurrentTo => FieldKey::ConcurrentTo,
            FieldNames::BlockDigest => FieldKey::BlockDigest,
            FieldNames::PayloadDigest => FieldKey::PayloadDigest,
            FieldNames::IPAddress => FieldKey::IPAddress,
            FieldNames::RefersTo => FieldKey::RefersTo,
            FieldNames::RefersToTargetURI => FieldKey::RefersToTargetURI,
            FieldNames::RefersToDate => FieldKey::RefersToDate,
            FieldNames::TargetURI => FieldKey::TargetURI,
            FieldNames::Truncated => FieldKey::Truncated,
            FieldNames::WarcinfoID => FieldKey::WarcinfoID,
            FieldNames::FileName => FieldKey::FileName,
            FieldNames::Profile => FieldKey::Profile,
            FieldNames::IdentifiedPayloadType => FieldKey::IdentifiedPayloadType,
            FieldNames::SegmentNumber => FieldKey::SegmentNumber,
            FieldNames::SegmentOriginID => FieldKey::SegmentOriginID,
            FieldNames::SegmentTotalLength => FieldKey::SegmentTotalLength,
            FieldNames::Custom(s) => FieldKey::Custom(s@),
        }
    }
}

/// Relies on `str::to_ascii_lowercase`: every ASCII uppercase character is
/// replaced by its lowercase counterpart; all other characters are
/// unchanged.
#[verifier::external_body]
fn ascii_lower(s: &str) -> (r: String)
    ensures
        r@ == lower_chars(s@),
{
    s.to_ascii_lowercase()
}

impl FieldNames {
    /// Matches a raw name, case-insensitively, against the table of
    /// well-known names; any other name becomes `Custom`, holding the
    /// lowercased input.
    pub fn from_string(s: &str) -> (r: FieldNames)
        ensures
            r@ == normalize_key(s@),
    {
        let low = ascii_lower(s);

        if low == String::from_str("warc-record-id") {
            FieldNames::RecordID
        } else if low == String::from_str("content-length") {
            FieldNames::ContentLength
        } else if low == String::from_str("warc-date") {
            FieldNames::Date
        } else if low == String::from_str("warc-type") {
            FieldNames::Type
        } else if low == String::from_str("content-type") {
            FieldNames::ContentType
        } else if low == String::from_str("warc-concurrent-to") {
            FieldNames::ConcurrentTo
        } else if low == String::from_str("warc-block-digest") {
            FieldNames::BlockDigest
        } else if low == String::from_str("warc-payload-digest") {
            FieldNames::PayloadDigest
        } else if low == String::from_str("warc-ip-address") {
            FieldNames::IPAddress
        } else if low == String::from_str("warc-refers-to") {
            FieldNames::RefersTo
        } else if low == String::from_str("warc-refers-to-target-uri") {
            FieldNames::RefersToTargetURI
        } else if low == String::from_str("warc-refers-to-date") {
            FieldNames::RefersToDate
        } else if low == String::from_str("warc-target-uri") {
            FieldNames::TargetURI
        } else if low == String::from_str("warc-truncated") {
            FieldNames::Truncated
        } else if low == String::from_str("warc-warcinfo-id") {
            FieldNames::WarcinfoID
        } else if low == String::from_str("warc-filename") {
            FieldNames::FileName
        } else if low == String::from_str("warc-profile") {
            FieldNames::Profile
        } else if low == String::from_str("warc-identified-payload-type") {
            FieldNames::IdentifiedPayloadType
        } else if low == String::from_str("warc-segment-number") {
            FieldNames::SegmentNumber
        } else if low == String::from_str("warc-segment-origin-id") {
            FieldNames::SegmentOriginID
        } else if low == String::from_str("warc-segment-total-length") {
            FieldNames::SegmentTotalLength
        } else {
            FieldNames::Custom(low)
        }
    }

    /// Renders the canonical display form of this field name.
    pub fn to_string(&self) -> (r: String)
        ensures
            r@ == canonical_chars(self@),
    {
        match self {
            FieldNames::RecordID => String::from_str("WARC-Record-ID"),
            FieldNames::ContentLength => String::from_str("Content-Length"),
            FieldNames::Date => String::from_str("WARC-Date"),
            FieldNames::Type => String::from_str("WARC-Type"),
            FieldNames::ContentType => String::from_str("Content-Type"),
            FieldNames::ConcurrentTo => String::from_str("WARC-Concurrent-To"),
            FieldNames::BlockDigest => String::from_str("WARC-Block-Digest"),
            FieldNames::PayloadDigest => String::from_str("WARC-Payload-Digest"),
            FieldNames::IPAddress => String::from_str("WARC-IP-Address"),
            FieldNames::RefersTo => String::from_str("WARC-Refers-To"),
            FieldNames::RefersToTargetURI => String::from_str("WARC-Refers-To-Target-URI"),
            FieldNames::RefersToDate => String::from_str("WARC-Refers-To-Date"),
            FieldNames::TargetURI => String::from_str("WARC-Target-URI"),
            FieldNames::Truncated => String::from_str("WARC-Truncated"),
            FieldNames::WarcinfoID => String::from_str("WARC-Warcinfo-ID"),
            FieldNames::FileName => String::from_str("WARC-Filename"),
            FieldNames::Profile => String::from_str("WARC-Profile"),
            FieldNames::IdentifiedPayloadType => String::from_str("WARC-Identified-Payload-Type"),
            FieldNames::SegmentNumber => String::from_str("WARC-Segment-Number"),
            FieldNames::SegmentOriginID => String::from_str("WARC-Segment-Origin-ID"),
            FieldNames::SegmentTotalLength => String::from_str("WARC-Segment-Total-Length"),
            FieldNames::Custom(s) => s.clone(),
        }
    }

    /// Decides whether two field names are the same name, i.e. whether
    /// they denote the same header map key.
    pub fn same_name(&self, other: &FieldNames) -> (r: bool)
        ensures
            r == (self@ == other@),
    {
        match (self, other) {
            (FieldNames::RecordID, FieldNames::RecordID) => true,
            (FieldNames::ContentLength, FieldNames::ContentLength) => true,
            (FieldNames::Date, FieldNames::Date) => true,
            (FieldNames::Type, FieldNames::Type) => true,
            (FieldNames::ContentType, FieldNames::ContentType) => true,
            (FieldNames::ConcurrentTo, FieldNames::ConcurrentTo) => true,
            (FieldNames::BlockDigest, FieldNames::BlockDigest) => true,
            (FieldNames::PayloadDigest, FieldNames::PayloadDigest) => true,
            (FieldNames::IPAddress, FieldNames::IPAddress) => true,
            (FieldNames::RefersTo, FieldNames::RefersTo) => true,
            (FieldNames::RefersToTargetURI, FieldNames::RefersToTargetURI) => true,
            (FieldNames::RefersToDate, FieldNames::RefersToDate) => true,
            (FieldNames::TargetURI, FieldNames::TargetURI) => true,
            (FieldNames::Truncated, FieldNames::Truncated) => true,
            (FieldNames::WarcinfoID, FieldNames::WarcinfoID) => true,
            (FieldNames::FileName, FieldNames::FileName) => true,
            (FieldNames::Profile, FieldNames::Profile) => true,
            (FieldNames::IdentifiedPayloadType, FieldNames::IdentifiedPayloadType) => true,
            (FieldNames::SegmentNumber, FieldNames::SegmentNumber) => true,
            (FieldNames::SegmentOriginID, FieldNames::SegmentOriginID) => true,
            (FieldNames::SegmentTotalLength, FieldNames::SegmentTotalLength) => true,
            (FieldNames::Custom(a), FieldNames::Custom(b)) => a.eq(b),
            _ => false,
        }
    }
}

/// Case-insensitive variants of a raw name normalize to the same field
/// name.
pub proof fn lemma_normalize_case_insensitive(s: Seq<char>, t: Seq<char>)
    requires
        case_variant(s, t),
    ensures
        normalize_key(s) == normalize_key(t),
{
    assert(lower_chars(s) =~= lower_chars(t));
}

/// Every well-known field name round-trips: normalizing its canonical
/// text yields the name back, and rendering the normalized name
/// reproduces the canonical text.
pub proof fn lemma_canonical_round_trip(k: FieldKey)
    requires
        !(k is Custom),
    ensures
        normalize_key(canonical_chars(k)) == k,
        canonical_chars(normalize_key(canonical_chars(k))) == canonical_chars(k),
{
    match k {
        FieldKey::RecordID => {
            reveal_strlit("WARC-Record-ID");
            reveal_strlit("warc-record-id");
            assert(lower_chars("WARC-Record-ID"@) =~= "warc-record-id"@);
            assert(canonical_chars(k) == "WARC-Record-ID"@);
            assert(field_key_of("warc-record-id"@) == FieldKey::RecordID);
            assert(normalize_key(canonical_chars(k)) == field_key_of("warc-record-id"@));
        },
        FieldKey::ContentLength => {
            reveal_strlit("Content-Length");
            reveal_strlit("warc-record-id");
            reveal_strlit("content-length");
            assert(lower_chars("Content-Length"@) =~= "content-length"@);
            assert("content-length"@[0] == 'c');
            assert("warc-record-id"@[0] == 'w');
            assert(canonical_chars(k) == "Content-Length"@);
            assert(field_key_of("content-length"@) == FieldKey::ContentLength);
            assert(normalize_key(canonical_chars(k)) == field_key_of("content-length"@));
        },
        FieldKey::Date => {
            reveal_strlit("WARC-Date");
            reveal_strlit("warc-record-id");
            reveal_strlit("content-length");
            reveal_strlit("warc-date");
            assert(lower_chars("WARC-Date"@) =~= "warc-date"@);
            assert(canonical_chars(k) == "WARC-Date"@);
            assert(field_key_of("warc-date"@) == FieldKey::Date);
            assert(normalize_key(canonical_chars(k)) == field_key_of("warc-date"@));
        },
        FieldKey::Type => {
            reveal_strlit("WARC-Type");
            reveal_strlit("warc-record-id");
            reveal_strlit("content-length");
            reveal_strlit("warc-date");
            reveal_strlit("warc-type");
            assert(lower_chars("WARC-Type"@) =~= "warc-type"@);
            assert("warc-type"@[5] == 't');
            assert("warc-date"@[5] == 'd');
            assert(canonical_chars(k) == "WARC-Type"@);
            assert(field_key_of("warc-type"@) == FieldKey::Type);
            assert(normalize_key(canonical_chars(k)) == field_key_of("warc-type"@));
        },
        FieldKey::ContentType => {
            reveal_strlit("Content-Type");
            reveal_strlit("warc-record-id");
            reveal_strlit("content-length");
            reveal_strlit("warc-date");
            reveal_strlit("warc-type");
            reveal_strlit("content-type");
            assert(lower_chars("Content-Type"@) =~= "content-type"@);
            assert(canonical_chars(k) == "Content-Type"@);
            assert(field_key_of("content-type"@) == FieldKey::ContentType);
            assert(normalize_key(canonical_chars(k)) == field_key_of("content-type"@));
        },
        FieldKey::ConcurrentTo => {
            reveal_strlit("WARC-Concurrent-To");
            reveal_strlit("warc-record-id");
            reveal_strlit("content-length");
            reveal_strlit("warc-date");
            reveal_strlit("warc-type");
            reveal_strlit("content-type");
            reveal_strlit("warc-concurrent-to");
            assert(lower_chars("WARC-Concurrent-To"@) =~= "warc-concurrent-to"@);
            assert(canonical_chars(k) == "WARC-Concurrent-To"@);
            assert(field_key_of("warc-concurrent-to"@) == FieldKey::ConcurrentTo);
            assert(normalize_key(canonical_chars(k)) == field_key_of("warc-concurrent-to"@));
        },
        FieldKey::BlockDigest => {
            reveal_strlit("WARC-Block-Digest");
            reveal_strlit("warc-record-id");
            reveal_strlit("content-length");
            reveal_strlit("warc-date");
            reveal_strlit("warc-type");
            reveal_strlit("content-type");
            reveal_strlit("warc-concurrent-to");
            reveal_strlit("warc-block-digest");
            assert(lower_chars("WARC-Block-Digest"@) =~= "warc-block-digest"@);
            assert(canonical_chars(k) == "WARC-Block-Digest"@);
            assert(field_key_of("warc-block-digest"@) == FieldKey::BlockDigest);
            assert(normalize_key(canonical_chars(k)) == field_key_of("warc-block-digest"@));
        },
        FieldKey::PayloadDigest => {
            reveal_strlit("WARC-Payload-Digest");
            reveal_strlit("warc-record-id");
            reveal_strlit("content-length");
            reveal_strlit("warc-date");
            reveal_strlit("warc-type");
            reveal_strlit("content-type");
            reveal_strlit("warc-concurrent-to");
            reveal_strlit("warc-block-digest");
            reveal_strlit("warc-payload-digest");
            assert(lower_chars("WARC-Payload-Digest"@) =~= "warc-payload-digest"@);
            assert(canonical_chars(k) == "WARC-Payload-Digest"@);
            assert(field_key_of("warc-payload-digest"@) == FieldKey::PayloadDigest);
            assert(normalize_key(canonical_chars(k)) == field_key_of("warc-payload-digest"@));
        },
        FieldKey::IPAddress => {
            reveal_strlit("WARC-IP-Address");
            reveal_strlit("warc-record-id");
            reveal_strlit("content-length");
            reveal_strlit("warc-date");
            reveal_strlit("warc-type");
            reveal_strlit("content-type");
            reveal_strlit("warc-concurrent-to");
            reveal_strlit("warc-block-digest");
            reveal_strlit("warc-payload-digest");
            reveal_strlit("warc-ip-address");
            assert(lower_chars("WARC-IP-Address"@) =~= "warc-ip-address"@);
            assert(canonical_chars(k) == "WARC-IP-Address"@);
            assert(field_key_of("warc-ip-address"@) == FieldKey::IPAddress);
            assert(normalize_key(canonical_chars(k)) == field_key_of("warc-ip-address"@));
        },
        FieldKey::RefersTo => {
            reveal_strlit("WARC-Refers-To");
            reveal_strlit("warc-record-id");
            reveal_strlit("content-length");
            reveal_strlit("warc-date");
            reveal_strlit("warc-type");
            reveal_strlit("content-type");
            reveal_strlit("warc-concurrent-to");
            reveal_strlit("warc-block-digest");
            reveal_strlit("warc-payload-digest");
            reveal_strlit("warc-ip-address");
            reveal_strlit("warc-refers-to");
            assert(lower_chars("WARC-Refers-To"@) =~= "warc-refers-to"@);
            assert("warc-refers-to"@[7] == 'f');
            assert("warc-record-id"@[7] == 'c');
            assert("warc-refers-to"@[0] == 'w');
            assert("content-length"@[0] == 'c');
            assert(canonical_chars(k) == "WARC-Refers-To"@);
            assert(field_key_of("warc-refers-to"@) == FieldKey::RefersTo);
            assert(normalize_key(canonical_chars(k)) == field_key_of("warc-refers-to"@));
        },
        FieldKey::RefersToTargetURI => {
            reveal_strlit("WARC-Refers-To-Target-URI");
            reveal_strlit("warc-record-id");
            reveal_strlit("content-length");
            reveal_strlit("warc-date");
            reveal_strlit("warc-type");
            reveal_strlit("content-type");
            reveal_strlit("warc-concurrent-to");
            reveal_strlit("warc-block-digest");
            reveal_strlit("warc-payload-digest");
            reveal_strlit("warc-ip-address");
            reveal_strlit("warc-refers-to");
            reveal_strlit("warc-refers-to-target-uri");
            assert(lower_chars("WARC-Refers-To-Target-URI"@) =~= "warc-refers-to-target-uri"@);
            assert(canonical_chars(k) == "WARC-Refers-To-Target-URI"@);
            assert(field_key_of("warc-refers-to-target-uri"@) == FieldKey::RefersToTargetURI);
            assert(normalize_key(canonical_chars(k)) == field_key_of("warc-refers-to-target-uri"@));
        },
        FieldKey::RefersToDate => {
            reveal_strlit("WARC-Refers-To-Date");
            reveal_strlit("warc-record-id");
            reveal_strlit("content-length");
            reveal_strlit("warc-date");
            reveal_strlit("warc-type");
            reveal_strlit("content-type");
            reveal_strlit("warc-concurrent-to");
            reveal_strlit("warc-block-digest");
            reveal_strlit("warc-payload-digest");
            reveal_strlit("warc-ip-address");
            reveal_strlit("warc-refers-to");
            reveal_strlit("warc-refers-to-target-uri");
            reveal_strlit("warc-refers-to-date");
            assert(lower_chars("WARC-Refers-To-Date"@) =~= "warc-refers-to-date"@);
            assert("warc-refers-to-date"@[5] == 'r');
            assert("warc-payload-digest"@[5] == 'p');
            assert(canonical_chars(k) == "WARC-Refers-To-Date"@);
            assert(field_key_of("warc-refers-to-date"@) == FieldKey::RefersToDate);
            assert(normalize_key(canonical_chars(k)) == field_key_of("warc-refers-to-date"@));
        },
        FieldKey::TargetURI => {
            reveal_strlit("WARC-Target-URI");
            reveal_strlit("warc-record-id");
            reveal_strlit("content-length");
            reveal_strlit("warc-date");
            reveal_strlit("warc-type");
            reveal_strlit("content-type");
            reveal_strlit("warc-concurrent-to");
            reveal_strlit("warc-block-digest");
            reveal_strlit("warc-payload-digest");
            reveal_strlit("warc-ip-address");
            reveal_strlit("warc-refers-to");
            reveal_strlit("warc-refers-to-target-uri");
            reveal_strlit("warc-refers-to-date");
            reveal_strlit("warc-target-uri");
            assert(lower_chars("WARC-Target-URI"@) =~= "warc-target-uri"@);
            assert("warc-target-uri"@[5] == 't');
            assert("warc-ip-address"@[5] == 'i');
            assert(canonical_chars(k) == "WARC-Target-URI"@);
            assert(field_key_of("warc-target-uri"@) == FieldKey::TargetURI);
            assert(normalize_key(canonical_chars(k)) == field_key_of("warc-target-uri"@));
        },
        FieldKey::Truncated => {
            reveal_strlit("WARC-Truncated");
            reveal_strlit("warc-record-id");
            reveal_strlit("content-length");
            reveal_strlit("warc-date");
            reveal_strlit("warc-type");
            reveal_strlit("content-type");
            reveal_strlit("warc-concurrent-to");
            reveal_strlit("warc-block-digest");
            reveal_strlit("warc-payload-digest");
            reveal_strlit("warc-ip-address");
            reveal_strlit("warc-refers-to");
            reveal_strlit("warc-refers-to-target-uri");
            reveal_strlit("warc-refers-to-date");
            reveal_strlit("warc-target-uri");
            reveal_strlit("warc-truncated");
            assert(lower_chars("WARC-Truncated"@) =~= "warc-truncated"@);
            assert("warc-truncated"@[5] == 't');
            assert("warc-record-id"@[5] == 'r');
            assert("warc-truncated"@[0] == 'w');
            assert("content-length"@[0] == 'c');
            assert("warc-truncated"@[5] == 't');
            assert("warc-refers-to"@[5] == 'r');
            assert(canonical_chars(k) == "WARC-Truncated"@);
            assert(field_key_of("warc-truncated"@) == FieldKey::Truncated);
            assert(normalize_key(canonical_chars(k)) == field_key_of("warc-truncated"@));
        },
        FieldKey::WarcinfoID => {
            reveal_strlit("WARC-Warcinfo-ID");
            reveal_strlit("warc-record-id");
            reveal_strlit("content-length");
            reveal_strlit("warc-date");
            reveal_strlit("warc-type");
            reveal_strlit("content-type");
            reveal_strlit("warc-concurrent-to");
            reveal_strlit("warc-block-digest");
            reveal_strlit("warc-payload-digest");
            reveal_strlit("warc-ip-address");
            reveal_strlit("warc-refers-to");
            reveal_strlit("warc-refers-to-target-uri");
            reveal_strlit("warc-refers-to-date");
            reveal_strlit("warc-target-uri");
            reveal_strlit("warc-truncated");
            reveal_strlit("warc-warcinfo-id");
            assert(lower_chars("WARC-Warcinfo-ID"@) =~= "warc-warcinfo-id"@);
            assert(canonical_chars(k) == "WARC-Warcinfo-ID"@);
            assert(field_key_of("warc-warcinfo-id"@) == FieldKey::WarcinfoID);
            assert(normalize_key(canonical_chars(k)) == field_key_of("warc-warcinfo-id"@));
        },
        FieldKey::FileName => {
            reveal_strlit("WARC-Filename");
            reveal_strlit("warc-record-id");
            reveal_strlit("content-length");
            reveal_strlit("warc-date");
            reveal_strlit("warc-type");
            reveal_strlit("content-type");
            reveal_strlit("warc-concurrent-to");
            reveal_strlit("warc-block-digest");
            reveal_strlit("warc-payload-digest");
            reveal_strlit("warc-ip-address");
            reveal_strlit("warc-refers-to");
            reveal_strlit("warc-refers-to-target-uri");
            reveal_strlit("warc-refers-to-date");
            reveal_strlit("warc-target-uri");
            reveal_strlit("warc-truncated");
            reveal_strlit("warc-warcinfo-id");
            reveal_strlit("warc-filename");
            assert(lower_chars("WARC-Filename"@) =~= "warc-filename"@);
            assert(canonical_chars(k) == "WARC-Filename"@);
            assert(field_key_of("warc-filename"@) == FieldKey::FileName);
            assert(normalize_key(canonical_chars(k)) == field_key_of("warc-filename"@));
        },
        FieldKey::Profile => {
            reveal_strlit("WARC-Profile");
            reveal_strlit("warc-record-id");
            reveal_strlit("content-length");
            reveal_strlit("warc-date");
            reveal_strlit("warc-type");
            reveal_strlit("content-type");
            reveal_strlit("warc-concurrent-to");
            reveal_strlit("warc-block-digest");
            reveal_strlit("warc-payload-digest");
            reveal_strlit("warc-ip-address");
            reveal_strlit("warc-refers-to");
            reveal_strlit("warc-refers-to-target-uri");
            reveal_strlit("warc-refers-to-date");
            reveal_strlit("warc-target-uri");
            reveal_strlit("warc-truncated");
            reveal_strlit("warc-warcinfo-id");
            reveal_strlit("warc-filename");
            reveal_strlit("warc-profile");
            assert(lower_chars("WARC-Profile"@) =~= "warc-profile"@);
            assert("warc-profile"@[0] == 'w');
            assert("content-type"@[0] == 'c');
            assert(canonical_chars(k) == "WARC-Profile"@);
            assert(field_key_of("warc-profile"@) == FieldKey::Profile);
            assert(normalize_key(canonical_chars(k)) == field_key_of("warc-profile"@));
        },
        FieldKey::IdentifiedPayloadType => {
            reveal_strlit("WARC-Identified-Payload-Type");
            reveal_strlit("warc-record-id");
            reveal_strlit("content-length");
            reveal_strlit("warc-date");
            reveal_strlit("warc-type");
            reveal_strlit("content-type");
            reveal_strlit("warc-concurrent-to");
            reveal_strlit("warc-block-digest");
            reveal_strlit("warc-payload-digest");
            reveal_strlit("warc-ip-address");
            reveal_strlit("warc-refers-to");
            reveal_strlit("warc-refers-to-target-uri");
            reveal_strlit("warc-refers-to-date");
            reveal_strlit("warc-target-uri");
            reveal_strlit("warc-truncated");
            reveal_strlit("warc-warcinfo-id");
            reveal_strlit("warc-filename");
            reveal_strlit("warc-profile");
            reveal_strlit("warc-identified-payload-type");
            assert(lower_chars("WARC-Identified-Payload-Type"@) =~= "warc-identified-payload-type"@);
            assert(canonical_chars(k) == "WARC-Identified-Payload-Type"@);
            assert(field_key_of("warc-identified-payload-type"@) == FieldKey::IdentifiedPayloadType);
            assert(normalize_key(canonical_chars(k)) == field_key_of("warc-identified-payload-type"@));
        },
        FieldKey::SegmentNumber => {
            reveal_strlit("WARC-Segment-Number");
            reveal_strlit("warc-record-id");
            reveal_strlit("content-length");
            reveal_strlit("warc-date");
            reveal_strlit("warc-type");
            reveal_strlit("content-type");
            reveal_strlit("warc-concurrent-to");
            reveal_strlit("warc-block-digest");
            reveal_strlit("warc-payload-digest");
            reveal_strlit("warc-ip-address");
            reveal_strlit("warc-refers-to");
            reveal_strlit("warc-refers-to-target-uri");
            reveal_strlit("warc-refers-to-date");
            reveal_strlit("warc-target-uri");
            reveal_strlit("warc-truncated");
            reveal_strlit("warc-warcinfo-id");
            reveal_strlit("warc-filename");
            reveal_strlit("warc-profile");
            reveal_strlit("warc-identified-payload-type");
            reveal_strlit("warc-segment-number");
            assert(lower_chars("WARC-Segment-Number"@) =~= "warc-segment-number"@);
            assert("warc-segment-number"@[5] == 's');
            assert("warc-payload-digest"@[5] == 'p');
            assert("warc-segment-number"@[5] == 's');
            assert("warc-refers-to-date"@[5] == 'r');
            assert(canonical_chars(k) == "WARC-Segment-Number"@);
            assert(field_key_of("warc-segment-number"@) == FieldKey::SegmentNumber);
            assert(normalize_key(canonical_chars(k)) == field_key_of("warc-segment-number"@));
        },
        FieldKey::SegmentOriginID => {
            reveal_strlit("WARC-Segment-Origin-ID");
            reveal_strlit("warc-record-id");
            reveal_strlit("content-length");
            reveal_strlit("warc-date");
            reveal_strlit("warc-type");
            reveal_strlit("content-type");
            reveal_strlit("warc-concurrent-to");
            reveal_strlit("warc-block-digest");
            reveal_strlit("warc-payload-digest");
            reveal_strlit("warc-ip-address");
            reveal_strlit("warc-refers-to");
            reveal_strlit("warc-refers-to-target-uri");
            reveal_strlit("warc-refers-to-date");
            reveal_strlit("warc-target-uri");
            reveal_strlit("warc-truncated");
            reveal_strlit("warc-warcinfo-id");
            reveal_strlit("warc-filename");
            reveal_strlit("warc-profile");
            reveal_strlit("warc-identified-payload-type");
            reveal_strlit("warc-segment-number");
            reveal_strlit("warc-segment-origin-id");
            assert(lower_chars("WARC-Segment-Origin-ID"@) =~= "warc-segment-origin-id"@);
            assert(canonical_chars(k) == "WARC-Segment-Origin-ID"@);
            assert(field_key_of("warc-segment-origin-id"@) == FieldKey::SegmentOriginID);
            assert(normalize_key(canonical_chars(k)) == field_key_of("warc-segment-origin-id"@));
        },
        FieldKey::SegmentTotalLength => {
            reveal_strlit("WARC-Segment-Total-Length");
            reveal_strlit("warc-record-id");
            reveal_strlit("content-length");
            reveal_strlit("warc-date");
            reveal_strlit("warc-type");
            reveal_strlit("content-type");
            reveal_strlit("warc-concurrent-to");
            reveal_strlit("warc-block-digest");
            reveal_strlit("warc-payload-digest");
            reveal_strlit("warc-ip-address");
            reveal_strlit("warc-refers-to");
            reveal_strlit("warc-refers-to-target-uri");
            reveal_strlit("warc-refers-to-date");
            reveal_strlit("warc-target-uri");
            reveal_strlit("warc-truncated");
            reveal_strlit("warc-warcinfo-id");
            reveal_strlit("warc-filename");
            reveal_strlit("warc-profile");
            reveal_strlit("warc-identified-payload-type");
            reveal_strlit("warc-segment-number");
            reveal_strlit("warc-segment-origin-id");
            reveal_strlit("warc-segment-total-length");
            assert(lower_chars("WARC-Segment-Total-Length"@) =~= "warc-segment-total-length"@);
            assert("warc-segment-total-length"@[5] == 's');
            assert("warc-refers-to-target-uri"@[5] == 'r');
            assert(canonical_chars(k) == "WARC-Segment-Total-Length"@);
            assert(field_key_of("warc-segment-total-length"@) == FieldKey::SegmentTotalLength);
            assert(normalize_key(canonical_chars(k)) == field_key_of("warc-segment-total-length"@));
        },
        FieldKey::Custom(_) => {
        },
    }
}

/// The record types defined by the WARC specification.
#[derive(PartialEq, Eq, Structural)]
pub enum RecordTypes {
    General,
    WarcInfo,
    Response,
    Resource,
    Request,
    Metadata,
    Revisit,
    Conversion,
    Continuation,
}

/// The display text of a record type.
pub open spec fn record_type_chars(t: RecordTypes) -> Seq<char> {
    match t {
        RecordTypes::General => "general"@,
        RecordTypes::WarcInfo => "warcinfo"@,
        RecordTypes::Response => "response"@,
        RecordTypes::Resource => "resource"@,
        RecordTypes::Request => "request"@,
        RecordTypes::Metadata => "metadata"@,
        RecordTypes::Revisit => "revisit"@,
        RecordTypes::Conversion => "conversion"@,
        RecordTypes::Continuation => "continuation"@,
    }
}

/// The record type whose display text is the given text, if any.
pub open spec fn record_type_of(s: Seq<char>) -> Option<RecordTypes> {
    if s == "general"@ {
        Some(RecordTypes::General)
    } else if s == "warcinfo"@ {
        Some(RecordTypes::WarcInfo)
    } else if s == "response"@ {
        Some(RecordTypes::Response)
    } else if s == "resource"@ {
        Some(RecordTypes::Resource)
    } else if s == "request"@ {
        Some(RecordTypes::Request)
    } else if s == "metadata"@ {
        Some(RecordTypes::Metadata)
    } else if s == "revisit"@ {
        Some(RecordTypes::Revisit)
    } else if s == "conversion"@ {
        Some(RecordTypes::Conversion)
    } else if s == "continuation"@ {
        Some(RecordTypes::Continuation)
    } else {
        None
    }
}

impl RecordTypes {
    /// Renders the display text of this record type.
    pub fn to_string(&self) -> (r: String)
        ensures
            r@ == record_type_chars(*self),
    {
        match self {
            RecordTypes::General => String::from_str("general"),
            RecordTypes::WarcInfo => String::from_str("warcinfo"),
            RecordTypes::Response => String::from_str("response"),
            RecordTypes::Resource => String::from_str("resource"),
            RecordTypes::Request => String::from_str("request"),
            RecordTypes::Metadata => String::from_str("metadata"),
            RecordTypes::Revisit => String::from_str("revisit"),
            RecordTypes::Conversion => String::from_str("conversion"),
            RecordTypes::Continuation => String::from_str("continuation"),
        }
    }

    /// Matches a display text against the record types; any other text is
    /// an error naming the offending text.
    pub fn from_string(s: &str) -> (r: Result<RecordTypes, String>)
        ensures
            match r {
                Ok(t) => record_type_of(s@) == Some(t),
                Err(m) => record_type_of(s@) is None && m@ == "no record type matches: "@ + s@,
            },
    {
        let o = s.to_owned();
        if o.eq(&String::from_str("general")) {
            Ok(RecordTypes::General)
        } else if o.eq(&String::from_str("warcinfo")) {
            Ok(RecordTypes::WarcInfo)
        } else if o.eq(&String::from_str("response")) {
            Ok(RecordTypes::Response)
        } else if o.eq(&String::from_str("resource")) {
            Ok(RecordTypes::Resource)
        } else if o.eq(&String::from_str("request")) {
            Ok(RecordTypes::Request)
        } else if o.eq(&String::from_str("metadata")) {
            Ok(RecordTypes::Metadata)
        } else if o.eq(&String::from_str("revisit")) {
            Ok(RecordTypes::Revisit)
        } else if o.eq(&String::from_str("conversion")) {
            Ok(RecordTypes::Conversion)
        } else if o.eq(&String::from_str("continuation")) {
            Ok(RecordTypes::Continuation)
        } else {
            let mut m = String::from_str("no record type matches: ");
            m.append(s);
            Err(m)
        }
    }
}

/// The header map built from a sequence of entries, later entries
/// overriding earlier ones with the same name.
pub open spec fn entries_map(es: Seq<(FieldNames, String)>) -> Map<FieldKey, Seq<char>>
    decreases es.len(),
{
    if es.len() == 0 {
        Map::empty()
    } else {
        entries_map(es.drop_last()).insert(es.last().0@, es.last().1@)
    }
}

/// No two entries of the sequence share a field name.
pub open spec fn distinct_names(es: Seq<(FieldNames, String)>) -> bool {
    forall|i: int, j: int| 0 <= i < j < es.len() ==> es[i].0@ != es[j].0@
}

proof fn lemma_entries_map_contains(es: Seq<(FieldNames, String)>, k: FieldKey)
    ensures
        entries_map(es).contains_key(k) <==> exists|i: int| 0 <= i < es.len() && es[i].0@ == k,
    decreases es.len(),
{
    if es.len() > 0 {
        lemma_entries_map_contains(es.drop_last(), k);
        assert(forall|i: int| 0 <= i < es.len() - 1 ==> es.drop_last()[i] == es[i]);
        if es.last().0@ == k {
            assert(es[es.len() - 1].0@ == k);
        } else {
            if exists|i: int| 0 <= i < es.len() && es[i].0@ == k {
                let i = choose|i: int| 0 <= i < es.len() && es[i].0@ == k;
                assert(i < es.len() - 1);
                assert(es.drop_last()[i].0@ == k);
            }
        }
    }
}

proof fn lemma_entries_map_at(es: Seq<(FieldNames, String)>, i: int)
    requires
        distinct_names(es),
        0 <= i < es.len(),
    ensures
        entries_map(es).contains_key(es[i].0@),
        entries_map(es)[es[i].0@] == es[i].1@,
    decreases es.len(),
{
    if i < es.len() - 1 {
        assert(es.last().0@ != es[i].0@);
        assert(forall|m: int| 0 <= m < es.len() - 1 ==> es.drop_last()[m] == es[m]);
        lemma_entries_map_at(es.drop_last(), i);
    }
}

proof fn lemma_entries_map_update(es: Seq<(FieldNames, String)>, i: int, e: (FieldNames, String))
    requires
        distinct_names(es),
        0 <= i < es.len(),
        e.0@ == es[i].0@,
    ensures
        entries_map(es.update(i, e)) =~= entries_map(es).insert(e.0@, e.1@),
    decreases es.len(),
{
    let es2 = es.update(i, e);
    if i == es.len() - 1 {
        assert(es2.drop_last() =~= es.drop_last());
        assert(es2.last() == e);
    } else {
        assert(es2.drop_last() =~= es.drop_last().update(i, e));
        assert(es2.last() == es.last());
        assert(forall|m: int| 0 <= m < es.len() - 1 ==> es.drop_last()[m] == es[m]);
        lemma_entries_map_update(es.drop_last(), i, e);
        assert(es.last().0@ != e.0@);
    }
}

/// A WARC header block: a mapping from field name to value.
///
/// Keys are unique; inserting for a name that is already present replaces
/// its value.  The order of the entries is kept but carries no meaning.
#[derive(Debug)]
pub struct Header {
    pub entries: Vec<(FieldNames, String)>,
}

impl View for Header {
    type V = Map<FieldKey, Seq<char>>;

    open spec fn view(&self) -> Map<FieldKey, Seq<char>> {
        entries_map(self.entries@)
    }
}

impl Header {
    /// Well-formedness: no two entries share a field name.
    pub open spec fn wf(&self) -> bool {
        distinct_names(self.entries@)
    }

    /// The entries in storage order, by their spec values; the writer
    /// renders a header block in this order.
    pub open spec fn entry_views(&self) -> Seq<(FieldKey, Seq<char>)> {
        Seq::new(self.entries@.len(), |i: int| (self.entries@[i].0@, self.entries@[i].1@))
    }

    /// An empty header block.
    pub fn new() -> (h: Header)
        ensures
            h@ =~= Map::<FieldKey, Seq<char>>::empty(),
            h.wf(),
            h.entries@.len() == 0,
    {
        Header { entries: Vec::new() }
    }

    /// Maps `name` to `value`, replacing any previous value for the same
    /// name.
    pub fn insert(&mut self, name: FieldNames, value: String)
        requires
            old(self).wf(),
        ensures
            final(self).wf(),
            final(self)@ =~= old(self)@.insert(name@, value@),
            !old(self)@.contains_key(name@) ==> final(self).entry_views() =~= old(
                self,
            ).entry_views().push((name@, value@)),
    {
        let n = self.entries.len();
        let mut i: usize = 0;
        while i < n
            invariant
                n == self.entries@.len(),
                i <= n,
                self == old(self),
                self.wf(),
                forall|j: int| 0 <= j < i ==> self.entries@[j].0@ != name@,
            decreases n - i,
        {
            if self.entries[i].0.same_name(&name) {
                let ghost es = self.entries@;
                self.entries.remove(i);
                self.entries.insert(i, (name, value));
                proof {
                    assert(self.entries@ =~= es.update(i as int, self.entries@[i as int]));
                    lemma_entries_map_update(es, i as int, self.entries@[i as int]);
                    assert(forall|m: int| 0 <= m < self.entries@.len()
                        ==> self.entries@[m].0@ == es[m].0@);
                    lemma_entries_map_at(es, i as int);
                }
                return;
            }
            i += 1;
        }
        self.entries.push((name, value));
        proof {
            let es = self.entries@;
            assert(es.drop_last() =~= old(self).entries@);
            assert(forall|m: int| 0 <= m < es.len() - 1 ==> es[m] == old(self).entries@[m]);
        }
    }

    /// Looks up the value stored for `name`, if any.
    pub fn get(&self, name: &FieldNames) -> (r: Option<&String>)
        requires
            self.wf(),
        ensures
            match r {
                Some(v) => self@.contains_key(name@) && v@ == self@[name@],
                None => !self@.contains_key(name@),
            },
    {
        let n = self.entries.len();
        let mut i: usize = 0;
        while i < n
            invariant
                n == self.entries@.len(),
                i <= n,
                self.wf(),
                forall|j: int| 0 <= j < i ==> self.entries@[j].0@ != name@,
            decreases n - i,
        {
            if self.entries[i].0.same_name(name) {
                proof {
                    lemma_entries_map_at(self.entries@, i as int);
                }
                return Some(&self.entries[i].1);
            }
            i += 1;
        }
        proof {
            lemma_entries_map_contains(self.entries@, name@);
        }
        None
    }

    /// The number of entries.
    pub fn len(&self) -> (n: usize)
        ensures
            n == self.entries@.len(),
    {
        self.entries.len()
    }
}

/// Any case-insensitive variant of a well-known name's canonical text
/// normalizes to that name.
pub proof fn lemma_case_variant_normalizes(k: FieldKey, s: Seq<char>)
    requires
        !(k is Custom),
        case_variant(s, canonical_chars(k)),
    ensures
        normalize_key(s) == k,
{
    lemma_normalize_case_insensitive(s, canonical_chars(k));
    lemma_canonical_round_trip(k);
}

/// The uuid crate's UUID type, carried opaquely.
#[verifier::external_type_specification]
#[verifier::external_body]
pub struct ExUuid(uuid::Uuid);

/// A unique record identifier, for callers who populate the
/// WARC-Record-ID field before writing a record.  This layer never
/// generates identifiers on its own.
pub struct RecordID {
    id: uuid::Uuid,
}

impl RecordID {
    /// Relies on `uuid::Uuid::new_v4`: a freshly generated random
    /// version-4 UUID.  Nothing is promised of its value.
    #[verifier::external_body]
    pub fn new() -> RecordID {
        RecordID { id: uuid::Uuid::new_v4() }
    }

    /// Renders the identifier wrapped in angle brackets.
    pub fn to_string(&self) -> (r: String)
        ensures
            r@.len() == 47,
            r@[0] == '<',
            r@[46] == '>',
    {
        let urn = urn_string(&self.id);
        let mut s = String::from_str("<");
        s.append(urn.as_str());
        s.append(">");
        proof {
            reveal_strlit("<");
            reveal_strlit(">");
            assert(s@.len() == 47);
            assert(s@[0] == '<');
            assert(s@[46] == '>');
        }
        s
    }
}

/// Relies on `uuid::Uuid::urn` and its display form: `urn:uuid:`
/// followed by the 36-character hyphenated form, 45 characters in all.
#[verifier::external_body]
fn urn_string(id: &uuid::Uuid) -> (r: String)
    ensures
        r@.len() == 45,
{
    format!("{}", id.urn())
}

} // verus!
