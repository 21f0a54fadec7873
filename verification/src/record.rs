//! The in-memory representation of one WARC record.

use vstd::prelude::*;
use vstd::string::*;

use crate::header::Header;

verus! {

/// One WARC record: the version line, the header block, and the content
/// block together with its declared length.
///
/// A reader-produced record always has `content.len() == content_length`;
/// a caller-built record (for writing) starts with an empty content block
/// and an externally supplied body.
#[derive(Debug)]
pub struct Record {
    /// WARC version string (e.g. "WARC/1.1").
    pub version: String,
    /// Record header fields.
    pub header: Header,
    /// Record body content length.
    pub content_length: u64,
    /// Record content block.
    pub content: Vec<u8>,
}

impl Record {
    /// A fresh record for writing: current version line, the given
    /// headers and declared length, and no content block of its own.
    pub fn new(header: Header, content_length: u64) -> (r: Record)
        ensures
            r.version@ == "WARC/1.1"@,
            r.header == header,
            r.content_length == content_length,
            r.content@ == Seq::<u8>::empty(),
    {
        let version = String::from_str("WARC/1.1");
        let r = Record { version, header, content_length, content: Vec::new() };
        proof {
            assert(r.content@ =~= Seq::<u8>::empty());
        }
        r
    }
}

} // verus!

