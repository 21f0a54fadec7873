//! Reading and writing of WARC (Web ARChive) records.
//!
//! A WARC record is a self-delimiting unit: a version line, a block of
//! header fields, and a length-prefixed content block, separated by CRLF
//! sequences.  The `reader` module turns a byte stream into a sequence of
//! records; the `writer` module renders records back into bytes.

pub mod header;
pub mod reader;
pub mod record;
pub mod writer;
