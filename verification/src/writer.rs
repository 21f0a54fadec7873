//! The WARC serializer.
//!
//! Stateless rendering of records into a byte sink.  A header value that
//! holds a newline (as the reader produces for continuation lines) is
//! written as a single raw line containing that newline; the writer does
//! not re-fold such values into continuation syntax.

use vstd::prelude::*;
use vstd::string::*;
use vstd::utf8::*;

use crate::header::{canonical_chars, FieldKey, Header};
use crate::record::Record;

verus! {

/// The two-byte line terminator.
pub open spec fn crlf() -> Seq<u8> {
    seq![13u8, 10u8]
}

/// The rendered bytes of one header entry: canonical name, colon and
/// space, the value verbatim, and a line terminator.
pub open spec fn rendered_entry(k: FieldKey, v: Seq<char>) -> Seq<u8> {
    encode_utf8(canonical_chars(k)) + seq![58u8, 32u8] + encode_utf8(v) + crlf()
}

/// The rendered bytes of a sequence of header entries, in order.
pub open spec fn rendered_entries(es: Seq<(FieldKey, Seq<char>)>) -> Seq<u8>
    decreases es.len(),
{
    if es.len() == 0 {
        Seq::empty()
    } else {
        rendered_entries(es.drop_last()) + rendered_entry(es.last().0, es.last().1)
    }
}

/// The rendered version line and header block of a record.
pub open spec fn rendered_head(version: Seq<char>, es: Seq<(FieldKey, Seq<char>)>) -> Seq<u8> {
    encode_utf8(version) + crlf() + rendered_entries(es) + crlf()
}

/// The rendered body block: at most `n` bytes of the supplied body,
/// then the record trailer.
pub open spec fn rendered_body(n: u64, body: Seq<u8>) -> Seq<u8> {
    (if body.len() <= n {
        body
    } else {
        body.take(n as int)
    }) + crlf() + crlf()
}

/// Appends a byte slice to the sink.
fn push_bytes(w: &mut Vec<u8>, b: &[u8])
    ensures
        final(w)@ == old(w)@ + b@,
{
    let n = b.len();
    let mut i: usize = 0;
    while i < n
        invariant
            i <= n,
            n == b@.len(),
            w@ =~= old(w)@ + b@.take(i as int),
        decreases n - i,
    {
        w.push(b[i]);
        proof {
            assert(w@ =~= old(w)@ + b@.take(i + 1 as int));
        }
        i += 1;
    }
    proof {
        assert(b@.take(n as int) =~= b@);
    }
}

/// Emits the version line: the version text and a line terminator.
pub fn write_version(w: &mut Vec<u8>, version: &str)
    ensures
        final(w)@ == old(w)@ + encode_utf8(version@) + crlf(),
{
    push_bytes(w, version.as_bytes());
    w.push(13);
    w.push(10);
    proof {
        assert(w@ =~= old(w)@ + encode_utf8(version@) + crlf());
    }
}

/// Emits a header block: one line per entry in storage order, then a
/// blank line.
pub fn write_header(w: &mut Vec<u8>, headers: &Header)
    ensures
        final(w)@ == old(w)@ + rendered_entries(headers.entry_views()) + crlf(),
{
    let n = headers.entries.len();
    let mut i: usize = 0;
    while i < n
        invariant
            i <= n,
            n == headers.entries@.len(),
            w@ =~= old(w)@ + rendered_entries(headers.entry_views().take(i as int)),
        decreases n - i,
    {
        let name = headers.entries[i].0.to_string();
        push_bytes(w, name.as_str().as_bytes());
        w.push(58);
        w.push(32);
        push_bytes(w, headers.entries[i].1.as_str().as_bytes());
        w.push(13);
        w.push(10);
        proof {
            let es = headers.entry_views();
            assert(es.take(i + 1 as int).drop_last() =~= es.take(i as int));
            assert(es.take(i + 1 as int).last() == es[i as int]);
            assert(w@ =~= old(w)@ + rendered_entries(es.take(i as int)) + rendered_entry(
                es[i as int].0,
                es[i as int].1,
            ));
            assert(w@ =~= old(w)@ + rendered_entries(es.take(i + 1 as int)));
        }
        i += 1;
    }
    w.push(13);
    w.push(10);
    proof {
        assert(headers.entry_views().take(n as int) =~= headers.entry_views());
        assert(w@ =~= old(w)@ + rendered_entries(headers.entry_views()) + crlf());
    }
}

/// Emits the body block: at most `content_length` bytes copied from the
/// supplied body, then the record trailer.
pub fn write_body(w: &mut Vec<u8>, content_length: u64, body: &Vec<u8>)
    ensures
        final(w)@ == old(w)@ + rendered_body(content_length, body@),
{
    let n: usize = if (body.len() as u64) <= content_length {
        body.len()
    } else {
        content_length as usize
    };
    let mut i: usize = 0;
    while i < n
        invariant
            i <= n <= body@.len(),
            w@ =~= old(w)@ + body@.take(i as int),
        decreases n - i,
    {
        w.push(body[i]);
        proof {
            assert(w@ =~= old(w)@ + body@.take(i + 1 as int));
        }
        i += 1;
    }
    w.push(13);
    w.push(10);
    w.push(13);
    w.push(10);
    proof {
        if body@.len() <= content_length {
            assert(body@.take(n as int) =~= body@);
        }
        assert(w@ =~= old(w)@ + rendered_body(content_length, body@));
    }
}

/// Emits a whole record: version line, header block, and the body block
/// copied from the supplied source.
pub fn write_record(w: &mut Vec<u8>, record: &Record, body: &Vec<u8>)
    ensures
        final(w)@ == old(w)@ + rendered_head(record.version@, record.header.entry_views())
            + rendered_body(record.content_length, body@),
{
    write_version(w, record.version.as_str());
    write_header(w, &record.header);
    write_body(w, record.content_length, body);
    proof {
        assert(w@ =~= old(w)@ + rendered_head(record.version@, record.header.entry_views())
            + rendered_body(record.content_length, body@));
    }
}

/// Emits a record's version line and header block only, for callers who
/// stream the body independently.
pub fn write_record_without_body(w: &mut Vec<u8>, record: &Record)
    ensures
        final(w)@ == old(w)@ + rendered_head(record.version@, record.header.entry_views()),
{
    write_version(w, record.version.as_str());
    write_header(w, &record.header);
    proof {
        assert(w@ =~= old(w)@ + rendered_head(record.version@, record.header.entry_views()));
    }
}

} // verus!
