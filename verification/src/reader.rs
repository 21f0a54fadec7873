//! The streaming WARC parser.
//!
//! The parser consumes an in-memory byte stream through a cursor and
//! produces one record per call.  Its behaviour is specified against a
//! spec-level parser over the byte sequence: lines are delimited by
//! line-feed bytes, their content is decoded as UTF-8, and the content
//! block is taken verbatim at the length the header declares.

use vstd::prelude::*;
use vstd::string::*;
use vstd::utf8::*;

use crate::header::{normalize_key, FieldKey, FieldNames, Header};
use crate::record::Record;

verus! {

/// A failure while producing records.
#[derive(Debug)]
pub enum ReaderError {
    /// A protocol violation, with a human-readable reason.
    Malformed(String),
    /// A failure below the protocol layer: truncated input, or line bytes
    /// that are not valid UTF-8.
    IO,
    /// Graceful end of the stream at a record boundary; never surfaced to
    /// a caller of the reader.
    EOF,
}

/// Whitespace as trimmed from line ends, field names, values and
/// continuation lines: the characters with the Unicode White_Space
/// property, the set `str::trim` and `str::trim_end` remove.
pub open spec fn is_space(c: char) -> bool {
    ('\u{09}' <= c && c <= '\u{0d}') || c == ' ' || c == '\u{85}' || c == '\u{a0}'
        || c == '\u{1680}' || ('\u{2000}' <= c && c <= '\u{200a}') || c == '\u{2028}'
        || c == '\u{2029}' || c == '\u{202f}' || c == '\u{205f}' || c == '\u{3000}'
}

/// The sequence with trailing whitespace removed.
pub open spec fn rtrim_chars(s: Seq<char>) -> Seq<char>
    decreases s.len(),
{
    if s.len() > 0 && is_space(s.last()) {
        rtrim_chars(s.drop_last())
    } else {
        s
    }
}

/// The sequence with leading whitespace removed.
pub open spec fn ltrim_chars(s: Seq<char>) -> Seq<char>
    decreases s.len(),
{
    if s.len() > 0 && is_space(s.first()) {
        ltrim_chars(s.drop_first())
    } else {
        s
    }
}

/// The sequence with both leading and trailing whitespace removed.
pub open spec fn trim_chars(s: Seq<char>) -> Seq<char> {
    ltrim_chars(rtrim_chars(s))
}

/// The index just past the line starting at `pos`: one past the first
/// line-feed byte at or after `pos`, or the end of the stream.
pub open spec fn spec_line_end(d: Seq<u8>, pos: int) -> int
    recommends
        0 <= pos <= d.len(),
    decreases d.len() - pos,
{
    if pos >= d.len() {
        d.len() as int
    } else if d[pos] == 10 {
        pos + 1
    } else {
        spec_line_end(d, pos + 1)
    }
}

pub proof fn lemma_line_end_bounds(d: Seq<u8>, pos: int)
    requires
        0 <= pos <= d.len(),
    ensures
        pos <= spec_line_end(d, pos) <= d.len(),
        pos < d.len() ==> pos + 1 <= spec_line_end(d, pos),
    decreases d.len() - pos,
{
    if pos < d.len() && d[pos] != 10 {
        lemma_line_end_bounds(d, pos + 1);
    }
}

/// The index of the first colon at or after `i`, or the length of the
/// sequence if there is none.
pub open spec fn first_colon(s: Seq<char>, i: int) -> int
    recommends
        0 <= i <= s.len(),
    decreases s.len() - i,
{
    if i < 0 || i >= s.len() {
        s.len() as int
    } else if s[i] == ':' {
        i
    } else {
        first_colon(s, i + 1)
    }
}

/// The version line must begin with the literal prefix "WARC/1.".
pub open spec fn has_warc_prefix(s: Seq<char>) -> bool {
    s.len() >= 7 && s[0] == 'W' && s[1] == 'A' && s[2] == 'R' && s[3] == 'C' && s[4] == '/'
        && s[5] == '1' && s[6] == '.'
}

/// A decimal digit.
pub open spec fn is_digit(c: char) -> bool {
    '0' <= c && c <= '9'
}

pub open spec fn digit_val(c: char) -> nat
    recommends
        is_digit(c),
{
    ((c as u32) - 48) as nat
}

/// The value of a sequence of decimal digits, most significant first.
pub open spec fn digits_val(s: Seq<char>) -> nat
    decreases s.len(),
{
    if s.len() == 0 {
        0
    } else {
        digits_val(s.drop_last()) * 10 + digit_val(s.last())
    }
}

pub open spec fn all_digits(s: Seq<char>) -> bool {
    forall|i: int| 0 <= i < s.len() ==> is_digit(#[trigger] s[i])
}

/// The unsigned 64-bit number the text denotes, if any: an optional plus
/// sign, then at least one digit, with a value that fits in 64 bits.
pub open spec fn spec_parse_u64(s: Seq<char>) -> Option<u64> {
    let t = if s.len() > 0 && s[0] == '+' {
        s.skip(1)
    } else {
        s
    };
    if t.len() > 0 && all_digits(t) && digits_val(t) <= u64::MAX {
        Some(digits_val(t) as u64)
    } else {
        None
    }
}

proof fn lemma_digits_val_prefix(s: Seq<char>, i: int)
    requires
        0 <= i <= s.len(),
    ensures
        digits_val(s.take(i)) <= digits_val(s),
    decreases s.len() - i,
{
    if i < s.len() {
        assert(s.take(i + 1).drop_last() =~= s.take(i));
        assert(s.take(i + 1).last() == s[i]);
        assert(digits_val(s.take(i)) * 10 >= digits_val(s.take(i)));
        lemma_digits_val_prefix(s, i + 1);
    } else {
        assert(s.take(i) =~= s);
    }
}

fn is_space_char(c: char) -> (b: bool)
    ensures
        b == is_space(c),
{
    ('\u{09}' <= c && c <= '\u{0d}') || c == ' ' || c == '\u{85}' || c == '\u{a0}'
        || c == '\u{1680}' || ('\u{2000}' <= c && c <= '\u{200a}') || c == '\u{2028}'
        || c == '\u{2029}' || c == '\u{202f}' || c == '\u{205f}' || c == '\u{3000}'
}

/// Finds the end of the line starting at `pos`.
fn find_line_end(d: &Vec<u8>, pos: usize) -> (end: usize)
    requires
        pos <= d@.len(),
    ensures
        end == spec_line_end(d@, pos as int),
        pos <= end <= d@.len(),
{
    let n = d.len();
    let mut i = pos;
    while i < n
        invariant
            pos <= i <= n,
            n == d@.len(),
            spec_line_end(d@, pos as int) == spec_line_end(d@, i as int),
        decreases n - i,
    {
        if d[i] == 10 {
            return i + 1;
        }
        i += 1;
    }
    n
}

/// Copies the bytes in `[from, to)` out of the stream.
fn take_bytes(d: &Vec<u8>, from: usize, to: usize) -> (v: Vec<u8>)
    requires
        from <= to <= d@.len(),
    ensures
        v@ == d@.subrange(from as int, to as int),
{
    let mut v: Vec<u8> = Vec::new();
    let mut i = from;
    while i < to
        invariant
            from <= i <= to <= d@.len(),
            v@ =~= d@.subrange(from as int, i as int),
        decreases to - i,
    {
        v.push(d[i]);
        proof {
            assert(v@ =~= d@.subrange(from as int, i + 1 as int));
        }
        i += 1;
    }
    proof {
        assert(v@ =~= d@.subrange(from as int, to as int));
    }
    v
}

/// Relies on `String::from_utf8`: it succeeds exactly on valid UTF-8
/// input, and then returns the string those bytes encode.
#[verifier::external_body]
fn utf8_to_string(v: Vec<u8>) -> (r: Option<String>)
    ensures
        match r {
            Some(s) => valid_utf8(v@) && s@ == decode_utf8(v@),
            None => !valid_utf8(v@),
        },
{
    match String::from_utf8(v) {
        Ok(s) => Some(s),
        Err(_) => None,
    }
}

/// Trims trailing whitespace off a string in place.
pub fn rtrim(s: &mut String)
    ensures
        final(s)@ == rtrim_chars(old(s)@),
{
    let n = s.as_str().unicode_len();
    proof {
        assert(s@.take(n as int) =~= s@);
    }
    let mut k = n;
    while k > 0 && is_space_char(s.as_str().get_char(k - 1))
        invariant
            k <= n,
            n == s@.len(),
            s == old(s),
            rtrim_chars(s@) == rtrim_chars(s@.take(k as int)),
        decreases k,
    {
        proof {
            assert(s@.take(k as int).last() == s@[k - 1]);
            assert(s@.take(k as int).drop_last() =~= s@.take(k - 1));
        }
        k -= 1;
    }
    proof {
        assert(rtrim_chars(s@.take(k as int)) == s@.take(k as int));
    }
    let r = {
        let sl = s.as_str();
        let piece = sl.substring_char(0, k);
        piece.to_owned()
    };
    proof {
        assert(r@ =~= old(s)@.take(k as int));
    }
    *s = r;
}

/// The text with leading and trailing whitespace removed.
fn trim_str(s: &str) -> (r: String)
    ensures
        r@ == trim_chars(s@),
{
    let n = s.unicode_len();
    proof {
        assert(s@.take(n as int) =~= s@);
    }
    let mut k = n;
    while k > 0 && is_space_char(s.get_char(k - 1))
        invariant
            k <= n,
            n == s@.len(),
            rtrim_chars(s@) == rtrim_chars(s@.take(k as int)),
        decreases k,
    {
        proof {
            assert(s@.take(k as int).last() == s@[k - 1]);
            assert(s@.take(k as int).drop_last() =~= s@.take(k - 1));
        }
        k -= 1;
    }
    proof {
        assert(rtrim_chars(s@.take(k as int)) == s@.take(k as int));
        assert(rtrim_chars(s@) == s@.take(k as int));
    }
    let mut j: usize = 0;
    while j < k && is_space_char(s.get_char(j))
        invariant
            j <= k <= n,
            n == s@.len(),
            rtrim_chars(s@) == s@.take(k as int),
            ltrim_chars(s@.subrange(0, k as int)) == ltrim_chars(s@.subrange(j as int, k as int)),
        decreases k - j,
    {
        proof {
            assert(s@.subrange(j as int, k as int).first() == s@[j as int]);
            assert(s@.subrange(j as int, k as int).drop_first() =~= s@.subrange(
                j + 1 as int,
                k as int,
            ));
        }
        j += 1;
    }
    proof {
        assert(ltrim_chars(s@.subrange(j as int, k as int)) == s@.subrange(j as int, k as int));
        assert(s@.take(k as int) == s@.subrange(0, k as int));
    }
    let piece = s.substring_char(j, k);
    piece.to_owned()
}

/// Finds the first colon of the line, if any.
fn find_colon(s: &str) -> (r: Option<usize>)
    ensures
        match r {
            Some(i) => i == first_colon(s@, 0) && i < s@.len(),
            None => first_colon(s@, 0) == s@.len(),
        },
{
    let n = s.unicode_len();
    let mut i: usize = 0;
    while i < n
        invariant
            i <= n,
            n == s@.len(),
            first_colon(s@, 0) == first_colon(s@, i as int),
        decreases n - i,
    {
        if s.get_char(i) == ':' {
            return Some(i);
        }
        i += 1;
    }
    None
}

/// Decides whether the line begins with the literal prefix "WARC/1.".
fn starts_with_warc(s: &str) -> (b: bool)
    ensures
        b == has_warc_prefix(s@),
{
    if s.unicode_len() < 7 {
        return false;
    }
    s.get_char(0) == 'W' && s.get_char(1) == 'A' && s.get_char(2) == 'R' && s.get_char(3) == 'C'
        && s.get_char(4) == '/' && s.get_char(5) == '1' && s.get_char(6) == '.'
}

/// Parses the text as an unsigned 64-bit number, exactly as
/// `spec_parse_u64` describes.
fn parse_u64(s: &str) -> (r: Option<u64>)
    ensures
        r == spec_parse_u64(s@),
{
    let n = s.unicode_len();
    let start: usize = if n > 0 && s.get_char(0) == '+' {
        1
    } else {
        0
    };
    let ghost t = if start == 1 {
        s@.skip(1)
    } else {
        s@
    };
    proof {
        assert(t.len() == n - start);
        assert(forall|m: int| 0 <= m < t.len() ==> t[m] == s@[m + start]);
    }
    if start == n {
        return None;
    }
    let mut i = start;
    let mut val: u64 = 0;
    while i < n
        invariant
            start <= i <= n,
            n == s@.len(),
            start == 0 || start == 1,
            (start == 1) == (s@.len() > 0 && s@[0] == '+'),
            t == (if start == 1 {
                s@.skip(1)
            } else {
                s@
            }),
            t.len() == n - start,
            forall|m: int| 0 <= m < t.len() ==> t[m] == s@[m + start],
            all_digits(t.take(i - start)),
            val == digits_val(t.take(i - start)),
        decreases n - i,
    {
        let c = s.get_char(i);
        if !(c >= '0' && c <= '9') {
            proof {
                assert(t[i - start] == c);
                assert(!all_digits(t));
            }
            return None;
        }
        let d: u64 = (c as u32 - 48) as u64;
        proof {
            assert(t.take(i - start + 1).drop_last() =~= t.take(i - start));
            assert(t.take(i - start + 1).last() == t[i - start]);
            assert(digits_val(t.take(i - start + 1)) == digits_val(t.take(i - start)) * 10
                + digit_val(c));
        }
        if val > (u64::MAX - d) / 10 {
            proof {
                assert((u64::MAX - d) / 10 * 10 + 10 > u64::MAX - d);
                assert(val * 10 >= ((u64::MAX - d) / 10 + 1) * 10);
                assert(val * 10 + d > u64::MAX);
                lemma_digits_val_prefix(t, i - start + 1);
                assert(digits_val(t) > u64::MAX);
            }
            return None;
        }
        proof {
            assert((u64::MAX - d) / 10 * 10 <= u64::MAX - d);
            assert(val * 10 <= (u64::MAX - d) / 10 * 10);
        }
        val = val * 10 + d;
        i += 1;
    }
    proof {
        assert(t.take(i - start) =~= t);
    }
    Some(val)
}

/// The outcome of parsing a header block.
pub enum HeadersOutcome {
    /// A header line was not valid UTF-8.
    HIo,
    /// A protocol violation, with its reason.
    HMalformed(Seq<char>),
    /// The parsed header map and the position just past the blank line.
    HDone { headers: Map<FieldKey, Seq<char>>, end: int },
}

/// Folds a pending field, if any, into the header map.
pub open spec fn flush_pending(
    p: Option<(FieldKey, Seq<char>)>,
    acc: Map<FieldKey, Seq<char>>,
) -> Map<FieldKey, Seq<char>> {
    match p {
        Some(kv) => acc.insert(kv.0, kv.1),
        None => acc,
    }
}

/// The spec-level header block parser, one line per step.
///
/// `pending` is the field whose value may still grow by continuation
/// lines; `acc` is the map built so far.  A blank line (exactly CRLF)
/// ends the block; a line starting with space or tab continues the
/// pending field; any other line must contain a colon and starts a new
/// pending field, flushing the previous one.
pub open spec fn spec_parse_headers(
    d: Seq<u8>,
    pos: int,
    pending: Option<(FieldKey, Seq<char>)>,
    acc: Map<FieldKey, Seq<char>>,
) -> HeadersOutcome
    recommends
        0 <= pos <= d.len(),
    decreases d.len() - pos,
        when 0 <= pos <= d.len()
        via spec_parse_headers_dec
{
    let end = spec_line_end(d, pos);
    let lb = d.subrange(pos, end);
    if !valid_utf8(lb) {
        HeadersOutcome::HIo
    } else {
        let ls = decode_utf8(lb);
        if ls == "\r\n"@ {
            HeadersOutcome::HDone { headers: flush_pending(pending, acc), end }
        } else {
            let t = rtrim_chars(ls);
            if t.len() > 0 && (t[0] == ' ' || t[0] == '\t') {
                match pending {
                    Some(kv) => spec_parse_headers(
                        d,
                        end,
                        Some((kv.0, kv.1 + "\n"@ + trim_chars(t))),
                        acc,
                    ),
                    None => HeadersOutcome::HMalformed("Invalid header block"@),
                }
            } else {
                let acc2 = flush_pending(pending, acc);
                let ci = first_colon(t, 0);
                if ci < t.len() {
                    spec_parse_headers(
                        d,
                        end,
                        Some((normalize_key(rtrim_chars(t.take(ci))), trim_chars(t.skip(ci + 1)))),
                        acc2,
                    )
                } else {
                    HeadersOutcome::HMalformed("Invalid header field"@)
                }
            }
        }
    }
}

#[via_fn]
proof fn spec_parse_headers_dec(
    d: Seq<u8>,
    pos: int,
    pending: Option<(FieldKey, Seq<char>)>,
    acc: Map<FieldKey, Seq<char>>,
) {
    lemma_line_end_bounds(d, pos);
    let end = spec_line_end(d, pos);
    if end == pos {
        let lb = d.subrange(pos, end);
        assert(lb =~= Seq::<u8>::empty());
        assert(valid_utf8(lb));
        assert(decode_utf8(lb) =~= Seq::<char>::empty());
        assert(rtrim_chars(decode_utf8(lb)) =~= Seq::<char>::empty());
    }
}

/// The outcome of parsing one record from position `pos` of the stream.
pub enum ParseOutcome {
    /// True end of input before any byte of a new record.
    StreamEnd,
    /// A failure below the protocol layer: truncated input or line bytes
    /// that are not valid UTF-8.
    IoFail,
    /// A protocol violation, with its reason.
    Bad(Seq<char>),
    /// A parsed record and the position just past its trailer.
    Parsed {
        version: Seq<char>,
        headers: Map<FieldKey, Seq<char>>,
        content: Seq<u8>,
        content_length: u64,
        end: int,
    },
}

/// Processing after the header block: the mandatory Content-Length
/// field, then the content block and the record trailer.
pub open spec fn after_headers(d: Seq<u8>, version: Seq<char>, ho: HeadersOutcome) -> ParseOutcome {
    match ho {
        HeadersOutcome::HIo => ParseOutcome::IoFail,
        HeadersOutcome::HMalformed(m) => ParseOutcome::Bad(m),
        HeadersOutcome::HDone { headers, end } => after_body(d, version, headers, end),
    }
}

pub open spec fn after_body(
    d: Seq<u8>,
    version: Seq<char>,
    headers: Map<FieldKey, Seq<char>>,
    hend: int,
) -> ParseOutcome {
    if !headers.contains_key(FieldKey::ContentLength) {
        ParseOutcome::Bad("Content-Length is missing"@)
    } else {
        match spec_parse_u64(headers[FieldKey::ContentLength]) {
            None => ParseOutcome::Bad("Content-Length is not a number"@),
            Some(n) => after_length(d, version, headers, hend, n),
        }
    }
}

pub open spec fn after_length(
    d: Seq<u8>,
    version: Seq<char>,
    headers: Map<FieldKey, Seq<char>>,
    hend: int,
    n: u64,
) -> ParseOutcome {
    if hend + n + 4 > d.len() {
        ParseOutcome::IoFail
    } else if d.subrange(hend + n, hend + n + 4) != seq![13u8, 10u8, 13u8, 10u8] {
        ParseOutcome::Bad("No double linefeed after record content"@)
    } else {
        ParseOutcome::Parsed {
            version,
            headers,
            content: d.subrange(hend, hend + n),
            content_length: n,
            end: hend + n + 4,
        }
    }
}

/// The spec-level record parser: version line, header block, content
/// block of exactly the declared length, and the double-CRLF trailer.
pub open spec fn spec_parse(d: Seq<u8>, pos: int) -> ParseOutcome
    recommends
        0 <= pos <= d.len(),
{
    let vend = spec_line_end(d, pos);
    let vb = d.subrange(pos, vend);
    if vb.len() == 0 {
        ParseOutcome::StreamEnd
    } else if !valid_utf8(vb) {
        ParseOutcome::IoFail
    } else {
        let version = rtrim_chars(decode_utf8(vb));
        if !has_warc_prefix(version) {
            ParseOutcome::Bad("Unknown WARC version: "@ + version)
        } else {
            after_headers(
                d,
                version,
                spec_parse_headers(d, vend, None, Map::<FieldKey, Seq<char>>::empty()),
            )
        }
    }
}

/// The spec view of the pending header field.
pub open spec fn pending_view(p: Option<(FieldNames, String)>) -> Option<(FieldKey, Seq<char>)> {
    match p {
        Some(kv) => Some((kv.0@, kv.1@)),
        None => None,
    }
}

/// Parses one record starting at `*pos`, advancing the cursor past the
/// record on success, exactly as `spec_parse` describes.
#[verifier::loop_isolation(false)]
pub fn parse_record(data: &Vec<u8>, pos: &mut usize) -> (r: Result<Record, ReaderError>)
    requires
        *old(pos) <= data@.len(),
    ensures
        *final(pos) <= data@.len(),
        match spec_parse(data@, *old(pos) as int) {
            ParseOutcome::StreamEnd => r matches Err(ReaderError::EOF) && *final(pos) == *old(
                pos,
            ),
            ParseOutcome::IoFail => r matches Err(ReaderError::IO),
            ParseOutcome::Bad(m) => r matches Err(ReaderError::Malformed(s)) && s@ == m,
            ParseOutcome::Parsed { version, headers, content, content_length, end } => r matches Ok(
                rec,
            ) && rec.version@ == version && rec.header@ == headers && rec.header.wf()
                && rec.content@ == content && rec.content_length == content_length
                && rec.content@.len() == content_length && *final(pos) == end,
        },
{
    let p0 = *pos;

    // Version line.
    let vend = find_line_end(data, p0);
    let vb = take_bytes(data, p0, vend);
    if vb.len() == 0 {
        return Err(ReaderError::EOF);
    }
    let mut version = match utf8_to_string(vb) {
        Some(s) => s,
        None => {
            return Err(ReaderError::IO);
        },
    };
    rtrim(&mut version);
    if !starts_with_warc(version.as_str()) {
        let mut m = String::from_str("Unknown WARC version: ");
        m.append(version.as_str());
        return Err(ReaderError::Malformed(m));
    }

    // Header block.
    let mut header = Header::new();
    let mut pending: Option<(FieldNames, String)> = None;
    let mut p = vend;
    let mut done = false;
    while !done
        invariant
            vend <= p <= data@.len(),
            header.wf(),
            !done ==> spec_parse_headers(
                data@,
                vend as int,
                None,
                Map::<FieldKey, Seq<char>>::empty(),
            ) == spec_parse_headers(data@, p as int, pending_view(pending), header@),
            done ==> spec_parse_headers(
                data@,
                vend as int,
                None,
                Map::<FieldKey, Seq<char>>::empty(),
            ) == (HeadersOutcome::HDone { headers: header@, end: p as int }),
        decreases data@.len() - p,
    {
        let ghost p_iter = p as int;
        let ghost pend0 = pending_view(pending);
        let ghost hdr0 = header@;

        let lend = find_line_end(data, p);
        let lb = take_bytes(data, p, lend);
        let line = match utf8_to_string(lb) {
            Some(s) => s,
            None => {
                return Err(ReaderError::IO);
            },
        };
        let ghost ls0 = line@;
        if line.eq(&String::from_str("\r\n")) {
            match pending.take() {
                Some(kv) => {
                    header.insert(kv.0, kv.1);
                },
                None => {},
            }
            proof {
                reveal_strlit("\r\n");
                if lend == p {
                    assert(lb@ =~= Seq::<u8>::empty());
                    assert(decode_utf8(lb@) =~= Seq::<char>::empty());
                }
                assert(header@ =~= flush_pending(pend0, hdr0));
                assert(spec_parse_headers(data@, p_iter, pend0, hdr0)
                    == (HeadersOutcome::HDone { headers: header@, end: lend as int }));
            }
            p = lend;
            done = true;
            continue;
        }
        let mut lt = line;
        rtrim(&mut lt);
        let ghost t = rtrim_chars(ls0);
        let ltn = lt.as_str().unicode_len();
        let is_cont = if ltn > 0 {
            let c0 = lt.as_str().get_char(0);
            c0 == ' ' || c0 == '\t'
        } else {
            false
        };
        if is_cont {
            match pending.take() {
                Some(kv) => {
                    let (k, mut v) = kv;
                    v.append("\n");
                    let tr = trim_str(lt.as_str());
                    v.append(tr.as_str());
                    pending = Some((k, v));
                    proof {
                        assert(spec_parse_headers(data@, p_iter, pend0, hdr0)
                            == spec_parse_headers(
                            data@,
                            lend as int,
                            pending_view(pending),
                            header@,
                        ));
                    }
                    p = lend;
                },
                None => {
                    return Err(ReaderError::Malformed(String::from_str("Invalid header block")));
                },
            }
        } else {
            match pending.take() {
                Some(kv) => {
                    header.insert(kv.0, kv.1);
                },
                None => {},
            }
            proof {
                assert(header@ =~= flush_pending(pend0, hdr0));
            }
            match find_colon(lt.as_str()) {
                Some(ci) => {
                    let name_raw = lt.as_str().substring_char(0, ci);
                    let mut name_s = name_raw.to_owned();
                    rtrim(&mut name_s);
                    let fname = FieldNames::from_string(name_s.as_str());
                    let val = trim_str(lt.as_str().substring_char(ci + 1, ltn));
                    proof {
                        assert(t.subrange(0, ci as int) =~= t.take(ci as int));
                        assert(t.subrange(ci + 1 as int, ltn as int) =~= t.skip(ci + 1));
                    }
                    pending = Some((fname, val));
                    proof {
                        assert(spec_parse_headers(data@, p_iter, pend0, hdr0)
                            == spec_parse_headers(
                            data@,
                            lend as int,
                            pending_view(pending),
                            header@,
                        ));
                    }
                    p = lend;
                },
                None => {
                    return Err(ReaderError::Malformed(String::from_str("Invalid header field")));
                },
            }
        }
    }

    // Content-Length.
    let n64: u64 = {
        let cl_opt = header.get(&FieldNames::ContentLength);
        match cl_opt {
            None => {
                return Err(ReaderError::Malformed(String::from_str("Content-Length is missing")));
            },
            Some(v) => {
                match parse_u64(v.as_str()) {
                    None => {
                        return Err(ReaderError::Malformed(
                            String::from_str("Content-Length is not a number"),
                        ));
                    },
                    Some(x) => x,
                }
            },
        }
    };

    // Content block and trailer.
    let rem = data.len() - p;
    if n64 > rem as u64 {
        return Err(ReaderError::IO);
    }
    let nn = n64 as usize;
    let content = take_bytes(data, p, p + nn);
    if rem - nn < 4 {
        return Err(ReaderError::IO);
    }
    let ok_trailer = data[p + nn] == 13 && data[p + nn + 1] == 10 && data[p + nn + 2] == 13
        && data[p + nn + 3] == 10;
    if !ok_trailer {
        proof {
            let tr = data@.subrange(p + nn, p + nn + 4);
            assert(tr[0] == data@[p + nn]);
            assert(tr[1] == data@[p + nn + 1]);
            assert(tr[2] == data@[p + nn + 2]);
            assert(tr[3] == data@[p + nn + 3]);
            assert(seq![13u8, 10u8, 13u8, 10u8][0] == 13u8);
            assert(seq![13u8, 10u8, 13u8, 10u8][1] == 10u8);
            assert(seq![13u8, 10u8, 13u8, 10u8][2] == 13u8);
            assert(seq![13u8, 10u8, 13u8, 10u8][3] == 10u8);
        }
        return Err(ReaderError::Malformed(
            String::from_str("No double linefeed after record content"),
        ));
    }
    proof {
        assert(data@.subrange(p + nn, p + nn + 4) =~= seq![13u8, 10u8, 13u8, 10u8]);
    }
    *pos = p + nn + 4;
    Ok(Record { version, header, content_length: n64, content })
}

/// The position just past a parsed record; zero for any other outcome.
pub open spec fn parsed_end(o: ParseOutcome) -> int {
    match o {
        ParseOutcome::Parsed { end, .. } => end,
        _ => 0,
    }
}

proof fn lemma_headers_bounds(
    d: Seq<u8>,
    pos: int,
    pending: Option<(FieldKey, Seq<char>)>,
    acc: Map<FieldKey, Seq<char>>,
)
    requires
        0 <= pos <= d.len(),
    ensures
        spec_parse_headers(d, pos, pending, acc) matches HeadersOutcome::HDone { end, .. }
            ==> pos <= end <= d.len(),
    decreases d.len() - pos,
{
    lemma_line_end_bounds(d, pos);
    let end = spec_line_end(d, pos);
    let lb = d.subrange(pos, end);
    if valid_utf8(lb) {
        let ls = decode_utf8(lb);
        if ls != "\r\n"@ {
            let t = rtrim_chars(ls);
            if end == pos {
                assert(lb =~= Seq::<u8>::empty());
                assert(decode_utf8(lb) =~= Seq::<char>::empty());
                assert(rtrim_chars(decode_utf8(lb)) =~= Seq::<char>::empty());
            } else {
                if t.len() > 0 && (t[0] == ' ' || t[0] == '\t') {
                    match pending {
                        Some(kv) => {
                            lemma_headers_bounds(
                                d,
                                end,
                                Some((kv.0, kv.1 + "\n"@ + trim_chars(t))),
                                acc,
                            );
                        },
                        None => {},
                    }
                } else {
                    let ci = first_colon(t, 0);
                    if ci < t.len() {
                        lemma_headers_bounds(
                            d,
                            end,
                            Some((normalize_key(rtrim_chars(t.take(ci))), trim_chars(
                                t.skip(ci + 1),
                            ))),
                            flush_pending(pending, acc),
                        );
                    }
                }
            }
        }
    }
}

/// A parsed record always moves the cursor forward, and never past the
/// end of the stream.
pub proof fn lemma_parse_advances(d: Seq<u8>, pos: int)
    requires
        0 <= pos <= d.len(),
    ensures
        spec_parse(d, pos) matches ParseOutcome::Parsed { end, .. } ==> pos < end <= d.len(),
{
    lemma_line_end_bounds(d, pos);
    let vend = spec_line_end(d, pos);
    let vb = d.subrange(pos, vend);
    if vb.len() != 0 && valid_utf8(vb) {
        lemma_headers_bounds(d, vend, None, Map::<FieldKey, Seq<char>>::empty());
    }
}

/// The whole sequence of items the stream yields from `pos` on: zero or
/// more parsed records, ending at the graceful end of the stream or with
/// a single failure after which nothing more is produced.
pub open spec fn spec_items(d: Seq<u8>, pos: int) -> Seq<ParseOutcome>
    recommends
        0 <= pos <= d.len(),
    decreases d.len() - pos,
        when 0 <= pos <= d.len()
        via spec_items_dec
{
    match spec_parse(d, pos) {
        ParseOutcome::StreamEnd => Seq::empty(),
        ParseOutcome::IoFail => seq![ParseOutcome::IoFail],
        ParseOutcome::Bad(m) => seq![ParseOutcome::Bad(m)],
        ParseOutcome::Parsed { version, headers, content, content_length, end } => seq![
            ParseOutcome::Parsed { version, headers, content, content_length, end },
        ] + spec_items(d, end),
    }
}

#[via_fn]
proof fn spec_items_dec(d: Seq<u8>, pos: int) {
    lemma_parse_advances(d, pos);
}

/// An empty stream yields no items and no error.
pub proof fn lemma_empty_stream()
    ensures
        spec_items(Seq::<u8>::empty(), 0) =~= Seq::<ParseOutcome>::empty(),
{
    let d = Seq::<u8>::empty();
    assert(d.subrange(0, spec_line_end(d, 0)) =~= Seq::<u8>::empty());
}

/// A stream holding two valid records back to back yields exactly those
/// two records, in order, and then ends.
pub proof fn lemma_two_records(d: Seq<u8>)
    requires
        spec_parse(d, 0) is Parsed,
        spec_parse(d, parsed_end(spec_parse(d, 0))) is Parsed,
        spec_parse(d, parsed_end(spec_parse(d, parsed_end(spec_parse(d, 0))))) is StreamEnd,
    ensures
        spec_items(d, 0) =~= seq![
            spec_parse(d, 0),
            spec_parse(d, parsed_end(spec_parse(d, 0))),
        ],
{
    lemma_parse_advances(d, 0);
    let e1 = parsed_end(spec_parse(d, 0));
    lemma_parse_advances(d, e1);
    let e2 = parsed_end(spec_parse(d, e1));
    lemma_parse_advances(d, e2);
    assert(spec_items(d, e2) =~= Seq::<ParseOutcome>::empty());
    assert(spec_items(d, e1) =~= seq![spec_parse(d, e1)] + spec_items(d, e2));
    assert(spec_items(d, 0) =~= seq![spec_parse(d, 0)] + spec_items(d, e1));
}

/// After a record fails to parse, the failure is the last item: nothing
/// more is produced, whatever well-formed bytes follow in the stream.
pub proof fn lemma_failure_is_final(d: Seq<u8>, pos: int)
    requires
        0 <= pos <= d.len(),
        spec_parse(d, pos) is IoFail || spec_parse(d, pos) is Bad,
    ensures
        spec_items(d, pos) =~= seq![spec_parse(d, pos)],
{
}

/// A continuation line extends the pending field, and only that field:
/// the previous value and the trimmed continuation line are joined with
/// a newline, and the map built so far is untouched.
pub proof fn lemma_continuation_joins(
    d: Seq<u8>,
    pos: int,
    k: FieldKey,
    v: Seq<char>,
    acc: Map<FieldKey, Seq<char>>,
)
    requires
        0 <= pos <= d.len(),
        valid_utf8(d.subrange(pos, spec_line_end(d, pos))),
        decode_utf8(d.subrange(pos, spec_line_end(d, pos))) != "\r\n"@,
        rtrim_chars(decode_utf8(d.subrange(pos, spec_line_end(d, pos)))).len() > 0,
        rtrim_chars(decode_utf8(d.subrange(pos, spec_line_end(d, pos))))[0] == ' '
            || rtrim_chars(decode_utf8(d.subrange(pos, spec_line_end(d, pos))))[0] == '\t',
    ensures
        spec_parse_headers(d, pos, Some((k, v)), acc) == spec_parse_headers(
            d,
            spec_line_end(d, pos),
            Some(
                (
                    k,
                    v + "\n"@ + trim_chars(
                        rtrim_chars(decode_utf8(d.subrange(pos, spec_line_end(d, pos)))),
                    ),
                ),
            ),
            acc,
        ),
{
    lemma_line_end_bounds(d, pos);
}

/// A line that continues a pending field: not the block terminator, and
/// beginning (after trailing trim) with a space or tab.
pub open spec fn is_cont_line(d: Seq<u8>, pos: int) -> bool {
    let lb = d.subrange(pos, spec_line_end(d, pos));
    &&& valid_utf8(lb)
    &&& decode_utf8(lb) != "\r\n"@
    &&& rtrim_chars(decode_utf8(lb)).len() > 0
    &&& (rtrim_chars(decode_utf8(lb))[0] == ' ' || rtrim_chars(decode_utf8(lb))[0] == '\t')
}

/// The trimmed text of the continuation line at `pos`.
pub open spec fn cont_text(d: Seq<u8>, pos: int) -> Seq<char> {
    trim_chars(rtrim_chars(decode_utf8(d.subrange(pos, spec_line_end(d, pos)))))
}

/// `n` continuation lines in a row starting at `pos`.
pub open spec fn cont_run(d: Seq<u8>, pos: int, n: nat) -> bool
    decreases n,
{
    n == 0 || (0 <= pos <= d.len() && is_cont_line(d, pos) && cont_run(
        d,
        spec_line_end(d, pos),
        (n - 1) as nat,
    ))
}

/// The position just past `n` continuation lines starting at `pos`.
pub open spec fn cont_run_end(d: Seq<u8>, pos: int, n: nat) -> int
    decreases n,
{
    if n == 0 {
        pos
    } else {
        cont_run_end(d, spec_line_end(d, pos), (n - 1) as nat)
    }
}

/// `v` joined with the trimmed text of each of the `n` continuation
/// lines starting at `pos`, one newline before each.
pub open spec fn joined_value(d: Seq<u8>, pos: int, n: nat, v: Seq<char>) -> Seq<char>
    decreases n,
{
    if n == 0 {
        v
    } else {
        joined_value(d, spec_line_end(d, pos), (n - 1) as nat, v + "\n"@ + cont_text(d, pos))
    }
}

/// A header value may span any number of physical lines: across a run
/// of `n` continuation lines the pending field's value becomes the
/// previous value joined with each line's trimmed text by a newline,
/// the map built so far is untouched, and parsing resumes after the
/// run.
pub proof fn lemma_continuation_run(
    d: Seq<u8>,
    pos: int,
    n: nat,
    k: FieldKey,
    v: Seq<char>,
    acc: Map<FieldKey, Seq<char>>,
)
    requires
        0 <= pos <= d.len(),
        cont_run(d, pos, n),
    ensures
        spec_parse_headers(d, pos, Some((k, v)), acc) == spec_parse_headers(
            d,
            cont_run_end(d, pos, n),
            Some((k, joined_value(d, pos, n, v))),
            acc,
        ),
    decreases n,
{
    if n > 0 {
        lemma_line_end_bounds(d, pos);
        lemma_continuation_joins(d, pos, k, v, acc);
        lemma_continuation_run(
            d,
            spec_line_end(d, pos),
            (n - 1) as nat,
            k,
            v + "\n"@ + cont_text(d, pos),
            acc,
        );
    }
}

/// A header line that starts a field: not the terminator, not a
/// continuation, and holding a colon.
pub open spec fn is_field_line(d: Seq<u8>, pos: int) -> bool {
    let lb = d.subrange(pos, spec_line_end(d, pos));
    let t = rtrim_chars(decode_utf8(lb));
    &&& valid_utf8(lb)
    &&& decode_utf8(lb) != "\r\n"@
    &&& !(t.len() > 0 && (t[0] == ' ' || t[0] == '\t'))
    &&& first_colon(t, 0) < t.len()
}

/// The field name of the field line at `pos`.
pub open spec fn field_line_key(d: Seq<u8>, pos: int) -> FieldKey {
    let t = rtrim_chars(decode_utf8(d.subrange(pos, spec_line_end(d, pos))));
    normalize_key(rtrim_chars(t.take(first_colon(t, 0))))
}

/// The trimmed value text of the field line at `pos`.
pub open spec fn field_line_value(d: Seq<u8>, pos: int) -> Seq<char> {
    let t = rtrim_chars(decode_utf8(d.subrange(pos, spec_line_end(d, pos))));
    trim_chars(t.skip(first_colon(t, 0) + 1))
}

/// A field line followed by any number of continuation lines parses to
/// a single pending value: the field's trimmed value joined with each
/// trimmed continuation line by a newline.  The block then goes on
/// after the run, with the previously pending field flushed.
pub proof fn lemma_multiline_value(
    d: Seq<u8>,
    pos: int,
    n: nat,
    pending: Option<(FieldKey, Seq<char>)>,
    acc: Map<FieldKey, Seq<char>>,
)
    requires
        0 <= pos <= d.len(),
        is_field_line(d, pos),
        cont_run(d, spec_line_end(d, pos), n),
    ensures
        spec_parse_headers(d, pos, pending, acc) == spec_parse_headers(
            d,
            cont_run_end(d, spec_line_end(d, pos), n),
            Some(
                (
                    field_line_key(d, pos),
                    joined_value(d, spec_line_end(d, pos), n, field_line_value(d, pos)),
                ),
            ),
            flush_pending(pending, acc),
        ),
{
    lemma_line_end_bounds(d, pos);
    lemma_continuation_run(
        d,
        spec_line_end(d, pos),
        n,
        field_line_key(d, pos),
        field_line_value(d, pos),
        flush_pending(pending, acc),
    );
}

/// A pull-based producer of records.
///
/// The reader yields a lazy, finite, not restartable sequence of
/// records or failures.  Once a parse fails with anything but the
/// graceful end of the stream, the reader stays failed: the error is
/// surfaced exactly once and every later pull yields nothing.
pub struct Reader {
    /// The byte stream.
    pub data: Vec<u8>,
    /// The cursor: the position where the next record would start.
    pub pos: usize,
    /// False once a non-graceful failure has been surfaced.
    pub valid_state: bool,
}

impl Reader {
    /// The cursor never leaves the stream.
    pub open spec fn wf(&self) -> bool {
        self.pos <= self.data@.len()
    }

    /// A fresh reader over the given byte stream.
    pub fn new(data: Vec<u8>) -> (r: Reader)
        ensures
            r.data@ == data@,
            r.pos == 0,
            r.valid_state,
            r.wf(),
    {
        Reader { data, pos: 0, valid_state: true }
    }

    /// Pulls the next record.
    ///
    /// Yields `None` at the graceful end of the stream, and forever
    /// after the first surfaced failure; otherwise one record or the
    /// failure that ended the stream.
    pub fn next(&mut self) -> (r: Option<Result<Record, ReaderError>>)
        requires
            old(self).wf(),
        ensures
            final(self).wf(),
            final(self).data@ == old(self).data@,
            !old(self).valid_state ==> r is None && *final(self) == *old(self),
            old(self).valid_state ==> match spec_parse(old(self).data@, old(self).pos as int) {
                ParseOutcome::StreamEnd => r is None && final(self).valid_state
                    && final(self).pos == old(self).pos,
                ParseOutcome::IoFail => (r matches Some(e) && e matches Err(ReaderError::IO))
                    && !final(self).valid_state,
                ParseOutcome::Bad(m) => (r matches Some(e) && e matches Err(
                    ReaderError::Malformed(s),
                ) && s@ == m) && !final(self).valid_state,
                ParseOutcome::Parsed { version, headers, content, content_length, end } => (
                r matches Some(e) && e matches Ok(rec) && rec.version@ == version && rec.header@
                    == headers && rec.header.wf() && rec.content@ == content && rec.content_length
                    == content_length && rec.content@.len() == content_length)
                    && final(self).valid_state && final(self).pos == end,
            },
    {
        if !self.valid_state {
            return None;
        }
        let mut p = self.pos;
        let res = parse_record(&self.data, &mut p);
        self.pos = p;
        match res {
            Ok(item) => Some(Ok(item)),
            Err(ReaderError::EOF) => None,
            Err(e) => {
                self.valid_state = false;
                Some(Err(e))
            },
        }
    }
}

} // verus!
