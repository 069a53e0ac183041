//! HTTP/1.1 framing over a growing byte buffer: serializing requests and
//! incrementally parsing responses, including `Content-Length` bodies and
//! single-chunk `chunked` transfer-encoding.
//!
//! The parser is a pure function of the bytes accumulated so far; the caller
//! appends whatever a socket read produced and asks again. No byte that has
//! been scanned is ever discarded or reordered.

use vstd::prelude::*;
use vstd::string::StringSliceAdditionalSpecFns;
use vstd::string::StringExecFns;
use crate::ascii::{
    all_dec_digits, all_hex_digits, dec_value, eq_ignore_case, hex_value, is_dec_digit,
    bytes_eq_ignore_case, parse_dec_usize, parse_hex_usize,
};
use crate::error::{DockerError, ErrorView};

verus! {

/// A CRLF pair starts at position `i` of `s`.
pub open spec fn crlf_at(s: Seq<u8>, i: int) -> bool {
    0 <= i && i + 2 <= s.len() && s[i] == 13 && s[i + 1] == 10
}

/// The position of the first CRLF pair in `s`, if any.
pub open spec fn find_crlf(s: Seq<u8>) -> Option<int>
    decreases s.len(),
{
    if s.len() < 2 {
        None
    } else if s[0] == 13 && s[1] == 10 {
        Some(0)
    } else {
        match find_crlf(s.drop_first()) {
            Some(i) => Some(i + 1),
            None => None,
        }
    }
}

pub proof fn lemma_find_crlf_some(s: Seq<u8>, i: int)
    requires
        crlf_at(s, i),
        forall|j: int| 0 <= j < i ==> !crlf_at(s, j),
    ensures
        find_crlf(s) == Some(i),
    decreases s.len(),
{
    if i == 0 {
    } else {
        assert(!crlf_at(s, 0));
        let t = s.drop_first();
        assert(crlf_at(t, i - 1));
        assert(forall|j: int| 0 <= j < i - 1 ==> crlf_at(t, j) ==> crlf_at(s, j + 1));
        lemma_find_crlf_some(t, i - 1);
    }
}

pub proof fn lemma_find_crlf_none(s: Seq<u8>)
    requires
        forall|j: int| 0 <= j ==> !crlf_at(s, j),
    ensures
        find_crlf(s) is None,
    decreases s.len(),
{
    if s.len() >= 2 {
        assert(!crlf_at(s, 0));
        let t = s.drop_first();
        assert(forall|j: int| 0 <= j ==> crlf_at(t, j) ==> crlf_at(s, j + 1));
        lemma_find_crlf_none(t);
    }
}

pub proof fn lemma_find_crlf_props(s: Seq<u8>)
    ensures
        match find_crlf(s) {
            Some(i) => crlf_at(s, i) && forall|j: int| 0 <= j < i ==> !crlf_at(s, j),
            None => forall|j: int| 0 <= j ==> !crlf_at(s, j),
        },
    decreases s.len(),
{
    if s.len() < 2 {
    } else if s[0] == 13 && s[1] == 10 {
    } else {
        let t = s.drop_first();
        lemma_find_crlf_props(t);
        match find_crlf(t) {
            Some(i) => {
                assert(crlf_at(s, i + 1));
                assert forall|j: int| 0 <= j < i + 1 implies !crlf_at(s, j) by {
                    if j > 0 && crlf_at(s, j) {
                        assert(crlf_at(t, j - 1));
                    }
                }
            },
            None => {
                assert forall|j: int| 0 <= j implies !crlf_at(s, j) by {
                    if j > 0 && crlf_at(s, j) {
                        assert(crlf_at(t, j - 1));
                    }
                }
            },
        }
    }
}

/// Scans `buf` from `start` for the first CRLF pair.
pub fn find_crlf_from(buf: &[u8], start: usize) -> (r: Option<usize>)
    requires
        start <= buf@.len(),
    ensures
        match r {
            Some(i) => start <= i && find_crlf(buf@.skip(start as int)) == Some(i - start),
            None => find_crlf(buf@.skip(start as int)) is None,
        },
{
    let ghost t = buf@.skip(start as int);
    let mut j: usize = start;
    while j < buf.len() && j + 1 < buf.len()
        invariant
            start <= j <= buf@.len(),
            t == buf@.skip(start as int),
            forall|k: int| 0 <= k < j - start ==> !crlf_at(t, k),
        decreases buf@.len() - j,
    {
        if buf[j] == 13 && buf[j + 1] == 10 {
            proof {
                assert(t[j - start] == buf@[j as int]);
                assert(t[j - start + 1] == buf@[j + 1]);
                assert(crlf_at(t, j - start));
                lemma_find_crlf_some(t, j - start);
            }
            return Some(j);
        }
        proof {
            assert(t[j - start] == buf@[j as int]);
            if j + 1 < buf@.len() {
                assert(t[j - start + 1] == buf@[j + 1]);
            }
            assert(!crlf_at(t, j - start));
        }
        j += 1;
    }
    proof {
        assert forall|k: int| 0 <= k implies !crlf_at(t, k) by {
            if k + 2 <= t.len() {
                assert(t[k] == buf@[start + k]);
                assert(t[k + 1] == buf@[start + k + 1]);
            }
        }
        lemma_find_crlf_none(t);
    }
    None
}

/// The position of the first occurrence of `b` in `s`, if any.
pub open spec fn find_byte(s: Seq<u8>, b: u8) -> Option<int>
    decreases s.len(),
{
    if s.len() == 0 {
        None
    } else if s[0] == b {
        Some(0)
    } else {
        match find_byte(s.drop_first(), b) {
            Some(i) => Some(i + 1),
            None => None,
        }
    }
}

pub proof fn lemma_find_byte_props(s: Seq<u8>, b: u8)
    ensures
        match find_byte(s, b) {
            Some(i) => 0 <= i < s.len() && s[i] == b && forall|j: int| 0 <= j < i ==> s[j] != b,
            None => forall|j: int| 0 <= j < s.len() ==> s[j] != b,
        },
    decreases s.len(),
{
    if s.len() == 0 {
    } else if s[0] == b {
    } else {
        let t = s.drop_first();
        lemma_find_byte_props(t, b);
        match find_byte(t, b) {
            Some(i) => {
                assert(s[i + 1] == t[i]);
                assert forall|j: int| 0 <= j < i + 1 implies s[j] != b by {
                    if j > 0 {
                        assert(t[j - 1] == s[j]);
                    }
                }
            },
            None => {
                assert forall|j: int| 0 <= j < s.len() implies s[j] != b by {
                    if j > 0 {
                        assert(t[j - 1] == s[j]);
                    }
                }
            },
        }
    }
}

pub proof fn lemma_find_byte_some(s: Seq<u8>, b: u8, i: int)
    requires
        0 <= i < s.len(),
        s[i] == b,
        forall|j: int| 0 <= j < i ==> s[j] != b,
    ensures
        find_byte(s, b) == Some(i),
    decreases s.len(),
{
    if i > 0 {
        lemma_find_byte_some(s.drop_first(), b, i - 1);
    }
}

pub proof fn lemma_find_byte_none(s: Seq<u8>, b: u8)
    requires
        forall|j: int| 0 <= j < s.len() ==> s[j] != b,
    ensures
        find_byte(s, b) is None,
    decreases s.len(),
{
    if s.len() > 0 {
        lemma_find_byte_none(s.drop_first(), b);
    }
}

/// Scans a slice for the first occurrence of a byte.
pub fn find_byte_in(buf: &[u8], b: u8) -> (r: Option<usize>)
    ensures
        match r {
            Some(i) => find_byte(buf@, b) == Some(i as int),
            None => find_byte(buf@, b) is None,
        },
{
    let mut j: usize = 0;
    while j < buf.len()
        invariant
            0 <= j <= buf@.len(),
            forall|k: int| 0 <= k < j ==> buf@[k] != b,
        decreases buf@.len() - j,
    {
        if buf[j] == b {
            proof {
                lemma_find_byte_some(buf@, b, j as int);
            }
            return Some(j);
        }
        j += 1;
    }
    proof {
        lemma_find_byte_none(buf@, b);
    }
    None
}

/// `p` is a prefix of `s`.
pub open spec fn starts_with(s: Seq<u8>, p: Seq<u8>) -> bool {
    p.len() <= s.len() && s.subrange(0, p.len() as int) == p
}

/// Compares a prefix of `buf` against `p`.
pub fn bytes_starts_with(buf: &[u8], p: &[u8]) -> (r: bool)
    ensures
        r == starts_with(buf@, p@),
{
    if p.len() > buf.len() {
        return false;
    }
    let mut i: usize = 0;
    while i < p.len()
        invariant
            0 <= i <= p@.len() <= buf@.len(),
            forall|j: int| 0 <= j < i ==> buf@[j] == p@[j],
        decreases p@.len() - i,
    {
        if buf[i] != p[i] {
            proof {
                assert(buf@.subrange(0, p@.len() as int)[i as int] != p@[i as int]);
            }
            return false;
        }
        i += 1;
    }
    proof {
        assert(buf@.subrange(0, p@.len() as int) =~= p@);
    }
    true
}

/// A status line `HTTP/1.x code [reason]`, parsed into the numeric code and
/// the reason text. Codes below 100 are rejected, as are lines whose shape
/// differs in any way.
pub open spec fn parse_status_line(l: Seq<u8>) -> Option<(u16, Seq<u8>)> {
    if l.len() < 12 {
        None
    } else if !starts_with(l, "HTTP/1.".spec_bytes()) {
        None
    } else if !is_dec_digit(l[7]) {
        None
    } else if l[8] != 32 {
        None
    } else if !(is_dec_digit(l[9]) && is_dec_digit(l[10]) && is_dec_digit(l[11])) {
        None
    } else {
        let code = (l[9] - 48) * 100 + (l[10] - 48) * 10 + (l[11] - 48);
        if code < 100 {
            None
        } else if l.len() == 12 {
            Some((code as u16, Seq::<u8>::empty()))
        } else if l[12] == 32 {
            Some((code as u16, l.skip(13)))
        } else {
            None
        }
    }
}

/// Parses a status line; `None` means the framing is malformed.
pub fn parse_status_line_exec(l: &[u8]) -> (r: Option<(u16, Vec<u8>)>)
    ensures
        r is Some <==> parse_status_line(l@) is Some,
        r matches Some((c, reason)) ==> parse_status_line(l@) == Some((c, reason@)),
{
    if l.len() < 12 {
        return None;
    }
    if !bytes_starts_with(l, "HTTP/1.".as_bytes()) {
        return None;
    }
    if !(48 <= l[7] && l[7] <= 57) {
        return None;
    }
    if l[8] != 32 {
        return None;
    }
    let d1 = l[9];
    let d2 = l[10];
    let d3 = l[11];
    if !(48 <= d1 && d1 <= 57 && 48 <= d2 && d2 <= 57 && 48 <= d3 && d3 <= 57) {
        return None;
    }
    let code: u16 = ((d1 - 48) as u16) * 100 + ((d2 - 48) as u16) * 10 + ((d3 - 48) as u16);
    if code < 100 {
        return None;
    }
    if l.len() == 12 {
        Some((code, Vec::new()))
    } else if l[12] == 32 {
        let reason = vstd::slice::slice_to_vec(vstd::slice::slice_subrange(l, 13, l.len()));
        proof {
            assert(l@.subrange(13, l@.len() as int) =~= l@.skip(13));
        }
        Some((code, reason))
    } else {
        None
    }
}

/// Leading ASCII spaces and tabs removed.
pub open spec fn skip_ws(s: Seq<u8>) -> Seq<u8>
    decreases s.len(),
{
    if s.len() > 0 && (s[0] == 32 || s[0] == 9) {
        skip_ws(s.drop_first())
    } else {
        s
    }
}

proof fn lemma_skip_ws_at(s: Seq<u8>, k: int)
    requires
        0 <= k <= s.len(),
        forall|j: int| 0 <= j < k ==> s[j] == 32 || s[j] == 9,
        k == s.len() || !(s[k] == 32 || s[k] == 9),
    ensures
        skip_ws(s) == s.skip(k),
    decreases s.len(),
{
    if k == 0 {
        assert(s.skip(0) =~= s);
    } else {
        let t = s.drop_first();
        assert(forall|j: int| 0 <= j < k - 1 ==> t[j] == s[j + 1]);
        lemma_skip_ws_at(t, k - 1);
        assert(t.skip(k - 1) =~= s.skip(k));
    }
}

/// A header line `name: value`, parsed into the name and the value with
/// leading whitespace removed. The name must be non-empty.
pub open spec fn parse_header_line(l: Seq<u8>) -> Option<(Seq<u8>, Seq<u8>)> {
    match find_byte(l, 58) {
        None => None,
        Some(i) => if i == 0 {
            None
        } else {
            Some((l.take(i), skip_ws(l.skip(i + 1))))
        },
    }
}

/// Parses one header line; `None` means the framing is malformed.
pub fn parse_header_line_exec(l: &[u8]) -> (r: Option<(Vec<u8>, Vec<u8>)>)
    ensures
        r is Some <==> parse_header_line(l@) is Some,
        r matches Some((n, v)) ==> parse_header_line(l@) == Some((n@, v@)),
{
    let i = match find_byte_in(l, 58) {
        None => {
            return None;
        },
        Some(i) => i,
    };
    if i == 0 {
        return None;
    }
    let n = l.len();
    proof {
        lemma_find_byte_props(l@, 58);
        assert(i < n);
    }
    let name = vstd::slice::slice_to_vec(vstd::slice::slice_subrange(l, 0, i));
    let mut j: usize = i + 1;
    while j < l.len() && (l[j] == 32 || l[j] == 9)
        invariant
            i + 1 <= j <= l@.len(),
            forall|k: int| i + 1 <= k < j ==> l@[k] == 32 || l@[k] == 9,
        decreases l@.len() - j,
    {
        j += 1;
    }
    let value = vstd::slice::slice_to_vec(vstd::slice::slice_subrange(l, j, l.len()));
    proof {
        let rest = l@.skip(i + 1);
        assert(forall|k: int| 0 <= k < j - (i + 1) ==> rest[k] == l@[k + i + 1]);
        if (j as int) - (i as int + 1) < rest.len() {
            assert(rest[j - (i + 1)] == l@[j as int]);
        }
        lemma_skip_ws_at(rest, j - (i + 1));
        assert(rest.skip(j - (i + 1)) =~= l@.subrange(j as int, l@.len() as int));
        assert(l@.take(i as int) =~= l@.subrange(0, i as int));
    }
    Some((name, value))
}

/// One parsed response header.
pub struct Header {
    pub name: Vec<u8>,
    pub value: Vec<u8>,
}

/// Headers as pairs of byte strings.
pub open spec fn headers_view(hs: Seq<Header>) -> Seq<(Seq<u8>, Seq<u8>)> {
    hs.map(|i: int, h: Header| (h.name@, h.value@))
}

/// The value of the first header whose name matches up to ASCII case.
pub open spec fn header_value(hs: Seq<(Seq<u8>, Seq<u8>)>, name: Seq<u8>) -> Option<Seq<u8>>
    decreases hs.len(),
{
    if hs.len() == 0 {
        None
    } else if eq_ignore_case(hs[0].0, name) {
        Some(hs[0].1)
    } else {
        header_value(hs.drop_first(), name)
    }
}

/// Looks up a header by name, ignoring ASCII case.
pub fn get_header_value<'a>(hs: &'a Vec<Header>, name: &[u8]) -> (r: Option<&'a Vec<u8>>)
    ensures
        match r {
            Some(v) => header_value(headers_view(hs@), name@) == Some(v@),
            None => header_value(headers_view(hs@), name@) is None,
        },
{
    let ghost full = headers_view(hs@);
    proof {
        assert(full.skip(0) =~= full);
    }
    let mut i: usize = 0;
    while i < hs.len()
        invariant
            0 <= i <= hs@.len(),
            full == headers_view(hs@),
            header_value(full, name@) == header_value(full.skip(i as int), name@),
        decreases hs@.len() - i,
    {
        if bytes_eq_ignore_case(hs[i].name.as_slice(), name) {
            proof {
                assert(full.skip(i as int)[0] == (hs@[i as int].name@, hs@[i as int].value@));
            }
            return Some(&hs[i].value);
        }
        proof {
            assert(full.skip(i as int)[0] == (hs@[i as int].name@, hs@[i as int].value@));
            assert(full.skip(i as int).drop_first() =~= full.skip(i + 1));
        }
        i += 1;
    }
    proof {
        assert(full.skip(i as int).len() == 0);
    }
    None
}

/// Outcome of parsing the header block that follows the status line:
/// more bytes are needed, a line is malformed, or the block is complete
/// with its parsed headers and the number of bytes it occupies.
pub enum BlockOutcome {
    Incomplete,
    Malformed,
    Complete(Seq<(Seq<u8>, Seq<u8>)>, int),
}

/// Parses header lines until the empty line that ends the head.
pub open spec fn parse_header_block(s: Seq<u8>) -> BlockOutcome
    decreases s.len(),
    via parse_header_block_decreases
{
    match find_crlf(s) {
        None => BlockOutcome::Incomplete,
        Some(i) => {
            if i == 0 {
                BlockOutcome::Complete(Seq::empty(), 2)
            } else {
                match parse_header_line(s.take(i)) {
                    None => BlockOutcome::Malformed,
                    Some(h) => match parse_header_block(s.skip(i + 2)) {
                        BlockOutcome::Incomplete => BlockOutcome::Incomplete,
                        BlockOutcome::Malformed => BlockOutcome::Malformed,
                        BlockOutcome::Complete(hs, n) => BlockOutcome::Complete(
                            seq![h] + hs,
                            i + 2 + n,
                        ),
                    },
                }
            }
        },
    }
}

#[via_fn]
proof fn parse_header_block_decreases(s: Seq<u8>) {
    lemma_find_crlf_props(s);
}

/// Outcome of parsing a response head: more bytes are needed, the framing is
/// malformed (with a description), or the head is complete.
pub enum HeadOutcome {
    Incomplete,
    Malformed(Seq<char>),
    Complete(HeadView),
}

/// A complete response head: status code, reason text, headers, and the
/// number of bytes the head occupies including its final empty line.
pub struct HeadView {
    pub code: u16,
    pub reason: Seq<u8>,
    pub headers: Seq<(Seq<u8>, Seq<u8>)>,
    pub head_len: int,
}

/// Parses a response head from the start of `s`.
pub open spec fn parse_head(s: Seq<u8>) -> HeadOutcome {
    match find_crlf(s) {
        None => HeadOutcome::Incomplete,
        Some(i) => match parse_status_line(s.take(i)) {
            None => HeadOutcome::Malformed("malformed status line"@),
            Some((code, reason)) => match parse_header_block(s.skip(i + 2)) {
                BlockOutcome::Incomplete => HeadOutcome::Incomplete,
                BlockOutcome::Malformed => HeadOutcome::Malformed("malformed header line"@),
                BlockOutcome::Complete(hs, n) => HeadOutcome::Complete(
                    HeadView { code, reason, headers: hs, head_len: i + 2 + n },
                ),
            },
        },
    }
}

/// A complete response head in executable form.
pub struct ResponseHead {
    pub code: u16,
    pub reason: Vec<u8>,
    pub headers: Vec<Header>,
    pub head_len: usize,
}

impl ResponseHead {
    /// The mathematical value of this head.
    pub open spec fn view_head(&self) -> HeadView {
        HeadView {
            code: self.code,
            reason: self.reason@,
            headers: headers_view(self.headers@),
            head_len: self.head_len as int,
        }
    }
}

/// Executable outcome of parsing a response head.
pub enum HeadStep {
    Incomplete,
    Malformed(String),
    Complete(ResponseHead),
}

proof fn lemma_headers_view_push(hs: Seq<Header>, h: Header)
    ensures
        headers_view(hs.push(h)) =~= headers_view(hs) + seq![(h.name@, h.value@)],
{
}

/// Parses a response head from the accumulated buffer.
pub fn parse_head_exec(buf: &[u8]) -> (r: HeadStep)
    ensures
        r is Incomplete <==> parse_head(buf@) is Incomplete,
        r is Malformed <==> parse_head(buf@) is Malformed,
        r is Complete <==> parse_head(buf@) is Complete,
        r matches HeadStep::Malformed(m) ==> (parse_head(buf@) matches HeadOutcome::Malformed(sm)
            && m@ == sm),
        r matches HeadStep::Complete(h) ==> (parse_head(buf@) matches HeadOutcome::Complete(hv)
            && h.view_head() == hv),
{
    proof {
        assert(buf@.skip(0) =~= buf@);
    }
    let i = match find_crlf_from(buf, 0) {
        None => {
            return HeadStep::Incomplete;
        },
        Some(i) => i,
    };
    let blen = buf.len();
    proof {
        lemma_find_crlf_props(buf@);
        assert(i + 2 <= blen);
        assert(buf@.subrange(0, i as int) =~= buf@.take(i as int));
    }
    let status = parse_status_line_exec(vstd::slice::slice_subrange(buf, 0, i));
    let (code, reason) = match status {
        None => {
            return HeadStep::Malformed(String::from_str("malformed status line"));
        },
        Some(p) => p,
    };
    let ghost start = i + 2;
    let mut pos: usize = i + 2;
    let mut headers: Vec<Header> = Vec::new();
    proof {
        assert(headers_view(headers@) =~= Seq::<(Seq<u8>, Seq<u8>)>::empty());
    }
    loop
        invariant
            start == i + 2,
            blen == buf@.len(),
            i + 2 <= pos <= buf@.len(),
            crlf_at(buf@, i as int),
            find_crlf(buf@) == Some(i as int),
            parse_status_line(buf@.take(i as int)) == Some((code, reason@)),
            parse_header_block(buf@.skip(start)) == (match parse_header_block(
                buf@.skip(pos as int),
            ) {
                BlockOutcome::Incomplete => BlockOutcome::Incomplete,
                BlockOutcome::Malformed => BlockOutcome::Malformed,
                BlockOutcome::Complete(hs, n) => BlockOutcome::Complete(
                    headers_view(headers@) + hs,
                    (pos - start) + n,
                ),
            }),
        decreases buf@.len() - pos,
    {
        let j = match find_crlf_from(buf, pos) {
            None => {
                return HeadStep::Incomplete;
            },
            Some(j) => j,
        };
        proof {
            lemma_find_crlf_props(buf@.skip(pos as int));
            assert(crlf_at(buf@.skip(pos as int), j - pos));
            assert(j + 2 <= buf@.len());
        }
        if j == pos {
            let head_len = j + 2;
            proof {
                assert(parse_header_block(buf@.skip(pos as int)) == BlockOutcome::Complete(
                    Seq::<(Seq<u8>, Seq<u8>)>::empty(),
                    2,
                ));
                assert(headers_view(headers@) + Seq::<(Seq<u8>, Seq<u8>)>::empty()
                    =~= headers_view(headers@));
            }
            return HeadStep::Complete(
                ResponseHead { code, reason, headers, head_len },
            );
        }
        proof {
            assert(buf@.skip(pos as int).take(j - pos) =~= buf@.subrange(pos as int, j as int));
        }
        let line = vstd::slice::slice_subrange(buf, pos, j);
        let parsed = parse_header_line_exec(line);
        match parsed {
            None => {
                return HeadStep::Malformed(String::from_str("malformed header line"));
            },
            Some((n, v)) => {
                let ghost old_headers = headers@;
                let ghost h = Header { name: n, value: v };
                headers.push(Header { name: n, value: v });
                proof {
                    lemma_headers_view_push(old_headers, h);
                    assert(buf@.skip(pos as int).skip(j - pos + 2) =~= buf@.skip(j + 2));
                    let rest = parse_header_block(buf@.skip(j + 2));
                    if let BlockOutcome::Complete(hs, nn) = rest {
                        assert((headers_view(old_headers) + seq![(h.name@, h.value@)]) + hs
                            =~= headers_view(old_headers) + (seq![(h.name@, h.value@)] + hs));
                    }
                }
                pos = j + 2;
            },
        }
    }
}

proof fn lemma_block_consumed(s: Seq<u8>)
    ensures
        parse_header_block(s) matches BlockOutcome::Complete(hs, n) ==> 2 <= n <= s.len(),
    decreases s.len(),
{
    lemma_find_crlf_props(s);
    match find_crlf(s) {
        Some(i) => {
            if i != 0 {
                match parse_header_line(s.take(i)) {
                    Some(h) => {
                        lemma_block_consumed(s.skip(i + 2));
                    },
                    None => {},
                }
            }
        },
        None => {},
    }
}

/// A complete head never claims more bytes than the buffer holds.
pub proof fn lemma_head_len_bounds(s: Seq<u8>)
    ensures
        parse_head(s) matches HeadOutcome::Complete(h) ==> 2 <= h.head_len <= s.len(),
{
    lemma_find_crlf_props(s);
    match find_crlf(s) {
        Some(i) => {
            lemma_block_consumed(s.skip(i + 2));
        },
        None => {},
    }
}

/// A completely parsed response: status code and reason, the declared
/// content type, the body if one was framed, the length of the head, and
/// the total number of bytes consumed.
pub struct SpecResponse {
    pub code: u16,
    pub reason: Seq<u8>,
    pub content_type: Option<Seq<u8>>,
    pub body: Option<Seq<u8>>,
    pub head_len: int,
    pub total: int,
}

/// Outcome of parsing a whole response from the bytes accumulated so far.
pub enum RespOutcome {
    Incomplete,
    Malformed(Seq<char>),
    Complete(SpecResponse),
}

/// The body of a chunked response: one chunk-size line in hex, then exactly
/// that many payload bytes. The engine emits its JSON responses as a single
/// chunk; anything beyond the first chunk is deliberately not decoded.
pub open spec fn parse_chunked(s: Seq<u8>, h: HeadView, ct: Option<Seq<u8>>) -> RespOutcome {
    let t = s.skip(h.head_len);
    match find_crlf(t) {
        None => RespOutcome::Incomplete,
        Some(i) => {
            let line = t.take(i);
            if line.len() > 0 && all_hex_digits(line) && hex_value(line) <= usize::MAX {
                let n = hex_value(line);
                if h.head_len + i + 2 + n <= s.len() {
                    RespOutcome::Complete(
                        SpecResponse {
                            code: h.code,
                            reason: h.reason,
                            content_type: ct,
                            body: Some(s.subrange(h.head_len + i + 2, h.head_len + i + 2 + n)),
                            head_len: h.head_len,
                            total: h.head_len + i + 2 + n,
                        },
                    )
                } else {
                    RespOutcome::Incomplete
                }
            } else {
                RespOutcome::Malformed("malformed chunk size"@)
            }
        },
    }
}

/// Parses a response from the bytes accumulated so far. The body is framed
/// by `Content-Length` when that header carries a positive value, by chunked
/// transfer-encoding when declared, and is absent otherwise.
pub open spec fn parse_response_spec(s: Seq<u8>) -> RespOutcome {
    match parse_head(s) {
        HeadOutcome::Incomplete => RespOutcome::Incomplete,
        HeadOutcome::Malformed(m) => RespOutcome::Malformed(m),
        HeadOutcome::Complete(h) => {
            let ct = header_value(h.headers, "content-type".spec_bytes());
            match header_value(h.headers, "content-length".spec_bytes()) {
                Some(v) => {
                    if !(v.len() > 0 && all_dec_digits(v) && dec_value(v) <= usize::MAX) {
                        RespOutcome::Malformed("malformed content-length"@)
                    } else if dec_value(v) > 0 {
                        let n = dec_value(v);
                        if h.head_len + n <= s.len() {
                            RespOutcome::Complete(
                                SpecResponse {
                                    code: h.code,
                                    reason: h.reason,
                                    content_type: ct,
                                    body: Some(s.subrange(h.head_len, h.head_len + n)),
                                    head_len: h.head_len,
                                    total: h.head_len + n,
                                },
                            )
                        } else {
                            RespOutcome::Incomplete
                        }
                    } else {
                        parse_response_unsized(s, h, ct)
                    }
                },
                None => parse_response_unsized(s, h, ct),
            }
        },
    }
}

/// Body resolution when no positive `Content-Length` is present: chunked
/// transfer-encoding, or no body at all.
pub open spec fn parse_response_unsized(s: Seq<u8>, h: HeadView, ct: Option<Seq<u8>>) -> RespOutcome {
    if header_value(h.headers, "transfer-encoding".spec_bytes()) matches Some(v)
        && eq_ignore_case(v, "chunked".spec_bytes()) {
        parse_chunked(s, h, ct)
    } else {
        RespOutcome::Complete(
            SpecResponse {
                code: h.code,
                reason: h.reason,
                content_type: ct,
                body: None,
                head_len: h.head_len,
                total: h.head_len,
            },
        )
    }
}

/// A completely parsed response in executable form.
pub struct Response {
    pub code: u16,
    pub reason: Vec<u8>,
    pub content_type: Option<Vec<u8>>,
    pub body: Option<Vec<u8>>,
    pub head_len: usize,
    pub total: usize,
}

pub open spec fn opt_bytes(o: Option<Vec<u8>>) -> Option<Seq<u8>> {
    match o {
        Some(v) => Some(v@),
        None => None,
    }
}

impl View for Response {
    type V = SpecResponse;

    open spec fn view(&self) -> SpecResponse {
        SpecResponse {
            code: self.code,
            reason: self.reason@,
            content_type: opt_bytes(self.content_type),
            body: opt_bytes(self.body),
            head_len: self.head_len as int,
            total: self.total as int,
        }
    }
}

/// One step of incremental response parsing.
pub enum ParseStep {
    /// The bytes so far do not yet hold a whole response.
    Incomplete,
    /// The framing is malformed; no further bytes can repair it.
    Failed(DockerError),
    /// A whole response has arrived.
    Complete(Response),
}

/// `r` is the executable rendering of the outcome `o`.
pub open spec fn step_matches(r: ParseStep, o: RespOutcome) -> bool {
    match r {
        ParseStep::Incomplete => o is Incomplete,
        ParseStep::Failed(e) => o matches RespOutcome::Malformed(m) && e@ == ErrorView::Http(m),
        ParseStep::Complete(resp) => o matches RespOutcome::Complete(sr) && resp@ == sr,
    }
}

/// Parses a response from the accumulated buffer.
pub fn parse_response(buf: &[u8]) -> (r: ParseStep)
    ensures
        step_matches(r, parse_response_spec(buf@)),
{
    let head = match parse_head_exec(buf) {
        HeadStep::Incomplete => {
            return ParseStep::Incomplete;
        },
        HeadStep::Malformed(m) => {
            return ParseStep::Failed(DockerError::HttpError(m));
        },
        HeadStep::Complete(h) => h,
    };
    proof {
        lemma_head_len_bounds(buf@);
    }
    let ghost hv = head.view_head();
    let ct: Option<Vec<u8>> = match get_header_value(&head.headers, "content-type".as_bytes()) {
        Some(v) => Some(vstd::slice::slice_to_vec(v.as_slice())),
        None => None,
    };
    let cl = get_header_value(&head.headers, "content-length".as_bytes());
    let n: usize = match cl {
        Some(v) => match parse_dec_usize(v.as_slice()) {
            Some(n) => n,
            None => {
                return ParseStep::Failed(
                    DockerError::HttpError(String::from_str("malformed content-length")),
                );
            },
        },
        None => 0,
    };
    if n > 0 {
        if n <= buf.len() - head.head_len {
            let body = vstd::slice::slice_to_vec(
                vstd::slice::slice_subrange(buf, head.head_len, head.head_len + n),
            );
            let total = head.head_len + n;
            return ParseStep::Complete(
                Response {
                    code: head.code,
                    reason: head.reason,
                    content_type: ct,
                    body: Some(body),
                    head_len: head.head_len,
                    total,
                },
            );
        } else {
            return ParseStep::Incomplete;
        }
    }
    let chunked = match get_header_value(&head.headers, "transfer-encoding".as_bytes()) {
        Some(v) => bytes_eq_ignore_case(v.as_slice(), "chunked".as_bytes()),
        None => false,
    };
    if !chunked {
        return ParseStep::Complete(
            Response {
                code: head.code,
                reason: head.reason,
                content_type: ct,
                body: None,
                head_len: head.head_len,
                total: head.head_len,
            },
        );
    }
    let j = match find_crlf_from(buf, head.head_len) {
        None => {
            return ParseStep::Incomplete;
        },
        Some(j) => j,
    };
    let blen = buf.len();
    proof {
        lemma_find_crlf_props(buf@.skip(hv.head_len));
        assert(crlf_at(buf@.skip(hv.head_len), j - hv.head_len));
        assert(j + 2 <= blen);
        assert(buf@.skip(hv.head_len).take(j - hv.head_len) =~= buf@.subrange(
            hv.head_len,
            j as int,
        ));
    }
    let line = vstd::slice::slice_subrange(buf, head.head_len, j);
    let sz = match parse_hex_usize(line) {
        None => {
            return ParseStep::Failed(
                DockerError::HttpError(String::from_str("malformed chunk size")),
            );
        },
        Some(sz) => sz,
    };
    let start = j + 2;
    if sz <= buf.len() - start {
        let body = vstd::slice::slice_to_vec(vstd::slice::slice_subrange(buf, start, start + sz));
        return ParseStep::Complete(
            Response {
                code: head.code,
                reason: head.reason,
                content_type: ct,
                body: Some(body),
                head_len: head.head_len,
                total: start + sz,
            },
        );
    } else {
        return ParseStep::Incomplete;
    }
}

/// Accumulates socket reads and re-parses after each: the outcome is a
/// function of the concatenation of everything fed so far, never of how the
/// bytes were split across reads.
pub struct ResponseReader {
    buf: Vec<u8>,
}

impl ResponseReader {
    /// All bytes fed so far.
    pub closed spec fn bytes(&self) -> Seq<u8> {
        self.buf@
    }

    pub fn new() -> (r: Self)
        ensures
            r.bytes() == Seq::<u8>::empty(),
    {
        ResponseReader { buf: Vec::new() }
    }

    /// Appends one socket read's worth of bytes and re-parses.
    pub fn feed(&mut self, chunk: &[u8]) -> (r: ParseStep)
        ensures
            final(self).bytes() == old(self).bytes() + chunk@,
            step_matches(r, parse_response_spec(final(self).bytes())),
    {
        crate::ascii::append_bytes(&mut self.buf, chunk);
        parse_response(self.buf.as_slice())
    }

    /// The bytes accumulated beyond position `from`: after an upgrade, the
    /// bytes past the head already belong to the hijacked stream.
    pub fn tail(&self, from: usize) -> (r: Vec<u8>)
        requires
            from <= self.bytes().len(),
        ensures
            r@ == self.bytes().skip(from as int),
    {
        let r = vstd::slice::slice_to_vec(
            vstd::slice::slice_subrange(self.buf.as_slice(), from, self.buf.len()),
        );
        proof {
            assert(self.buf@.subrange(from as int, self.buf@.len() as int) =~= self.buf@.skip(
                from as int,
            ));
        }
        r
    }
}

/// The HTTP methods the engine API needs.
pub enum Method {
    Post,
    Delete,
}

pub open spec fn method_bytes(m: Method) -> Seq<u8> {
    match m {
        Method::Post => "POST".spec_bytes(),
        Method::Delete => "DELETE".spec_bytes(),
    }
}

/// A serialized request: request line, `Host`, the upgrade pair when
/// requested, content headers when a body is present, `Accept`, blank line,
/// body.
pub open spec fn spec_request(
    method: Method,
    path: Seq<u8>,
    upgrade: bool,
    body: Option<Seq<u8>>,
) -> Seq<u8> {
    method_bytes(method) + " ".spec_bytes() + path + " HTTP/1.1\r\nHost: localhost\r\n".spec_bytes()
        + (if upgrade {
        "Upgrade: tcp\r\nConnection: Upgrade\r\n".spec_bytes()
    } else {
        Seq::<u8>::empty()
    }) + (match body {
        Some(b) => "Content-Type: application/json\r\nContent-Length: ".spec_bytes()
            + crate::ascii::dec_digits(b.len() as int) + "\r\n".spec_bytes(),
        None => Seq::<u8>::empty(),
    }) + "Accept: application/json\r\n\r\n".spec_bytes() + (match body {
        Some(b) => b,
        None => Seq::<u8>::empty(),
    })
}

/// Serializes a request onto a byte vector, ready to be written to the
/// engine socket in one piece.
pub fn build_request(method: Method, path: &[u8], upgrade: bool, body: Option<&Vec<u8>>) -> (r:
    Vec<u8>)
    ensures
        r@ == spec_request(method, path@, upgrade, match body {
            Some(b) => Some(b@),
            None => None,
        }),
{
    let mut out: Vec<u8> = Vec::new();
    match method {
        Method::Post => crate::ascii::append_bytes(&mut out, "POST".as_bytes()),
        Method::Delete => crate::ascii::append_bytes(&mut out, "DELETE".as_bytes()),
    }
    crate::ascii::append_bytes(&mut out, " ".as_bytes());
    crate::ascii::append_bytes(&mut out, path);
    crate::ascii::append_bytes(&mut out, " HTTP/1.1\r\nHost: localhost\r\n".as_bytes());
    if upgrade {
        crate::ascii::append_bytes(&mut out, "Upgrade: tcp\r\nConnection: Upgrade\r\n".as_bytes());
    }
    if let Some(b) = body {
        crate::ascii::append_bytes(
            &mut out,
            "Content-Type: application/json\r\nContent-Length: ".as_bytes(),
        );
        let digits = crate::ascii::u64_to_dec(b.len() as u64);
        crate::ascii::append_bytes(&mut out, digits.as_slice());
        crate::ascii::append_bytes(&mut out, "\r\n".as_bytes());
    }
    crate::ascii::append_bytes(&mut out, "Accept: application/json\r\n\r\n".as_bytes());
    if let Some(b) = body {
        crate::ascii::append_bytes(&mut out, b.as_slice());
    }
    proof {
        assert(out@ =~= spec_request(method, path@, upgrade, match body {
            Some(b) => Some(b@),
            None => None,
        }));
    }
    out
}

} // verus!
