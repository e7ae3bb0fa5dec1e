//! Decoding the bytes a connection sends into the logical path it asks for.
use vstd::prelude::*;
use crate::bytes::copy_range;

verus! {

/// How many leading bytes of a connection are read and inspected.
pub const READ_BUFFER_SIZE: usize = 512;

pub open spec fn is_space(b: u8) -> bool {
    b == 0x20 || (0x09 <= b && b <= 0x0d)
}

pub open spec fn is_hex(b: u8) -> bool {
    (0x30 <= b && b <= 0x39) || (0x41 <= b && b <= 0x46) || (0x61 <= b && b <= 0x66)
}

pub open spec fn hex_val(b: u8) -> int {
    if 0x30 <= b && b <= 0x39 {
        b - 0x30
    } else if 0x41 <= b && b <= 0x46 {
        b - 0x41 + 10
    } else {
        b - 0x61 + 10
    }
}

/// Index of the first line feed at or after `i`, or the length when there is none.
pub open spec fn line_end(s: Seq<u8>, i: int) -> int
    decreases s.len() - i,
{
    if i >= s.len() {
        s.len() as int
    } else if s[i] == 0x0a {
        i
    } else {
        line_end(s, i + 1)
    }
}

/// Index of the first non-whitespace byte at or after `i`, or the length.
pub open spec fn skip_space(s: Seq<u8>, i: int) -> int
    decreases s.len() - i,
{
    if i >= s.len() {
        s.len() as int
    } else if !is_space(s[i]) {
        i
    } else {
        skip_space(s, i + 1)
    }
}

/// Index of the first whitespace byte at or after `i`, or the length.
pub open spec fn skip_token(s: Seq<u8>, i: int) -> int
    decreases s.len() - i,
{
    if i >= s.len() {
        s.len() as int
    } else if is_space(s[i]) {
        i
    } else {
        skip_token(s, i + 1)
    }
}

/// The first line of `s`, without its line feed; `None` when no line feed ends it.
pub open spec fn request_line(s: Seq<u8>) -> Option<Seq<u8>> {
    let e = line_end(s, 0);
    if e < s.len() {
        Some(s.subrange(0, e))
    } else {
        None
    }
}

/// The second whitespace-separated token of `line`, if there is one.
pub open spec fn second_token(line: Seq<u8>) -> Option<Seq<u8>> {
    let a = skip_token(line, skip_space(line, 0));
    let b = skip_space(line, a);
    if b < line.len() {
        Some(line.subrange(b, skip_token(line, b)))
    } else {
        None
    }
}

/// The part of what a connection sent that is inspected.
pub open spec fn inspected(received: Seq<u8>) -> Seq<u8> {
    if received.len() <= READ_BUFFER_SIZE {
        received
    } else {
        received.subrange(0, READ_BUFFER_SIZE as int)
    }
}

/// The raw request target: the second token of the first line.
pub open spec fn request_target(received: Seq<u8>) -> Option<Seq<u8>> {
    match request_line(inspected(received)) {
        Some(line) => second_token(line),
        None => None,
    }
}

/// Percent-decoding: `%` and two hex digits give the byte they spell; any other byte is kept.
pub open spec fn pct_decode(s: Seq<u8>) -> Seq<u8>
    decreases s.len(),
{
    if s.len() == 0 {
        Seq::<u8>::empty()
    } else if s[0] == 0x25 && s.len() >= 3 && is_hex(s[1]) && is_hex(s[2]) {
        seq![(hex_val(s[1]) * 16 + hex_val(s[2])) as u8] + pct_decode(s.subrange(3, s.len() as int))
    } else {
        seq![s[0]] + pct_decode(s.subrange(1, s.len() as int))
    }
}

/// Every `%` in `s` starts an escape of two hex digits.
pub open spec fn escapes_valid(s: Seq<u8>) -> bool
    decreases s.len(),
{
    if s.len() == 0 {
        true
    } else if s[0] == 0x25 {
        s.len() >= 3 && is_hex(s[1]) && is_hex(s[2]) && escapes_valid(s.subrange(3, s.len() as int))
    } else {
        escapes_valid(s.subrange(1, s.len() as int))
    }
}

/// The logical path of a raw target: `None` when an escape in it is malformed.
pub open spec fn decoded(raw: Seq<u8>) -> Option<Seq<u8>> {
    if escapes_valid(raw) {
        Some(pct_decode(raw))
    } else {
        None
    }
}

/// The logical path that a request asks for, or `None` when the request cannot be parsed.
pub open spec fn requested_path(received: Seq<u8>) -> Option<Seq<u8>> {
    match request_target(received) {
        Some(raw) => decoded(raw),
        None => None,
    }
}

pub fn is_space_byte(b: u8) -> (r: bool)
    ensures
        r == is_space(b),
{
    b == 0x20 || (0x09 <= b && b <= 0x0d)
}

pub fn is_hex_byte(b: u8) -> (r: bool)
    ensures
        r == is_hex(b),
{
    (0x30 <= b && b <= 0x39) || (0x41 <= b && b <= 0x46) || (0x61 <= b && b <= 0x66)
}

fn find_line_end(s: &[u8]) -> (r: usize)
    ensures
        r == line_end(s@, 0),
        r <= s@.len(),
{
    let mut i: usize = 0;
    while i < s.len() && s[i] != 0x0a
        invariant
            i <= s@.len(),
            line_end(s@, i as int) == line_end(s@, 0),
        decreases s@.len() - i,
    {
        i = i + 1;
    }
    i
}

fn find_non_space(s: &[u8], start: usize) -> (r: usize)
    requires
        start <= s@.len(),
    ensures
        r == skip_space(s@, start as int),
        start <= r <= s@.len(),
{
    let mut i: usize = start;
    while i < s.len() && is_space_byte(s[i])
        invariant
            start <= i <= s@.len(),
            skip_space(s@, i as int) == skip_space(s@, start as int),
        decreases s@.len() - i,
    {
        i = i + 1;
    }
    i
}

fn find_space(s: &[u8], start: usize) -> (r: usize)
    requires
        start <= s@.len(),
    ensures
        r == skip_token(s@, start as int),
        start <= r <= s@.len(),
{
    let mut i: usize = start;
    while i < s.len() && !is_space_byte(s[i])
        invariant
            start <= i <= s@.len(),
            skip_token(s@, i as int) == skip_token(s@, start as int),
        decreases s@.len() - i,
    {
        i = i + 1;
    }
    i
}

/// Whether every `%` in `raw` starts an escape of two hex digits.
pub fn has_valid_escapes(raw: &[u8]) -> (r: bool)
    ensures
        r == escapes_valid(raw@),
{
    let mut i: usize = 0;
    assert(raw@.subrange(0, raw@.len() as int) == raw@);
    while i < raw.len()
        invariant
            i <= raw@.len(),
            escapes_valid(raw@) == escapes_valid(raw@.subrange(i as int, raw@.len() as int)),
        decreases raw@.len() - i,
    {
        let ghost rest = raw@.subrange(i as int, raw@.len() as int);
        if raw[i] == 0x25 {
            if raw.len() - i > 2 && is_hex_byte(raw[i + 1]) && is_hex_byte(raw[i + 2]) {
                assert(rest.subrange(3, rest.len() as int) == raw@.subrange(i + 3, raw@.len() as int));
                i = i + 3;
            } else {
                return false;
            }
        } else {
            assert(rest.subrange(1, rest.len() as int) == raw@.subrange(i + 1, raw@.len() as int));
            i = i + 1;
        }
    }
    true
}

/// Relies on `percent_encoding::percent_decode`, which url_escape re-exports: a `%` followed by
/// two hex digits yields the byte they spell, and every other byte is passed through.
#[verifier::external_body]
fn percent_decode(raw: &[u8]) -> (r: Vec<u8>)
    ensures
        r@ == pct_decode(raw@),
{
    url_escape::percent_encoding::percent_decode(raw).collect()
}

/// Percent-decodes a raw request target; `None` when an escape in it is malformed.
pub fn decode_target(raw: &[u8]) -> (r: Option<Vec<u8>>)
    ensures
        match r {
            Some(p) => decoded(raw@) == Some(p@),
            None => decoded(raw@) is None,
        },
{
    if has_valid_escapes(raw) {
        Some(percent_decode(raw))
    } else {
        None
    }
}

/// The second whitespace-separated token of the first line of `received`, looking at the
/// first `READ_BUFFER_SIZE` bytes only.
pub fn extract_target(received: &[u8]) -> (r: Option<Vec<u8>>)
    ensures
        match r {
            Some(t) => request_target(received@) == Some(t@),
            None => request_target(received@) is None,
        },
{
    let n: usize = if received.len() <= READ_BUFFER_SIZE { received.len() } else { READ_BUFFER_SIZE };
    let prefix = copy_range(received, 0, n);
    assert(prefix@ == inspected(received@));
    let e = find_line_end(prefix.as_slice());
    if e >= prefix.len() {
        return None;
    }
    let line = copy_range(prefix.as_slice(), 0, e);
    let a0 = find_non_space(line.as_slice(), 0);
    let a1 = find_space(line.as_slice(), a0);
    let b0 = find_non_space(line.as_slice(), a1);
    if b0 >= line.len() {
        return None;
    }
    let b1 = find_space(line.as_slice(), b0);
    Some(copy_range(line.as_slice(), b0, b1))
}

/// Parses the bytes that a connection sent into the logical path it asks for.
/// `None` when no line feed ends the first line within the inspected bytes, when that
/// line has no second token, or when the token holds a malformed escape.
pub fn parse_request(received: &[u8]) -> (r: Option<Vec<u8>>)
    ensures
        match r {
            Some(p) => requested_path(received@) == Some(p@),
            None => requested_path(received@) is None,
        },
{
    match extract_target(received) {
        Some(raw) => decode_target(raw.as_slice()),
        None => None,
    }
}

/// Bytes that percent-encoding leaves as they are: ASCII letters and digits, `-`, `.`, `_`,
/// `~` and the path separator.
pub open spec fn is_unreserved(b: u8) -> bool {
    (0x30 <= b && b <= 0x39) || (0x41 <= b && b <= 0x5a) || (0x61 <= b && b <= 0x7a) || b == 0x2d
        || b == 0x2e || b == 0x5f || b == 0x7e || b == 0x2f
}

/// The upper-case hex digit for `v`, which is below 16.
pub open spec fn hex_digit(v: int) -> u8 {
    if v < 10 {
        (0x30 + v) as u8
    } else {
        (0x41 + v - 10) as u8
    }
}

pub open spec fn encode_byte(b: u8) -> Seq<u8> {
    if is_unreserved(b) {
        seq![b]
    } else {
        seq![0x25u8, hex_digit(b as int / 16), hex_digit(b as int % 16)]
    }
}

/// Percent-encoding of a path: every byte that is not unreserved becomes `%` and two hex digits.
pub open spec fn pct_encode(s: Seq<u8>) -> Seq<u8>
    decreases s.len(),
{
    if s.len() == 0 {
        Seq::<u8>::empty()
    } else {
        encode_byte(s[0]) + pct_encode(s.subrange(1, s.len() as int))
    }
}

proof fn lemma_hex_digit(v: int)
    requires
        0 <= v < 16,
    ensures
        is_hex(hex_digit(v)),
        hex_val(hex_digit(v)) == v,
{
}

proof fn lemma_decode_encoded_byte(b: u8, rest: Seq<u8>)
    ensures
        pct_decode(encode_byte(b) + rest) == seq![b] + pct_decode(rest),
        escapes_valid(encode_byte(b) + rest) == escapes_valid(rest),
{
    let e = encode_byte(b) + rest;
    if is_unreserved(b) {
        assert(e.subrange(1, e.len() as int) == rest);
    } else {
        let hi = b as int / 16;
        let lo = b as int % 16;
        lemma_hex_digit(hi);
        lemma_hex_digit(lo);
        assert(hi * 16 + lo == b as int);
        assert(e.subrange(3, e.len() as int) == rest);
    }
}

/// Decoding undoes encoding: the percent-encoding of any path, multi-byte UTF-8 sequences
/// included, has only well-formed escapes and decodes back to the path itself.
pub proof fn lemma_decode_encode(p: Seq<u8>)
    ensures
        escapes_valid(pct_encode(p)),
        pct_decode(pct_encode(p)) == p,
        decoded(pct_encode(p)) == Some(p),
    decreases p.len(),
{
    if p.len() > 0 {
        let tail = p.subrange(1, p.len() as int);
        lemma_decode_encode(tail);
        lemma_decode_encoded_byte(p[0], pct_encode(tail));
        assert(seq![p[0]] + tail == p);
    }
}

} // verus!
