//! A small HTTPS/1.1 client core: URL splitting, request text, response
//! parsing (status line, headers, `Content-Length` and chunked bodies),
//! redirect resolution, percent-encoding, and the redirect-following loop
//! as a state machine whose network I/O is performed by the caller.
use vstd::prelude::*;
use vstd::utf8::{decode_utf8, encode_utf8, is_ascii_chars, valid_utf8};
use crate::bangumi_api::{BangumiError, ErrorView};
use crate::num::{all_digits, digit_val, digits_value, parse_u16, parse_u16_range, parse_usize_radix, parse_usize_range};
use crate::url::{hex_upper, lemma_hex_upper_code};
use crate::text::{
    chars_eq_ignore_ascii_case, chars_of, char_is_ws, eq_ignore_ascii_case, find_char, find_from,
    is_ws, lemma_find_from_bounds, push_str, trim, trim_bounds, trim_start,
};

verus! {

// ---------------------------------------------------------------- UTF-8

/// What `Utf8Error`'s `Display` prints for bytes that are not valid UTF-8.
pub uninterp spec fn utf8_error_text(bytes: Seq<u8>) -> Seq<char>;

/// `std::str::from_utf8`: the bytes decode exactly when they are valid UTF-8,
/// and then to the characters they encode; otherwise the error's text.
#[verifier::external_body]
pub(crate) fn utf8_to_str(bytes: &[u8]) -> (r: Result<&str, String>)
    ensures
        match r {
            Ok(s) => valid_utf8(bytes@) && s@ == decode_utf8(bytes@),
            Err(m) => !valid_utf8(bytes@) && m@ == utf8_error_text(bytes@),
        },
{
    match std::str::from_utf8(bytes) {
        Ok(s) => Ok(s),
        Err(e) => Err(e.to_string()),
    }
}

/// `prefix` followed by `detail`, as a new string.
pub fn join2(prefix: &str, detail: &str) -> (r: String)
    ensures
        r@ == prefix@ + detail@,
{
    let mut r = prefix.to_owned();
    push_str(&mut r, detail);
    r
}

/// A copy of `v[lo..hi]`.
pub fn copy_range<T: Copy>(v: &[T], lo: usize, hi: usize) -> (r: Vec<T>)
    requires
        lo <= hi <= v@.len(),
    ensures
        r@ == v@.subrange(lo as int, hi as int),
{
    let mut r: Vec<T> = Vec::new();
    let mut i: usize = lo;
    while i < hi
        invariant
            lo <= i <= hi <= v@.len(),
            r@ == v@.subrange(lo as int, i as int),
        decreases hi - i,
    {
        r.push(v[i]);
        i = i + 1;
        assert(r@ =~= v@.subrange(lo as int, i as int));
    }
    r
}

/// Appends `v[lo..hi]` to `out`.
pub fn append_range<T: Copy>(out: &mut Vec<T>, v: &[T], lo: usize, hi: usize)
    requires
        lo <= hi <= v@.len(),
    ensures
        final(out)@ == old(out)@ + v@.subrange(lo as int, hi as int),
{
    let mut i: usize = lo;
    while i < hi
        invariant
            lo <= i <= hi <= v@.len(),
            out@ == old(out)@ + v@.subrange(lo as int, i as int),
        decreases hi - i,
    {
        out.push(v[i]);
        i = i + 1;
        assert(out@ =~= old(out)@ + v@.subrange(lo as int, i as int));
    }
}

// ---------------------------------------------------------------- searching

/// A CR LF pair of bytes starts at `i`.
pub open spec fn crlf_bytes_at(b: Seq<u8>, i: int) -> bool {
    0 <= i && i + 1 < b.len() && b[i] == 13 && b[i + 1] == 10
}

/// The first CR LF at or after `i` in the bytes, or -1.
pub open spec fn find_crlf_bytes(b: Seq<u8>, i: int) -> int
    decreases b.len() - i,
{
    if i < 0 || i + 1 >= b.len() {
        -1
    } else if crlf_bytes_at(b, i) {
        i
    } else {
        find_crlf_bytes(b, i + 1)
    }
}

/// CR LF CR LF starts at `i`.
pub open spec fn blank_line_at(b: Seq<u8>, i: int) -> bool {
    0 <= i && i + 3 < b.len() && b[i] == 13 && b[i + 1] == 10 && b[i + 2] == 13 && b[i + 3] == 10
}

/// The first CR LF CR LF at or after `i` in the bytes, or -1.
pub open spec fn find_blank_line(b: Seq<u8>, i: int) -> int
    decreases b.len() - i,
{
    if i < 0 || i + 3 >= b.len() {
        -1
    } else if blank_line_at(b, i) {
        i
    } else {
        find_blank_line(b, i + 1)
    }
}

/// A CR LF pair of characters starts at `i`.
pub open spec fn crlf_at(t: Seq<char>, i: int) -> bool {
    0 <= i && i + 1 < t.len() && t[i] == '\r' && t[i + 1] == '\n'
}

/// The first CR LF at or after `i` in the text, or `t.len()`.
pub open spec fn find_crlf(t: Seq<char>, i: int) -> int
    decreases t.len() - i,
{
    if i < 0 || i >= t.len() {
        t.len() as int
    } else if crlf_at(t, i) {
        i
    } else {
        find_crlf(t, i + 1)
    }
}

/// The first non-whitespace position at or after `i`, or `t.len()`.
pub open spec fn skip_ws(t: Seq<char>, i: int) -> int
    decreases t.len() - i,
{
    if i < 0 || i >= t.len() {
        t.len() as int
    } else if is_ws(t[i]) {
        skip_ws(t, i + 1)
    } else {
        i
    }
}

/// The first whitespace position at or after `i`, or `t.len()`.
pub open spec fn token_end(t: Seq<char>, i: int) -> int
    decreases t.len() - i,
{
    if i < 0 || i >= t.len() {
        t.len() as int
    } else if is_ws(t[i]) {
        i
    } else {
        token_end(t, i + 1)
    }
}

/// A CRLF found in the bytes from `i` on lies at or after `i`.
pub proof fn lemma_find_crlf_bytes_bounds(b: Seq<u8>, i: int)
    requires
        0 <= i,
    ensures
        find_crlf_bytes(b, i) == -1 || (i <= find_crlf_bytes(b, i) && crlf_bytes_at(b, find_crlf_bytes(b, i))),
    decreases b.len() - i,
{
    if i + 1 < b.len() && !crlf_bytes_at(b, i) {
        lemma_find_crlf_bytes_bounds(b, i + 1);
    }
}

/// The search for a CRLF from `i` stops within the text, on a CRLF if before its end.
pub proof fn lemma_find_crlf_bounds(t: Seq<char>, i: int)
    requires
        0 <= i <= t.len(),
    ensures
        i <= find_crlf(t, i) <= t.len(),
        find_crlf(t, i) < t.len() ==> crlf_at(t, find_crlf(t, i)),
    decreases t.len() - i,
{
    if i < t.len() && !crlf_at(t, i) {
        lemma_find_crlf_bounds(t, i + 1);
    }
}

/// Skipping white space from `i` stops within the text.
pub proof fn lemma_skip_ws_bounds(t: Seq<char>, i: int)
    requires
        0 <= i <= t.len(),
    ensures
        i <= skip_ws(t, i) <= t.len(),
    decreases t.len() - i,
{
    if i < t.len() && is_ws(t[i]) {
        lemma_skip_ws_bounds(t, i + 1);
    }
}

/// The end of the token at `i` lies within the text.
pub proof fn lemma_token_end_bounds(t: Seq<char>, i: int)
    requires
        0 <= i <= t.len(),
    ensures
        i <= token_end(t, i) <= t.len(),
    decreases t.len() - i,
{
    if i < t.len() && !is_ws(t[i]) {
        lemma_token_end_bounds(t, i + 1);
    }
}

/// The first CR LF at or after `i` in the bytes.
pub fn find_crlf_in_bytes(b: &[u8], i: usize) -> (r: Option<usize>)
    ensures
        match r {
            Some(k) => k == find_crlf_bytes(b@, i as int),
            None => find_crlf_bytes(b@, i as int) == -1,
        },
{
    let mut k: usize = i;
    while k < b.len() && k + 1 < b.len()
        invariant
            i <= k,
            find_crlf_bytes(b@, i as int) == find_crlf_bytes(b@, k as int),
        decreases b@.len() - k,
    {
        if b[k] == 13 && b[k + 1] == 10 {
            return Some(k);
        }
        k = k + 1;
    }
    None
}

/// The first CR LF CR LF in the bytes.
pub fn find_blank_line_in_bytes(b: &[u8]) -> (r: Option<usize>)
    ensures
        match r {
            Some(k) => k == find_blank_line(b@, 0),
            None => find_blank_line(b@, 0) == -1,
        },
{
    let mut k: usize = 0;
    while b.len() >= 4 && k < b.len() - 3
        invariant
            find_blank_line(b@, 0) == find_blank_line(b@, k as int),
        decreases b@.len() - k,
    {
        if b[k] == 13 && b[k + 1] == 10 && b[k + 2] == 13 && b[k + 3] == 10 {
            return Some(k);
        }
        k = k + 1;
    }
    None
}

/// The first CR LF at or after `i` in the text, or its length.
pub fn find_crlf_in(t: &[char], i: usize) -> (r: usize)
    requires
        i <= t@.len(),
    ensures
        r == find_crlf(t@, i as int),
        i <= r <= t@.len(),
{
    proof {
        lemma_find_crlf_bounds(t@, i as int);
    }
    let mut k: usize = i;
    while k < t.len()
        invariant
            i <= k <= t@.len(),
            find_crlf(t@, i as int) == find_crlf(t@, k as int),
        decreases t@.len() - k,
    {
        if k + 1 < t.len() && t[k] == '\r' && t[k + 1] == '\n' {
            return k;
        }
        k = k + 1;
    }
    k
}

/// The first non-whitespace position at or after `i`.
pub fn skip_ws_in(t: &[char], i: usize) -> (r: usize)
    requires
        i <= t@.len(),
    ensures
        r == skip_ws(t@, i as int),
        i <= r <= t@.len(),
{
    proof {
        lemma_skip_ws_bounds(t@, i as int);
    }
    let mut k: usize = i;
    while k < t.len() && char_is_ws(t[k])
        invariant
            i <= k <= t@.len(),
            skip_ws(t@, i as int) == skip_ws(t@, k as int),
        decreases t@.len() - k,
    {
        k = k + 1;
    }
    k
}

/// The first whitespace position at or after `i`.
pub fn token_end_in(t: &[char], i: usize) -> (r: usize)
    requires
        i <= t@.len(),
    ensures
        r == token_end(t@, i as int),
        i <= r <= t@.len(),
{
    proof {
        lemma_token_end_bounds(t@, i as int);
    }
    let mut k: usize = i;
    while k < t.len() && !char_is_ws(t[k])
        invariant
            i <= k <= t@.len(),
            token_end(t@, i as int) == token_end(t@, k as int),
        decreases t@.len() - k,
    {
        k = k + 1;
    }
    k
}


// ---------------------------------------------------------------- headers

/// The header fields that the client acts on.
pub struct HeaderFields {
    pub location: Option<Seq<char>>,
    pub chunked: bool,
    pub content_length: Option<usize>,
}

/// No header seen yet.
pub open spec fn no_header_fields() -> HeaderFields {
    HeaderFields { location: None, chunked: false, content_length: None }
}

/// Some comma-separated part of `v[pos..]`, trimmed, is "chunked" in any ASCII case.
pub open spec fn has_chunked_from(v: Seq<char>, pos: int) -> bool
    decreases v.len() - pos,
{
    if pos < 0 || pos > v.len() {
        false
    } else {
        let e = find_from(v, ',', pos);
        proof {
            lemma_find_from_bounds(v, ',', pos);
        }
        eq_ignore_ascii_case(trim(v.subrange(pos, e)), "chunked"@) || (e < v.len()
            && has_chunked_from(v, e + 1))
    }
}

/// The effect of one header line `key: value` on the fields; lines without a
/// colon and other keys leave them as they are.
pub open spec fn apply_header_line(line: Seq<char>, st: HeaderFields) -> HeaderFields {
    let k = find_from(line, ':', 0);
    if k >= line.len() {
        st
    } else {
        let key = trim(line.subrange(0, k));
        let value = trim(line.subrange(k + 1, line.len() as int));
        if eq_ignore_ascii_case(key, "location"@) {
            HeaderFields { location: Some(value), chunked: st.chunked, content_length: st.content_length }
        } else if eq_ignore_ascii_case(key, "transfer-encoding"@) {
            HeaderFields {
                location: st.location,
                chunked: has_chunked_from(value, 0),
                content_length: st.content_length,
            }
        } else if eq_ignore_ascii_case(key, "content-length"@) {
            HeaderFields {
                location: st.location,
                chunked: st.chunked,
                content_length: parse_usize_radix(value, 10),
            }
        } else {
            st
        }
    }
}

/// The header lines of `t` from `pos` on, up to the first empty line, applied in order.
pub open spec fn scan_headers(t: Seq<char>, pos: int, st: HeaderFields) -> HeaderFields
    decreases t.len() - pos,
{
    if pos < 0 || pos > t.len() {
        st
    } else {
        let e = find_crlf(t, pos);
        proof {
            lemma_find_crlf_bounds(t, pos);
        }
        if e == pos {
            st
        } else if e >= t.len() {
            apply_header_line(t.subrange(pos, e), st)
        } else {
            scan_headers(t, e + 2, apply_header_line(t.subrange(pos, e), st))
        }
    }
}

/// A header line that names none of the fields the client acts on: it has
/// no colon, or its key is not Location, Transfer-Encoding or
/// Content-Length in any ASCII case.
pub open spec fn other_header(line: Seq<char>) -> bool {
    let k = find_from(line, ':', 0);
    ||| k >= line.len()
    ||| {
        let key = trim(line.subrange(0, k));
        &&& !eq_ignore_ascii_case(key, "location"@)
        &&& !eq_ignore_ascii_case(key, "transfer-encoding"@)
        &&& !eq_ignore_ascii_case(key, "content-length"@)
    }
}

/// A header line that names no field the client acts on changes nothing,
/// wherever it stands: the fields read from its line on are those read
/// from the next line on (or the fields so far, when it is the last line).
pub proof fn lemma_other_header_changes_nothing(t: Seq<char>, pos: int, st: HeaderFields)
    requires
        0 <= pos <= t.len(),
        find_crlf(t, pos) > pos,
        other_header(t.subrange(pos, find_crlf(t, pos))),
    ensures
        find_crlf(t, pos) < t.len() ==> scan_headers(t, pos, st) == scan_headers(t, find_crlf(t, pos) + 2, st),
        find_crlf(t, pos) >= t.len() ==> scan_headers(t, pos, st) == st,
{
    lemma_find_crlf_bounds(t, pos);
    let line = t.subrange(pos, find_crlf(t, pos));
    lemma_find_from_bounds(line, ':', 0);
    assert(apply_header_line(line, st) == st);
}

/// Searching for CR LF after a prefix finds the same place, shifted.
proof fn lemma_find_crlf_shift(p: Seq<char>, b: Seq<char>, i: int)
    requires
        0 <= i <= b.len(),
    ensures
        find_crlf(p + b, p.len() + i) == p.len() + find_crlf(b, i),
    decreases b.len() - i,
{
    let t = p + b;
    if i < b.len() {
        assert(crlf_at(t, p.len() + i) == crlf_at(b, i)) by {
            if i + 1 < b.len() {
                assert(t[p.len() + i] == b[i]);
                assert(t[p.len() + i + 1] == b[i + 1]);
            }
        }
        lemma_find_crlf_shift(p, b, i + 1);
    }
}

/// Reading the headers after a prefix reads them as without it.
proof fn lemma_scan_headers_shift(p: Seq<char>, b: Seq<char>, i: int, st: HeaderFields)
    requires
        0 <= i <= b.len(),
    ensures
        scan_headers(p + b, p.len() + i, st) == scan_headers(b, i, st),
    decreases b.len() - i,
{
    let t = p + b;
    lemma_find_crlf_shift(p, b, i);
    lemma_find_crlf_bounds(b, i);
    let e = find_crlf(b, i);
    assert(t.subrange(p.len() + i, p.len() + e) =~= b.subrange(i, e));
    if e != i && e < b.len() {
        lemma_scan_headers_shift(p, b, e + 2, apply_header_line(b.subrange(i, e), st));
    }
}

/// Putting a header line that names no field the client acts on in front of
/// a block of header lines leaves the fields read from it unchanged.
pub proof fn lemma_other_header_inserted(x: Seq<char>, b: Seq<char>, st: HeaderFields)
    requires
        x.len() > 0,
        !x.contains('\r'),
        other_header(x),
    ensures
        scan_headers(x + seq!['\r', '\n'] + b, 0, st) == scan_headers(b, 0, st),
{
    let p = x + seq!['\r', '\n'];
    let t = p + b;
    assert(x + seq!['\r', '\n'] + b == t);
    assert forall|k: int| 0 <= k < x.len() implies !crlf_at(t, k) by {
        assert(t[k] == x[k]);
        if t[k] == '\r' {
            assert(x.contains('\r'));
        }
    }
    assert(crlf_at(t, x.len() as int));
    lemma_find_crlf_at(t, 0, x.len() as int);
    assert(t.subrange(0, x.len() as int) =~= x);
    lemma_other_header_changes_nothing(t, 0, st);
    lemma_scan_headers_shift(p, b, 0, st);
}

/// No CR LF starts in `t[i..j]`, and one starts at `j`: the search from `i` finds `j`.
proof fn lemma_find_crlf_at(t: Seq<char>, i: int, j: int)
    requires
        0 <= i <= j,
        crlf_at(t, j),
        forall|k: int| i <= k < j ==> !crlf_at(t, k),
    ensures
        find_crlf(t, i) == j,
    decreases j - i,
{
    if i < j {
        lemma_find_crlf_at(t, i + 1, j);
    }
}

/// The status code of a status line: its second whitespace-separated word,
/// read as a `u16`.
pub open spec fn status_code_of(line: Seq<char>) -> Result<u16, ErrorView> {
    let a1 = skip_ws(line, 0);
    if a1 >= line.len() {
        Err(ErrorView::Parse("HTTP版本缺失"@))
    } else {
        let a2 = skip_ws(line, token_end(line, a1));
        if a2 >= line.len() {
            Err(ErrorView::Parse("HTTP状态码缺失"@))
        } else {
            match parse_u16(line.subrange(a2, token_end(line, a2))) {
                Some(c) => Ok(c),
                None => Err(ErrorView::Parse("HTTP状态码非法"@)),
            }
        }
    }
}

/// The fields as the client holds them while reading headers.
pub open spec fn fields_of(
    location: Option<String>,
    chunked: bool,
    content_length: Option<usize>,
) -> HeaderFields {
    HeaderFields { location: location.deep_view(), chunked, content_length }
}

/// `s` is "transfer-encoding" etc.: the three keys the client reads.
fn is_key(line: &[char], a: usize, b: usize, key: &str) -> (r: bool)
    requires
        a <= b <= line@.len(),
    ensures
        r == eq_ignore_ascii_case(line@.subrange(a as int, b as int), key@),
{
    let k = copy_range(line, a, b);
    let want = chars_of(key);
    chars_eq_ignore_ascii_case(&k, &want)
}

/// Whether some comma-separated part of `v`, trimmed, is "chunked".
pub fn has_chunked(v: &[char]) -> (r: bool)
    ensures
        r == has_chunked_from(v@, 0),
{
    let mut pos: usize = 0;
    loop
        invariant
            pos <= v@.len(),
            has_chunked_from(v@, 0) == has_chunked_from(v@, pos as int),
        decreases v@.len() - pos,
    {
        let e = find_char(v, ',', pos);
        proof {
            lemma_find_from_bounds(v@, ',', pos as int);
        }
        let (a, b) = trim_bounds(v, pos, e);
        if is_key(v, a, b, "chunked") {
            return true;
        }
        if e >= v.len() {
            return false;
        }
        pos = e + 1;
    }
}

/// Applies one header line to the fields.
pub fn apply_header(
    line: &[char],
    location: &mut Option<String>,
    chunked: &mut bool,
    content_length: &mut Option<usize>,
)
    ensures
        fields_of(*final(location), *final(chunked), *final(content_length)) == apply_header_line(
            line@,
            fields_of(*old(location), *old(chunked), *old(content_length)),
        ),
{
    let k = find_char(line, ':', 0);
    proof {
        lemma_find_from_bounds(line@, ':', 0);
    }
    if k >= line.len() {
        return ;
    }
    let (ka, kb) = trim_bounds(line, 0, k);
    let (va, vb) = trim_bounds(line, k + 1, line.len());
    if is_key(line, ka, kb, "location") {
        *location = Some(crate::text::string_of_range(line, va, vb));
    } else if is_key(line, ka, kb, "transfer-encoding") {
        let value = copy_range(line, va, vb);
        *chunked = has_chunked(&value);
    } else if is_key(line, ka, kb, "content-length") {
        *content_length = parse_usize_range(line, va, vb, 10);
    }
}

/// The status code of a status line.
pub fn status_code_from(line: &[char]) -> (r: Result<u16, BangumiError>)
    ensures
        match status_code_of(line@) {
            Ok(c) => r matches Ok(x) && x == c,
            Err(e) => r matches Err(x) && x@ == e,
        },
{
    let a1 = skip_ws_in(line, 0);
    if a1 >= line.len() {
        return Err(BangumiError::Parse("HTTP版本缺失".to_owned()));
    }
    let b1 = token_end_in(line, a1);
    let a2 = skip_ws_in(line, b1);
    if a2 >= line.len() {
        return Err(BangumiError::Parse("HTTP状态码缺失".to_owned()));
    }
    let b2 = token_end_in(line, a2);
    match parse_u16_range(line, a2, b2) {
        Some(c) => Ok(c),
        None => Err(BangumiError::Parse("HTTP状态码非法".to_owned())),
    }
}

/// Reads the header lines of `t` from `pos` on, as [`scan_headers`] describes.
pub fn read_headers(t: &[char], pos: usize) -> (r: (Option<String>, bool, Option<usize>))
    requires
        pos <= t@.len(),
    ensures
        fields_of(r.0, r.1, r.2) == scan_headers(t@, pos as int, no_header_fields()),
{
    let mut location: Option<String> = None;
    let mut chunked = false;
    let mut content_length: Option<usize> = None;
    let mut p = pos;
    loop
        invariant
            p <= t@.len(),
            scan_headers(t@, pos as int, no_header_fields()) == scan_headers(
                t@,
                p as int,
                fields_of(location, chunked, content_length),
            ),
        decreases t@.len() - p,
    {
        let e = find_crlf_in(t, p);
        proof {
            lemma_find_crlf_bounds(t@, p as int);
        }
        if e == p {
            return (location, chunked, content_length);
        }
        let line = copy_range(t, p, e);
        apply_header(&line, &mut location, &mut chunked, &mut content_length);
        if e >= t.len() {
            return (location, chunked, content_length);
        }
        p = e + 2;
    }
}


// ---------------------------------------------------------------- bodies

/// How reading a chunked body ends: the data, an error, or a chunk size so
/// large that adding the two bytes of its trailing CR LF overflows `usize`.
pub enum ChunkedOutcome {
    Decoded(Seq<u8>),
    Failed(ErrorView),
    SizeOverflow,
}

/// Reads a chunked body from `pos` on, `out` holding the data read so far.
/// Each chunk is a size line (hexadecimal, anything after ';' ignored, then
/// trimmed), CR LF, the data, and two more bytes that are skipped; size 0 ends
/// the body.
pub open spec fn chunked_from(b: Seq<u8>, pos: int, out: Seq<u8>) -> ChunkedOutcome
    decreases b.len() - pos,
{
    if pos < 0 || pos > b.len() {
        ChunkedOutcome::Decoded(out)
    } else {
        let e = find_crlf_bytes(b, pos);
        proof {
            lemma_find_crlf_bytes_bounds(b, pos);
        }
        if e < 0 {
            ChunkedOutcome::Failed(ErrorView::Parse("chunked长度行不完整"@))
        } else {
            let line = b.subrange(pos, e);
            if !valid_utf8(line) {
                ChunkedOutcome::Failed(
                    ErrorView::Parse("chunked长度编码错误: "@ + utf8_error_text(line)),
                )
            } else {
                let t = decode_utf8(line);
                match parse_usize_radix(trim(t.subrange(0, find_from(t, ';', 0))), 16) {
                    None => ChunkedOutcome::Failed(ErrorView::Parse("chunked长度非法"@)),
                    Some(size) => if size == 0 {
                        ChunkedOutcome::Decoded(out)
                    } else if size + 2 > usize::MAX {
                        ChunkedOutcome::SizeOverflow
                    } else if b.len() - (e + 2) < size + 2 {
                        ChunkedOutcome::Failed(ErrorView::Parse("chunked数据不完整"@))
                    } else {
                        chunked_from(
                            b,
                            e + 2 + size + 2,
                            out + b.subrange(e + 2, e + 2 + size),
                        )
                    },
                }
            }
        }
    }
}

/// The decoded data of a chunked body.
pub open spec fn chunked_body(b: Seq<u8>) -> ChunkedOutcome {
    chunked_from(b, 0, Seq::empty())
}

/// The outcome of a chunked decode agrees with the specification, `None`
/// standing for the size overflow.
pub open spec fn chunked_matches(o: ChunkedOutcome, r: Option<Result<Vec<u8>, BangumiError>>) -> bool {
    match o {
        ChunkedOutcome::Decoded(d) => r matches Some(Ok(v)) && v@ == d,
        ChunkedOutcome::Failed(e) => r matches Some(Err(x)) && x@ == e,
        ChunkedOutcome::SizeOverflow => r is None,
    }
}

/// Decodes a chunked body; `None` when a chunk size is too large for its
/// trailing CR LF to be counted in a `usize`.
pub fn decode_chunked_checked(input: &[u8]) -> (r: Option<Result<Vec<u8>, BangumiError>>)
    ensures
        chunked_matches(chunked_body(input@), r),
{
    let mut out: Vec<u8> = Vec::new();
    let mut pos: usize = 0;
    loop
        invariant
            pos <= input@.len(),
            chunked_from(input@, pos as int, out@) == chunked_body(input@),
        decreases input@.len() - pos,
    {
        proof {
            lemma_find_crlf_bytes_bounds(input@, pos as int);
        }
        let e = match find_crlf_in_bytes(input, pos) {
            None => {
                return Some(Err(BangumiError::Parse("chunked长度行不完整".to_owned())));
            },
            Some(e) => e,
        };
        assert(crlf_bytes_at(input@, e as int));
        let n = input.len();
        assert(e + 1 < n);
        let line = copy_range(input, pos, e);
        let text = match utf8_to_str(&line) {
            Err(m) => {
                return Some(Err(BangumiError::Parse(join2("chunked长度编码错误: ", &m))));
            },
            Ok(text) => text,
        };
        let t = chars_of(text);
        let semi = find_char(&t, ';', 0);
        let (a, b) = trim_bounds(&t, 0, semi);
        let size = match parse_usize_range(&t, a, b, 16) {
            None => {
                return Some(Err(BangumiError::Parse("chunked长度非法".to_owned())));
            },
            Some(size) => size,
        };
        if size == 0 {
            return Some(Ok(out));
        }
        if size > usize::MAX - 2 {
            return None;
        }
        let start = e + 2;
        if input.len() - start < size + 2 {
            return Some(Err(BangumiError::Parse("chunked数据不完整".to_owned())));
        }
        append_range(&mut out, input, start, start + size);
        pos = start + size + 2;
    }
}

/// The hexadecimal numeral of `n` in upper-case digits, without leading zeros.
pub open spec fn hex_numeral(n: nat) -> Seq<char>
    decreases n,
{
    if n < 16 {
        seq![hex_upper(n)]
    } else {
        hex_numeral(n / 16) + seq![hex_upper(n % 16)]
    }
}

/// One chunk of a chunked body: its size in hexadecimal, CR LF, the data, CR LF.
pub open spec fn chunk_bytes(data: Seq<u8>) -> Seq<u8> {
    encode_utf8(hex_numeral(data.len())) + seq![13u8, 10u8] + data + seq![13u8, 10u8]
}

/// The chunks, one after another.
pub open spec fn chunks_encoded(chunks: Seq<Seq<u8>>) -> Seq<u8>
    decreases chunks.len(),
{
    if chunks.len() == 0 {
        Seq::empty()
    } else {
        chunk_bytes(chunks[0]) + chunks_encoded(chunks.drop_first())
    }
}

/// The data of the chunks, joined.
pub open spec fn chunks_joined(chunks: Seq<Seq<u8>>) -> Seq<u8>
    decreases chunks.len(),
{
    if chunks.len() == 0 {
        Seq::empty()
    } else {
        chunks[0] + chunks_joined(chunks.drop_first())
    }
}

/// The end of a chunked body: the size-0 line, then any trailer.
pub open spec fn last_chunk(trailer: Seq<u8>) -> Seq<u8> {
    seq![48u8, 13u8, 10u8] + trailer
}

/// Chunks a chunked body can carry: none is empty, and each is small enough
/// for its size and trailing CR LF to be counted in a `usize`.
pub open spec fn sendable_chunks(chunks: Seq<Seq<u8>>) -> bool {
    forall|i: int| 0 <= i < chunks.len() ==> 0 < (#[trigger] chunks[i]).len() && chunks[i].len() + 2 <= usize::MAX
}

proof fn lemma_hex_numeral(n: nat)
    ensures
        hex_numeral(n).len() >= 1,
        forall|i: int|
            0 <= i < hex_numeral(n).len() ==> ('0' <= #[trigger] hex_numeral(n)[i] && hex_numeral(n)[i] <= '9') || (
            'A' <= hex_numeral(n)[i] && hex_numeral(n)[i] <= 'F'),
        all_digits(hex_numeral(n), 16),
        digits_value(hex_numeral(n), 16) == n,
    decreases n,
{
    let h = hex_numeral(n);
    if n < 16 {
        lemma_hex_upper_code(n);
        assert(h.drop_last() =~= Seq::<char>::empty());
        assert(digit_val(hex_upper(n), 16) == n);
        assert(digits_value(h, 16) == digits_value(h.drop_last(), 16) * 16 + (digit_val(h.last(), 16) as nat));
    } else {
        lemma_hex_numeral(n / 16);
        lemma_hex_upper_code(n % 16);
        let p = hex_numeral(n / 16);
        assert(h.drop_last() =~= p);
        assert(h.last() == hex_upper(n % 16));
        assert forall|i: int| 0 <= i < h.len() implies ('0' <= #[trigger] h[i] && h[i] <= '9') || ('A' <= h[i] && h[i] <= 'F') by {
            if i < p.len() {
                assert(h[i] == p[i]);
            }
        }
        assert(digit_val(hex_upper(n % 16), 16) == n % 16);
        assert(digits_value(h, 16) == digits_value(p, 16) * 16 + (digit_val(hex_upper(n % 16), 16) as nat));
        assert(n == (n / 16) * 16 + n % 16);
    }
}

proof fn lemma_no_semicolon(t: Seq<char>, i: int)
    requires
        0 <= i <= t.len(),
        forall|k: int| 0 <= k < t.len() ==> #[trigger] t[k] != ';',
    ensures
        find_from(t, ';', i) == t.len(),
    decreases t.len() - i,
{
    if i < t.len() {
        lemma_no_semicolon(t, i + 1);
    }
}

/// The size line of a chunk reads back as its size.
proof fn lemma_hex_line(n: nat)
    requires
        n <= usize::MAX,
    ensures
        is_ascii_chars(hex_numeral(n)),
        encode_utf8(hex_numeral(n)).len() == hex_numeral(n).len(),
        forall|i: int| 0 <= i < hex_numeral(n).len() ==> #[trigger] encode_utf8(hex_numeral(n))[i] != 13,
        forall|i: int| 0 <= i < hex_numeral(n).len() ==> #[trigger] encode_utf8(hex_numeral(n))[i] == hex_numeral(n)[i] as u8,
        valid_utf8(encode_utf8(hex_numeral(n))),
        decode_utf8(encode_utf8(hex_numeral(n))) == hex_numeral(n),
        ({
            let t = hex_numeral(n);
            parse_usize_radix(trim(t.subrange(0, find_from(t, ';', 0))), 16) == Some(n as usize)
        }),
{
    broadcast use vstd::utf8::group_utf8_lib;

    let h = hex_numeral(n);
    lemma_hex_numeral(n);
    assert(is_ascii_chars(h));
    vstd::utf8::is_ascii_chars_encode_utf8(h);
    assert forall|i: int| 0 <= i < h.len() implies #[trigger] encode_utf8(h)[i] != 13 by {
        assert(h[i] as u8 == encode_utf8(h)[i]);
    }
    lemma_no_semicolon(h, 0);
    assert(h.subrange(0, h.len() as int) =~= h);
    assert(crate::text::trim_start(h) == h);
    assert(crate::text::trim_end(h) == h);
    assert(trim(h) == h);
    assert(h[0] != '+' && h[0] != '-');
    assert(!(h =~= seq!['+']) && !(h =~= seq!['-']));
}

/// No CR LF starts in `b[i..j]`, and one starts at `j`: the search from `i` finds `j`.
proof fn lemma_find_crlf_bytes_at(b: Seq<u8>, i: int, j: int)
    requires
        0 <= i <= j,
        crlf_bytes_at(b, j),
        forall|k: int| i <= k < j ==> #[trigger] b[k] != 13,
    ensures
        find_crlf_bytes(b, i) == j,
    decreases j - i,
{
    if i < j {
        lemma_find_crlf_bytes_at(b, i + 1, j);
    }
}

/// Where the parts of a chunk lie when it follows `prefix`.
proof fn lemma_chunk_layout(prefix: Seq<u8>, c: Seq<u8>, tail: Seq<u8>)
    requires
        c.len() <= usize::MAX,
    ensures
        ({
            let b = prefix + chunk_bytes(c) + tail;
            let pos = prefix.len() as int;
            let hb = encode_utf8(hex_numeral(c.len()));
            let e = pos + hb.len();
            &&& hb.len() == hex_numeral(c.len()).len()
            &&& crlf_bytes_at(b, e)
            &&& forall|k: int| pos <= k < e ==> #[trigger] b[k] != 13
            &&& b.subrange(pos, e) == hb
            &&& b.subrange(e + 2, e + 2 + c.len()) == c
            &&& b.len() - (e + 2) >= c.len() + 2
            &&& (prefix + chunk_bytes(c)).len() == e + 2 + c.len() + 2
        }),
{
    let b = prefix + chunk_bytes(c) + tail;
    let pos = prefix.len() as int;
    let h = hex_numeral(c.len());
    let hb = encode_utf8(h);
    lemma_hex_line(c.len());
    let e = pos + hb.len();
    assert(b =~= prefix + hb + seq![13u8, 10u8] + c + seq![13u8, 10u8] + tail);
    assert forall|k: int| pos <= k < e implies #[trigger] b[k] != 13 by {
        assert(b[k] == hb[k - pos]);
    }
    assert(b[e] == 13u8 && b[e + 1] == 10u8);
    assert(b.subrange(pos, e) =~= hb);
    assert(b.subrange(e + 2, e + 2 + c.len()) =~= c);
}

/// One chunk read: the reading goes on after it with its data added.
#[verifier::rlimit(30)]
proof fn lemma_chunk_step(prefix: Seq<u8>, c: Seq<u8>, tail: Seq<u8>, out: Seq<u8>)
    requires
        0 < c.len(),
        c.len() + 2 <= usize::MAX,
    ensures
        chunked_from(prefix + chunk_bytes(c) + tail, prefix.len() as int, out) == chunked_from(
            prefix + chunk_bytes(c) + tail,
            (prefix + chunk_bytes(c)).len() as int,
            out + c,
        ),
{
    let b = prefix + chunk_bytes(c) + tail;
    let pos = prefix.len() as int;
    let n = c.len();
    let h = hex_numeral(n);
    let hb = encode_utf8(h);
    lemma_hex_line(n);
    lemma_chunk_layout(prefix, c, tail);
    let e = pos + hb.len();
    lemma_find_crlf_bytes_at(b, pos, e);
    assert(find_crlf_bytes(b, pos) == e);
    assert(b.subrange(pos, e) == hb);
    assert(valid_utf8(b.subrange(pos, e)));
    assert(decode_utf8(b.subrange(pos, e)) == h);
}

/// The size-0 line ends the reading.
proof fn lemma_last_chunk_step(prefix: Seq<u8>, trailer: Seq<u8>, out: Seq<u8>)
    ensures
        chunked_from(prefix + last_chunk(trailer), prefix.len() as int, out) == ChunkedOutcome::Decoded(out),
{
    let b = prefix + last_chunk(trailer);
    let pos = prefix.len() as int;
    let h = hex_numeral(0);
    lemma_hex_line(0);
    lemma_hex_upper_code(0);
    assert(b[pos] == 48u8 && b[pos + 1] == 13u8 && b[pos + 2] == 10u8);
    lemma_find_crlf_bytes_at(b, pos, pos + 1);
    assert(encode_utf8(h).len() == 1);
    assert(encode_utf8(h)[0] == h[0] as u8);
    assert(b.subrange(pos, pos + 1) =~= encode_utf8(h));
}

proof fn lemma_chunked_from_encoded(prefix: Seq<u8>, chunks: Seq<Seq<u8>>, trailer: Seq<u8>, out: Seq<u8>)
    requires
        sendable_chunks(chunks),
    ensures
        chunked_from(prefix + chunks_encoded(chunks) + last_chunk(trailer), prefix.len() as int, out)
            == ChunkedOutcome::Decoded(out + chunks_joined(chunks)),
    decreases chunks.len(),
{
    if chunks.len() == 0 {
        assert(prefix + chunks_encoded(chunks) + last_chunk(trailer) =~= prefix + last_chunk(trailer));
        lemma_last_chunk_step(prefix, trailer, out);
        assert(out + chunks_joined(chunks) =~= out);
    } else {
        let c = chunks[0];
        let rest = chunks.drop_first();
        let tail = chunks_encoded(rest) + last_chunk(trailer);
        assert(prefix + chunks_encoded(chunks) + last_chunk(trailer) =~= prefix + chunk_bytes(c) + tail);
        assert(0 < chunks[0].len() && chunks[0].len() + 2 <= usize::MAX);
        lemma_chunk_step(prefix, c, tail, out);
        let prefix2 = prefix + chunk_bytes(c);
        assert(prefix + chunk_bytes(c) + tail =~= prefix2 + chunks_encoded(rest) + last_chunk(trailer));
        assert(sendable_chunks(rest)) by {
            assert forall|i: int| 0 <= i < rest.len() implies 0 < (#[trigger] rest[i]).len() && rest[i].len() + 2
                <= usize::MAX by {
                assert(rest[i] == chunks[i + 1]);
            }
        }
        lemma_chunked_from_encoded(prefix2, rest, trailer, out + c);
        assert(out + c + chunks_joined(rest) =~= out + chunks_joined(chunks));
    }
}

/// Decoding a chunked body gives back the data of its chunks, whatever
/// trailer follows the size-0 line.
pub proof fn lemma_chunked_round_trip(chunks: Seq<Seq<u8>>, trailer: Seq<u8>)
    requires
        sendable_chunks(chunks),
    ensures
        chunked_body(chunks_encoded(chunks) + last_chunk(trailer)) == ChunkedOutcome::Decoded(chunks_joined(chunks)),
{
    lemma_chunked_from_encoded(Seq::empty(), chunks, trailer, Seq::empty());
    assert(Seq::<u8>::empty() + chunks_encoded(chunks) + last_chunk(trailer) =~= chunks_encoded(chunks) + last_chunk(trailer));
    assert(Seq::<u8>::empty() + chunks_joined(chunks) =~= chunks_joined(chunks));
}

/// A size line that announces `n` bytes: ASCII without CR, hexadecimal
/// digits of either case (leading zeros allowed) worth `n` before the first
/// ';', and any chunk extension after it.
pub open spec fn size_line_ok(line: Seq<char>, n: nat) -> bool {
    let d = line.subrange(0, find_from(line, ';', 0));
    &&& is_ascii_chars(line)
    &&& !line.contains('\r')
    &&& d.len() > 0
    &&& all_digits(d, 16)
    &&& digits_value(d, 16) == n
}

/// One chunk sent with the size line `line`: the line, CR LF, the data, CR LF.
pub open spec fn chunk_with_line(line: Seq<char>, data: Seq<u8>) -> Seq<u8> {
    encode_utf8(line) + seq![13u8, 10u8] + data + seq![13u8, 10u8]
}

/// The chunks one after another, each with its size line.
pub open spec fn chunks_with_lines(lines: Seq<Seq<char>>, chunks: Seq<Seq<u8>>) -> Seq<u8>
    decreases chunks.len(),
{
    if chunks.len() == 0 {
        Seq::empty()
    } else {
        chunk_with_line(lines[0], chunks[0]) + chunks_with_lines(lines.drop_first(), chunks.drop_first())
    }
}

/// A size line reads back as its size.
proof fn lemma_size_line(line: Seq<char>, n: nat)
    requires
        size_line_ok(line, n),
        n <= usize::MAX,
    ensures
        encode_utf8(line).len() == line.len(),
        forall|i: int| 0 <= i < line.len() ==> #[trigger] encode_utf8(line)[i] != 13,
        valid_utf8(encode_utf8(line)),
        decode_utf8(encode_utf8(line)) == line,
        parse_usize_radix(trim(line.subrange(0, find_from(line, ';', 0))), 16) == Some(n as usize),
{
    broadcast use vstd::utf8::group_utf8_lib;

    vstd::utf8::is_ascii_chars_encode_utf8(line);
    vstd::utf8::is_ascii_chars_nat_bound(line);
    assert forall|i: int| 0 <= i < line.len() implies #[trigger] encode_utf8(line)[i] != 13 by {
        assert(line[i] as u8 == encode_utf8(line)[i]);
        assert((line[i] as nat) < 128);
        assert(line[i] != '\r') by {
            if line[i] == '\r' {
                assert(line.contains('\r'));
            }
        }
        assert((line[i] as u8) as nat == line[i] as nat);
    }
    lemma_find_from_bounds(line, ';', 0);
    let d = line.subrange(0, find_from(line, ';', 0));
    assert(digit_val(d[0], 16) >= 0);
    assert(digit_val(d[d.len() - 1], 16) >= 0);
    assert(crate::text::trim_start(d) == d);
    assert(crate::text::trim_end(d) == d);
    assert(d[0] != '+' && d[0] != '-');
    assert(!(d =~= seq!['+']) && !(d =~= seq!['-']));
}

/// Where the parts of a chunk sent with `line` lie when it follows `prefix`.
proof fn lemma_line_chunk_layout(prefix: Seq<u8>, line: Seq<char>, c: Seq<u8>, tail: Seq<u8>)
    requires
        size_line_ok(line, c.len()),
        c.len() <= usize::MAX,
    ensures
        ({
            let b = prefix + chunk_with_line(line, c) + tail;
            let pos = prefix.len() as int;
            let lb = encode_utf8(line);
            let e = pos + lb.len();
            &&& crlf_bytes_at(b, e)
            &&& forall|k: int| pos <= k < e ==> #[trigger] b[k] != 13
            &&& b.subrange(pos, e) == lb
            &&& b.subrange(e + 2, e + 2 + c.len()) == c
            &&& b.len() - (e + 2) >= c.len() + 2
            &&& (prefix + chunk_with_line(line, c)).len() == e + 2 + c.len() + 2
        }),
{
    let b = prefix + chunk_with_line(line, c) + tail;
    let pos = prefix.len() as int;
    let lb = encode_utf8(line);
    lemma_size_line(line, c.len());
    let e = pos + lb.len();
    assert(b =~= prefix + lb + seq![13u8, 10u8] + c + seq![13u8, 10u8] + tail);
    assert forall|k: int| pos <= k < e implies #[trigger] b[k] != 13 by {
        assert(b[k] == lb[k - pos]);
    }
    assert(b[e] == 13u8 && b[e + 1] == 10u8);
    assert(b.subrange(pos, e) =~= lb);
    assert(b.subrange(e + 2, e + 2 + c.len()) =~= c);
}

#[verifier::rlimit(30)]
proof fn lemma_line_chunk_step(prefix: Seq<u8>, line: Seq<char>, c: Seq<u8>, tail: Seq<u8>, out: Seq<u8>)
    requires
        size_line_ok(line, c.len()),
        0 < c.len(),
        c.len() + 2 <= usize::MAX,
    ensures
        chunked_from(prefix + chunk_with_line(line, c) + tail, prefix.len() as int, out) == chunked_from(
            prefix + chunk_with_line(line, c) + tail,
            (prefix + chunk_with_line(line, c)).len() as int,
            out + c,
        ),
{
    let b = prefix + chunk_with_line(line, c) + tail;
    let pos = prefix.len() as int;
    let lb = encode_utf8(line);
    lemma_size_line(line, c.len());
    lemma_line_chunk_layout(prefix, line, c, tail);
    let e = pos + lb.len();
    lemma_find_crlf_bytes_at(b, pos, e);
    assert(find_crlf_bytes(b, pos) == e);
    assert(b.subrange(pos, e) == lb);
    assert(valid_utf8(b.subrange(pos, e)));
    assert(decode_utf8(b.subrange(pos, e)) == line);
}

proof fn lemma_chunked_from_lines(
    prefix: Seq<u8>,
    lines: Seq<Seq<char>>,
    chunks: Seq<Seq<u8>>,
    trailer: Seq<u8>,
    out: Seq<u8>,
)
    requires
        sendable_chunks(chunks),
        lines.len() == chunks.len(),
        forall|i: int| 0 <= i < chunks.len() ==> size_line_ok(#[trigger] lines[i], chunks[i].len()),
    ensures
        chunked_from(prefix + chunks_with_lines(lines, chunks) + last_chunk(trailer), prefix.len() as int, out)
            == ChunkedOutcome::Decoded(out + chunks_joined(chunks)),
    decreases chunks.len(),
{
    if chunks.len() == 0 {
        assert(prefix + chunks_with_lines(lines, chunks) + last_chunk(trailer) =~= prefix + last_chunk(trailer));
        lemma_last_chunk_step(prefix, trailer, out);
        assert(out + chunks_joined(chunks) =~= out);
    } else {
        let c = chunks[0];
        let line = lines[0];
        let rest = chunks.drop_first();
        let rest_lines = lines.drop_first();
        let tail = chunks_with_lines(rest_lines, rest) + last_chunk(trailer);
        assert(prefix + chunks_with_lines(lines, chunks) + last_chunk(trailer) =~= prefix + chunk_with_line(line, c)
            + tail);
        assert(0 < chunks[0].len() && chunks[0].len() + 2 <= usize::MAX);
        assert(size_line_ok(lines[0], chunks[0].len()));
        lemma_line_chunk_step(prefix, line, c, tail, out);
        let prefix2 = prefix + chunk_with_line(line, c);
        assert(prefix + chunk_with_line(line, c) + tail =~= prefix2 + chunks_with_lines(rest_lines, rest)
            + last_chunk(trailer));
        assert(sendable_chunks(rest)) by {
            assert forall|i: int| 0 <= i < rest.len() implies 0 < (#[trigger] rest[i]).len() && rest[i].len() + 2
                <= usize::MAX by {
                assert(rest[i] == chunks[i + 1]);
            }
        }
        assert forall|i: int| 0 <= i < rest.len() implies size_line_ok(#[trigger] rest_lines[i], rest[i].len()) by {
            assert(rest_lines[i] == lines[i + 1]);
            assert(rest[i] == chunks[i + 1]);
        }
        lemma_chunked_from_lines(prefix2, rest_lines, rest, trailer, out + c);
        assert(out + c + chunks_joined(rest) =~= out + chunks_joined(chunks));
    }
}

/// Decoding a chunked body gives back the data of its chunks, whatever
/// form each size line takes (hexadecimal digits of either case, leading
/// zeros, a `;` extension) and whatever trailer follows the size-0 line.
pub proof fn lemma_chunked_round_trip_any_lines(lines: Seq<Seq<char>>, chunks: Seq<Seq<u8>>, trailer: Seq<u8>)
    requires
        sendable_chunks(chunks),
        lines.len() == chunks.len(),
        forall|i: int| 0 <= i < chunks.len() ==> size_line_ok(#[trigger] lines[i], chunks[i].len()),
    ensures
        chunked_body(chunks_with_lines(lines, chunks) + last_chunk(trailer)) == ChunkedOutcome::Decoded(
            chunks_joined(chunks),
        ),
{
    lemma_chunked_from_lines(Seq::empty(), lines, chunks, trailer, Seq::empty());
    assert(Seq::<u8>::empty() + chunks_with_lines(lines, chunks) + last_chunk(trailer) =~= chunks_with_lines(
        lines,
        chunks,
    ) + last_chunk(trailer));
    assert(Seq::<u8>::empty() + chunks_joined(chunks) =~= chunks_joined(chunks));
}

/// Decodes a body sent with `Transfer-Encoding: chunked`.
pub fn decode_chunked(input: &[u8]) -> (r: Result<Vec<u8>, BangumiError>)
    requires
        !(chunked_body(input@) is SizeOverflow),
    ensures
        match chunked_body(input@) {
            ChunkedOutcome::Decoded(d) => r matches Ok(v) && v@ == d,
            ChunkedOutcome::Failed(e) => r matches Err(x) && x@ == e,
            ChunkedOutcome::SizeOverflow => false,
        },
{
    match decode_chunked_checked(input) {
        Some(r) => r,
        None => Err(BangumiError::Parse("chunked长度非法".to_owned())),
    }
}

// ---------------------------------------------------------------- responses

/// A parsed HTTP response: status code, `Location` header and body.
pub struct HttpResponse {
    pub status_code: u16,
    pub location: Option<String>,
    pub body: Vec<u8>,
}

/// The abstract value of an [`HttpResponse`].
pub struct ResponseView {
    pub status_code: u16,
    pub location: Option<Seq<char>>,
    pub body: Seq<u8>,
}

impl View for HttpResponse {
    type V = ResponseView;

    open spec fn view(&self) -> ResponseView {
        ResponseView {
            status_code: self.status_code,
            location: self.location.deep_view(),
            body: self.body@,
        }
    }
}

impl HttpResponse {
    /// The `Location` header, if the response had one.
    pub fn location(&self) -> (r: Option<&str>)
        ensures
            r.deep_view() == self@.location,
    {
        match &self.location {
            Some(s) => Some(s.as_str()),
            None => None,
        }
    }
}

/// How parsing a response ends.
pub enum ResponseOutcome {
    Parsed(ResponseView),
    Failed(ErrorView),
    SizeOverflow,
}

/// The body that follows the header block, given the header fields: decoded
/// when chunked, else cut to `Content-Length` when that many bytes are there.
pub open spec fn response_body(
    code: u16,
    h: HeaderFields,
    body: Seq<u8>,
) -> ResponseOutcome {
    if h.chunked {
        match chunked_body(body) {
            ChunkedOutcome::Decoded(d) => ResponseOutcome::Parsed(
                ResponseView { status_code: code, location: h.location, body: d },
            ),
            ChunkedOutcome::Failed(e) => ResponseOutcome::Failed(e),
            ChunkedOutcome::SizeOverflow => ResponseOutcome::SizeOverflow,
        }
    } else {
        let bd = match h.content_length {
            Some(n) => if n <= body.len() {
                body.take(n as int)
            } else {
                body
            },
            None => body,
        };
        ResponseOutcome::Parsed(ResponseView { status_code: code, location: h.location, body: bd })
    }
}

/// What the client makes of the raw bytes of a response: the header block runs
/// to the first blank line and must be UTF-8; its first line is the status
/// line, the following lines the headers.
pub open spec fn http_response(b: Seq<u8>) -> ResponseOutcome {
    let p = find_blank_line(b, 0);
    if p < 0 {
        ResponseOutcome::Failed(ErrorView::Parse("HTTP响应头不完整"@))
    } else {
        let hb = b.subrange(0, p + 4);
        let body = b.subrange(p + 4, b.len() as int);
        if !valid_utf8(hb) {
            ResponseOutcome::Failed(ErrorView::Parse("HTTP头编码错误: "@ + utf8_error_text(hb)))
        } else {
            let t = decode_utf8(hb);
            let e0 = find_crlf(t, 0);
            match status_code_of(t.subrange(0, e0)) {
                Err(err) => ResponseOutcome::Failed(err),
                Ok(code) => {
                    let h = if e0 < t.len() {
                        scan_headers(t, e0 + 2, no_header_fields())
                    } else {
                        no_header_fields()
                    };
                    response_body(code, h, body)
                },
            }
        }
    }
}

/// The result of a parse agrees with the outcome the specification gives.
pub open spec fn response_matches(o: ResponseOutcome, r: Result<HttpResponse, BangumiError>) -> bool {
    match o {
        ResponseOutcome::Parsed(v) => r matches Ok(x) && x@ == v,
        ResponseOutcome::Failed(e) => r matches Err(x) && x@ == e,
        ResponseOutcome::SizeOverflow => false,
    }
}

/// A blank line found in the bytes from `i` on lies at or after `i`.
pub proof fn lemma_find_blank_line_bounds(b: Seq<u8>, i: int)
    requires
        0 <= i,
    ensures
        find_blank_line(b, i) == -1 || (i <= find_blank_line(b, i) && blank_line_at(b, find_blank_line(b, i))),
    decreases b.len() - i,
{
    if i + 3 < b.len() && !blank_line_at(b, i) {
        lemma_find_blank_line_bounds(b, i + 1);
    }
}

/// The outcome of a checked parse agrees with the specification, `None`
/// standing for the chunk size overflow.
pub open spec fn checked_response_matches(
    o: ResponseOutcome,
    r: Option<Result<HttpResponse, BangumiError>>,
) -> bool {
    match r {
        None => o is SizeOverflow,
        Some(x) => response_matches(o, x),
    }
}

/// Parses the raw bytes of an HTTP/1.1 response.
pub fn parse_http_response(bytes: &[u8]) -> (r: Result<HttpResponse, BangumiError>)
    requires
        !(http_response(bytes@) is SizeOverflow),
    ensures
        response_matches(http_response(bytes@), r),
{
    match parse_http_response_checked(bytes) {
        Some(r) => r,
        None => Err(BangumiError::Parse("chunked长度非法".to_owned())),
    }
}

/// Parses the raw bytes of an HTTP/1.1 response; `None` when a chunk size of
/// a chunked body is too large for its trailing CR LF to be counted.
pub fn parse_http_response_checked(bytes: &[u8]) -> (r: Option<Result<HttpResponse, BangumiError>>)
    ensures
        checked_response_matches(http_response(bytes@), r),
{
    proof {
        lemma_find_blank_line_bounds(bytes@, 0);
    }
    let p = match find_blank_line_in_bytes(bytes) {
        None => {
            return Some(Err(BangumiError::Parse("HTTP响应头不完整".to_owned())));
        },
        Some(p) => p,
    };
    assert(blank_line_at(bytes@, p as int));
    let n = bytes.len();
    assert(p + 3 < n);
    let header = copy_range(bytes, 0, p + 4);
    let text = match utf8_to_str(&header) {
        Err(m) => {
            return Some(Err(BangumiError::Parse(join2("HTTP头编码错误: ", &m))));
        },
        Ok(text) => text,
    };
    let t = chars_of(text);
    let e0 = find_crlf_in(&t, 0);
    let status = copy_range(&t, 0, e0);
    let code = match status_code_from(&status) {
        Err(e) => {
            return Some(Err(e));
        },
        Ok(c) => c,
    };
    let (location, chunked, content_length) = if e0 < t.len() {
        proof {
            lemma_find_crlf_bounds(t@, 0);
        }
        read_headers(&t, e0 + 2)
    } else {
        (None, false, None)
    };
    let ghost h = fields_of(location, chunked, content_length);
    let body = copy_range(bytes, p + 4, bytes.len());
    if chunked {
        match decode_chunked_checked(&body) {
            Some(Ok(d)) => Some(Ok(HttpResponse { status_code: code, location, body: d })),
            Some(Err(e)) => Some(Err(e)),
            None => None,
        }
    } else {
        let data = match content_length {
            Some(n) => if n <= body.len() {
                copy_range(&body, 0, n)
            } else {
                body
            },
            None => body,
        };
        Some(Ok(HttpResponse { status_code: code, location, body: data }))
    }
}

} // verus!
