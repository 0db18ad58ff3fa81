//! HTTPS URLs: splitting into host, port and path, resolving redirect
//! targets, percent-encoding path segments, and the text of a GET request.
use vstd::prelude::*;
use vstd::utf8::encode_utf8;
use crate::bangumi_api::{BangumiError, ErrorView};
use crate::num::{dec_digits, digit_char, parse_u16, parse_u16_range, push_dec};
use crate::text::{chars_of, find_char, find_from, lemma_find_from_bounds, push_range, push_str};

verus! {

/// `p` is a prefix of `s`.
pub open spec fn has_prefix(s: Seq<char>, p: Seq<char>) -> bool {
    p.len() <= s.len() && s.subrange(0, p.len() as int) == p
}

/// Whether `p` is a prefix of `s`.
pub fn starts_with_chars(s: &[char], p: &[char]) -> (r: bool)
    ensures
        r == has_prefix(s@, p@),
{
    if p.len() > s.len() {
        return false;
    }
    let mut i: usize = 0;
    while i < p.len()
        invariant
            i <= p@.len() <= s@.len(),
            forall|j: int| 0 <= j < i ==> s@[j] == p@[j],
        decreases p@.len() - i,
    {
        if s[i] != p[i] {
            assert(s@.subrange(0, p@.len() as int)[i as int] != p@[i as int]);
            return false;
        }
        i = i + 1;
    }
    assert(s@.subrange(0, p@.len() as int) =~= p@);
    true
}

/// The host, port and path-and-query of an `https://` URL: the host runs to
/// the first '/', a ':' in it introduces the port (443 by default), and the
/// path keeps its leading '/' ("/" when there is none).
pub open spec fn url_target(url: Seq<char>) -> Result<(Seq<char>, u16, Seq<char>), ErrorView> {
    if !has_prefix(url, "https://"@) {
        Err(ErrorView::InvalidInput("仅支持 https:// URL"@))
    } else {
        let rest = url.skip("https://"@.len() as int);
        let s = find_from(rest, '/', 0);
        let host_port = rest.take(s);
        let path = if s < rest.len() {
            rest.skip(s)
        } else {
            seq!['/']
        };
        let c = find_from(host_port, ':', 0);
        if c < host_port.len() {
            match parse_u16(host_port.skip(c + 1)) {
                None => Err(ErrorView::InvalidInput("URL端口非法"@)),
                Some(port) => if c == 0 {
                    Err(ErrorView::InvalidInput("URL主机为空"@))
                } else {
                    Ok((host_port.take(c), port, path))
                },
            }
        } else if host_port.len() == 0 {
            Err(ErrorView::InvalidInput("URL主机为空"@))
        } else {
            Ok((host_port, 443u16, path))
        }
    }
}

/// Splits an `https://` URL into host, port and path-and-query.
pub fn parse_https_url(url: &str) -> (r: Result<(String, u16, String), BangumiError>)
    ensures
        match url_target(url@) {
            Ok((h, p, q)) => r matches Ok(x) && x.0@ == h && x.1 == p && x.2@ == q,
            Err(e) => r matches Err(x) && x@ == e,
        },
{
    let u = chars_of(url);
    let prefix = chars_of("https://");
    if !starts_with_chars(&u, &prefix) {
        return Err(BangumiError::InvalidInput("仅支持 https:// URL".to_owned()));
    }
    let start = prefix.len();
    let ghost rest = u@.skip(start as int);
    let slash = find_char(&u, '/', start);
    proof {
        lemma_find_from_bounds(u@, '/', start as int);
        lemma_find_from_shift(u@, '/', start as int);
    }
    let mut path = String::new();
    if slash < u.len() {
        push_range(&mut path, &u, slash, u.len());
        assert(path@ =~= rest.skip(slash - start));
    } else {
        path.push('/');
        assert(path@ =~= seq!['/']);
    }
    let ghost host_port = rest.take(slash - start);
    assert(host_port =~= u@.subrange(start as int, slash as int));
    let colon = find_char(&u, ':', start);
    proof {
        lemma_find_from_bounds(u@, ':', start as int);
        lemma_find_before(u@, ':', start as int, slash as int);
    }
    if colon < slash {
        let port = match parse_u16_range(&u, colon + 1, slash) {
            None => {
                assert(host_port.skip(colon - start + 1) =~= u@.subrange(colon + 1, slash as int));
                return Err(BangumiError::InvalidInput("URL端口非法".to_owned()));
            },
            Some(p) => p,
        };
        assert(host_port.skip(colon - start + 1) =~= u@.subrange(colon + 1, slash as int));
        if colon == start {
            return Err(BangumiError::InvalidInput("URL主机为空".to_owned()));
        }
        let mut host = String::new();
        push_range(&mut host, &u, start, colon);
        assert(host@ =~= host_port.take(colon - start));
        Ok((host, port, path))
    } else {
        if slash == start {
            return Err(BangumiError::InvalidInput("URL主机为空".to_owned()));
        }
        let mut host = String::new();
        push_range(&mut host, &u, start, slash);
        Ok((host, 443, path))
    }
}

/// Searching a suffix finds the same character, shifted.
pub proof fn lemma_find_from_shift(s: Seq<char>, c: char, k: int)
    requires
        0 <= k <= s.len(),
    ensures
        find_from(s.skip(k), c, 0) == find_from(s, c, k) - k,
{
    lemma_find_from_bounds(s, c, k);
    lemma_find_from_bounds(s.skip(k), c, 0);
    let a = find_from(s.skip(k), c, 0);
    let b = find_from(s, c, k);
    if a < b - k {
        assert(s.skip(k)[a] == s[a + k]);
    } else if a > b - k {
        assert(s.skip(k)[b - k] == s[b]);
    }
}

/// The first `c` of `s[k..e]` is the first `c` of `s[k..]` when that lies before `e`.
pub proof fn lemma_find_before(s: Seq<char>, c: char, k: int, e: int)
    requires
        0 <= k <= e <= s.len(),
    ensures
        find_from(s, c, k) < e ==> find_from(s.subrange(k, e), c, 0) == find_from(s, c, k) - k,
        find_from(s, c, k) >= e ==> find_from(s.subrange(k, e), c, 0) == e - k,
{
    lemma_find_from_bounds(s, c, k);
    lemma_find_from_bounds(s.subrange(k, e), c, 0);
    let a = find_from(s.subrange(k, e), c, 0);
    let b = find_from(s, c, k);
    if a < e - k {
        assert(s.subrange(k, e)[a] == s[a + k]);
    }
    if b < e && b - k < e - k {
        assert(s.subrange(k, e)[b - k] == s[b]);
    }
}


/// Where a redirect leads: an absolute `https://` location as it is; a
/// location starting with '/' on the host (and non-default port) of the
/// current URL when that URL parses; anything else as it is.
pub open spec fn redirect_target(current: Seq<char>, location: Seq<char>) -> Seq<char> {
    if has_prefix(location, "https://"@) {
        location
    } else if location.len() > 0 && location[0] == '/' {
        match url_target(current) {
            Ok((host, port, _path)) => if port == 443 {
                "https://"@ + host + location
            } else {
                "https://"@ + host + seq![':'] + dec_digits(port as nat) + location
            },
            Err(_) => location,
        }
    } else {
        location
    }
}

/// The URL a redirect from `current` to `location` leads to.
pub fn resolve_redirect_url(current: &str, location: &str) -> (r: String)
    ensures
        r@ == redirect_target(current@, location@),
{
    let loc = chars_of(location);
    let prefix = chars_of("https://");
    if starts_with_chars(&loc, &prefix) {
        return location.to_owned();
    }
    if loc.len() > 0 && loc[0] == '/' {
        match parse_https_url(current) {
            Ok((host, port, _path)) => {
                let mut out = "https://".to_owned();
                push_str(&mut out, host.as_str());
                if port != 443 {
                    out.push(':');
                    let mut digits: Vec<char> = Vec::new();
                    push_dec(&mut digits, port as u64);
                    push_range(&mut out, &digits, 0, digits.len());
                    assert(digits@.subrange(0, digits@.len() as int) =~= dec_digits(port as nat));
                }
                push_str(&mut out, location);
                proof {
                    if port != 443 {
                        assert(out@ =~= "https://"@ + host@ + seq![':'] + dec_digits(port as nat) + location@);
                    }
                }
                return out;
            },
            Err(_) => {},
        }
    }
    location.to_owned()
}

/// An RFC 3986 unreserved byte: ASCII letter, digit, '-', '.', '_' or '~'.
pub open spec fn unreserved(b: u8) -> bool {
    (65 <= b <= 90) || (97 <= b <= 122) || (48 <= b <= 57) || b == 45 || b == 46 || b == 95 || b == 126
}

/// The upper-case hexadecimal digit of `d < 16`.
pub open spec fn hex_upper(d: nat) -> char {
    if d < 10 {
        digit_char(d)
    } else {
        ((d + 55) as u8) as char
    }
}

/// One byte percent-encoded: itself when unreserved, else '%' and two hex digits.
pub open spec fn encode_byte(b: u8) -> Seq<char> {
    if unreserved(b) {
        seq![b as char]
    } else {
        seq!['%', hex_upper((b / 16) as nat), hex_upper((b % 16) as nat)]
    }
}

/// The bytes percent-encoded one by one.
pub open spec fn percent_encode(bytes: Seq<u8>) -> Seq<char>
    decreases bytes.len(),
{
    if bytes.len() == 0 {
        Seq::empty()
    } else {
        percent_encode(bytes.drop_last()) + encode_byte(bytes.last())
    }
}

/// A character that may stand in a percent-encoded segment: an unreserved
/// ASCII character or '%'.
pub open spec fn segment_char(c: char) -> bool {
    ||| 'A' <= c && c <= 'Z'
    ||| 'a' <= c && c <= 'z'
    ||| '0' <= c && c <= '9'
    ||| c == '-' || c == '.' || c == '_' || c == '~' || c == '%'
}

/// The value of a hexadecimal digit of either case; `None` for another character.
pub open spec fn hex_value(c: char) -> Option<nat> {
    if '0' <= c && c <= '9' {
        Some((c as int - 48) as nat)
    } else if 'A' <= c && c <= 'F' {
        Some((c as int - 55) as nat)
    } else if 'a' <= c && c <= 'f' {
        Some((c as int - 87) as nat)
    } else {
        None
    }
}

/// Percent-decoding: '%' and two hexadecimal digits give the byte they
/// spell; any other character gives its own code as a byte.
pub open spec fn percent_decode(s: Seq<char>) -> Seq<u8>
    decreases s.len(),
{
    if s.len() == 0 {
        Seq::empty()
    } else if s[0] == '%' && s.len() >= 3 && hex_value(s[1]) is Some && hex_value(s[2]) is Some {
        seq![(hex_value(s[1]).unwrap() * 16 + hex_value(s[2]).unwrap()) as u8] + percent_decode(s.skip(3))
    } else {
        seq![s[0] as u8] + percent_decode(s.skip(1))
    }
}

/// The length of a percent-encoding: one character for each unreserved
/// byte, three for each other byte.
pub open spec fn encoded_len(bytes: Seq<u8>) -> nat
    decreases bytes.len(),
{
    if bytes.len() == 0 {
        0
    } else {
        encoded_len(bytes.drop_last()) + if unreserved(bytes.last()) {
            1nat
        } else {
            3nat
        }
    }
}

/// The code of an upper-case hexadecimal digit: '0'..'9' below ten, 'A'..'F' from ten on.
pub proof fn lemma_hex_upper_code(d: nat)
    requires
        d < 16,
    ensures
        hex_upper(d) as int == if d < 10 {
            d + 48
        } else {
            d + 55
        },
{
    if d < 10 {
        assert(((d + 48) as u8) as int == d + 48);
    } else {
        assert(((d + 55) as u8) as int == d + 55);
    }
}

proof fn lemma_hex_upper(d: nat)
    requires
        d < 16,
    ensures
        hex_value(hex_upper(d)) == Some(d),
        segment_char(hex_upper(d)),
{
    lemma_hex_upper_code(d);
}

proof fn lemma_encode_byte(b: u8, rest: Seq<char>)
    ensures
        percent_decode(encode_byte(b) + rest) == seq![b] + percent_decode(rest),
        forall|i: int| 0 <= i < encode_byte(b).len() ==> segment_char(#[trigger] encode_byte(b)[i]),
        encode_byte(b).len() == if unreserved(b) {
            1nat
        } else {
            3nat
        },
{
    let s = encode_byte(b) + rest;
    if unreserved(b) {
        assert((b as char) as int == b as int);
        assert(s[0] == b as char);
        assert(s.skip(1) =~= rest);
        assert((s[0] as u8) == b);
    } else {
        let hi = (b / 16) as nat;
        let lo = (b % 16) as nat;
        lemma_hex_upper(hi);
        lemma_hex_upper(lo);
        assert(s[0] == '%' && s[1] == hex_upper(hi) && s[2] == hex_upper(lo));
        assert(s.skip(3) =~= rest);
        assert(hi * 16 + lo == b as nat);
    }
}

proof fn lemma_percent_encode_cons(b: u8, bs: Seq<u8>)
    ensures
        percent_encode(seq![b] + bs) == encode_byte(b) + percent_encode(bs),
    decreases bs.len(),
{
    if bs.len() == 0 {
        assert(seq![b] + bs =~= seq![b]);
        assert(seq![b].drop_last() =~= Seq::<u8>::empty());
        assert(percent_encode(Seq::<u8>::empty()) =~= Seq::<char>::empty());
        assert(percent_encode(seq![b]) == percent_encode(seq![b].drop_last()) + encode_byte(seq![b].last()));
        assert(percent_encode(seq![b]) =~= encode_byte(b) + percent_encode(bs));
    } else {
        let whole = seq![b] + bs;
        assert(whole.drop_last() =~= seq![b] + bs.drop_last());
        assert(whole.last() == bs.last());
        lemma_percent_encode_cons(b, bs.drop_last());
        assert(percent_encode(whole) == percent_encode(whole.drop_last()) + encode_byte(whole.last()));
        assert(percent_encode(bs) == percent_encode(bs.drop_last()) + encode_byte(bs.last()));
        assert(percent_encode(whole) =~= encode_byte(b) + percent_encode(bs));
    }
}

/// The laws of percent-encoding, which [`percent_encode_path_segment`]
/// applies to the UTF-8 bytes of its input: decoding the result gives the
/// bytes back; every character of the result is unreserved or '%'; the
/// result has one character for each unreserved byte and three for each
/// other; and bytes that are all unreserved come out as they are.
pub proof fn lemma_percent_encoding_laws(bytes: Seq<u8>)
    ensures
        percent_decode(percent_encode(bytes)) == bytes,
        forall|i: int| 0 <= i < percent_encode(bytes).len() ==> segment_char(#[trigger] percent_encode(bytes)[i]),
        percent_encode(bytes).len() == encoded_len(bytes),
        (forall|i: int| 0 <= i < bytes.len() ==> unreserved(#[trigger] bytes[i])) ==> percent_encode(bytes)
            == Seq::new(bytes.len(), |i: int| bytes[i] as char),
    decreases bytes.len(),
{
    if bytes.len() == 0 {
        assert(percent_encode(bytes) =~= Seq::<char>::empty());
        assert(percent_decode(Seq::<char>::empty()) =~= bytes);
        assert(Seq::new(bytes.len(), |i: int| bytes[i] as char) =~= Seq::<char>::empty());
    } else {
        let first = bytes[0];
        let rest = bytes.drop_first();
        assert(bytes =~= seq![first] + rest);
        lemma_percent_encoding_laws(rest);
        lemma_percent_encode_cons(first, rest);
        lemma_encode_byte(first, percent_encode(rest));
        assert(percent_decode(percent_encode(bytes)) =~= bytes);
        let init = bytes.drop_last();
        lemma_percent_encoding_laws(init);
        lemma_encode_byte(bytes.last(), Seq::empty());
        let e = encode_byte(bytes.last());
        assert(percent_encode(bytes) == percent_encode(init) + e);
        assert forall|i: int| 0 <= i < percent_encode(bytes).len() implies segment_char(#[trigger] percent_encode(bytes)[i]) by {
            if i < percent_encode(init).len() {
                assert(percent_encode(bytes)[i] == percent_encode(init)[i]);
            } else {
                assert(percent_encode(bytes)[i] == e[i - percent_encode(init).len()]);
            }
        }
        if forall|i: int| 0 <= i < bytes.len() ==> unreserved(#[trigger] bytes[i]) {
            assert(forall|i: int| 0 <= i < init.len() ==> unreserved(#[trigger] init[i])) by {
                assert forall|i: int| 0 <= i < init.len() implies unreserved(#[trigger] init[i]) by {
                    assert(init[i] == bytes[i]);
                }
            }
            assert(unreserved(bytes[bytes.len() - 1]));
            assert(percent_encode(bytes) =~= Seq::new(bytes.len(), |i: int| bytes[i] as char));
        }
    }
}

fn hex_digit(d: u8) -> (c: char)
    requires
        d < 16,
    ensures
        c == hex_upper(d as nat),
{
    if d < 10 {
        (d + 48) as char
    } else {
        (d + 55) as char
    }
}

/// Percent-encodes the UTF-8 bytes of `input`, leaving unreserved bytes as they are.
pub fn percent_encode_path_segment(input: &str) -> (r: String)
    ensures
        r@ == percent_encode(encode_utf8(input@)),
{
    let bytes = input.as_bytes();
    let mut out = String::new();
    let mut i: usize = 0;
    while i < bytes.len()
        invariant
            i <= bytes@.len(),
            bytes@ == encode_utf8(input@),
            out@ == percent_encode(bytes@.take(i as int)),
        decreases bytes@.len() - i,
    {
        let b = bytes[i];
        if (65 <= b && b <= 90) || (97 <= b && b <= 122) || (48 <= b && b <= 57) || b == 45 || b
            == 46 || b == 95 || b == 126 {
            out.push(b as char);
        } else {
            out.push('%');
            out.push(hex_digit(b / 16));
            out.push(hex_digit(b % 16));
        }
        assert(bytes@.take(i + 1).drop_last() =~= bytes@.take(i as int));
        i = i + 1;
        assert(out@ =~= percent_encode(bytes@.take(i as int)));
    }
    assert(bytes@.take(bytes@.len() as int) =~= bytes@);
    out
}

/// The text of a GET request for `path` on `host`, asking for JSON and closing the connection.
pub open spec fn get_request_text(host: Seq<char>, path: Seq<char>, user_agent: Seq<char>) -> Seq<char> {
    "GET "@ + path + " HTTP/1.1\r\nHost: "@ + host + "\r\nUser-Agent: "@ + user_agent
        + "\r\nAccept: application/json\r\nConnection: close\r\n\r\n"@
}

/// Builds the request that is written to the TLS stream.
pub fn build_get_request(host: &str, path: &str, user_agent: &str) -> (r: String)
    ensures
        r@ == get_request_text(host@, path@, user_agent@),
{
    let mut r = "GET ".to_owned();
    push_str(&mut r, path);
    push_str(&mut r, " HTTP/1.1\r\nHost: ");
    push_str(&mut r, host);
    push_str(&mut r, "\r\nUser-Agent: ");
    push_str(&mut r, user_agent);
    push_str(&mut r, "\r\nAccept: application/json\r\nConnection: close\r\n\r\n");
    r
}

} // verus!
