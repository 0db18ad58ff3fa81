use bgm_rename_cuby::bangumi_api::BangumiError;
use bgm_rename_cuby::fetch::{FetchStep, HttpsGet, WinHttpGet, WinPhase, WinStep};
use bgm_rename_cuby::http::{decode_chunked, decode_chunked_checked, parse_http_response, parse_http_response_checked};
use bgm_rename_cuby::url::{build_get_request, parse_https_url, percent_encode_path_segment, resolve_redirect_url};

fn parse_error(r: Result<Vec<u8>, BangumiError>) -> String {
    match r {
        Err(BangumiError::Parse(m)) => m,
        _ => panic!("expected a parse error"),
    }
}

#[test]
fn chunked_bodies_that_break_off_are_refused() {
    assert_eq!(parse_error(decode_chunked(b"4")), "chunked长度行不完整");
    assert_eq!(parse_error(decode_chunked(b"zz\r\nabc\r\n")), "chunked长度非法");
    assert_eq!(parse_error(decode_chunked(b"4\r\nWi")), "chunked数据不完整");
    assert_eq!(decode_chunked(b"3;ext=1\r\nabc\r\n0\r\n").expect("extension ignored"), b"abc");
}

#[test]
fn chunk_sizes_beyond_the_machine_are_reported_apart() {
    assert!(decode_chunked_checked(b"FFFFFFFFFFFFFFFF\r\n").is_none());
    assert_eq!(parse_error(decode_chunked(b"FFFFFFFFFFFFFFFFFFFF\r\n")), "chunked长度非法");
    assert!(decode_chunked_checked(b"1\r\na\r\n0\r\n").is_some());
}

#[test]
fn responses_read_status_location_and_chunked_bodies() {
    let raw = b"HTTP/1.1 302 Found\r\nlocation:  /v0/next \r\n\r\n";
    let resp = parse_http_response(raw).expect("parse");
    assert_eq!(resp.status_code, 302);
    assert_eq!(resp.location(), Some("/v0/next"));
    let raw = b"HTTP/1.1 200 OK\r\nTransfer-Encoding: gzip, Chunked\r\n\r\n4\r\nWiki\r\n0\r\n\r\n";
    let resp = parse_http_response(raw).expect("parse");
    assert_eq!(resp.body, b"Wiki");
    assert_eq!(resp.location(), None);
    let raw = b"HTTP/1.1 200 OK\r\nContent-Length: 50\r\n\r\nshort";
    assert_eq!(parse_http_response(raw).expect("parse").body, b"short");
    let checked = parse_http_response_checked(b"HTTP/1.1 204 No Content\r\n\r\n").expect("no overflow");
    assert_eq!(checked.expect("parse").status_code, 204);
}

#[test]
fn malformed_responses_are_parse_errors() {
    let msg = |raw: &[u8]| match parse_http_response(raw) {
        Err(BangumiError::Parse(m)) => m,
        _ => panic!("expected a parse error"),
    };
    assert_eq!(msg(b"HTTP/1.1 200 OK\r\n"), "HTTP响应头不完整");
    assert_eq!(msg(b"HTTP/1.1\r\n\r\n"), "HTTP状态码缺失");
    assert_eq!(msg(b"\r\n\r\n"), "HTTP版本缺失");
    assert_eq!(msg(b"HTTP/1.1 abc OK\r\n\r\n"), "HTTP状态码非法");
    let raw: &[u8] = b"HTTP/1.1 200 OK\r\nX: \xff\r\n\r\n";
    let header_end = raw.windows(4).position(|w| w == b"\r\n\r\n").unwrap() + 4;
    let expected = format!("HTTP头编码错误: {}", std::str::from_utf8(&raw[..header_end]).unwrap_err());
    assert_eq!(msg(raw), expected);
}

#[test]
fn https_urls_split_into_host_port_and_path() {
    assert_eq!(
        parse_https_url("https://api.bgm.tv/v0/episodes?x=1").ok(),
        Some(("api.bgm.tv".to_string(), 443, "/v0/episodes?x=1".to_string()))
    );
    assert_eq!(parse_https_url("https://example.com:8443").ok(), Some(("example.com".to_string(), 8443, "/".to_string())));
    let err = |u: &str| match parse_https_url(u) {
        Err(BangumiError::InvalidInput(m)) => m,
        _ => panic!("expected InvalidInput"),
    };
    assert_eq!(err("http://example.com/"), "仅支持 https:// URL");
    assert_eq!(err("https://example.com:99999/"), "URL端口非法");
    assert_eq!(err("https:///path"), "URL主机为空");
    assert_eq!(err("https://:80/"), "URL主机为空");
}

#[test]
fn redirects_resolve_against_the_current_host() {
    assert_eq!(resolve_redirect_url("https://a.com/x", "https://b.com/y"), "https://b.com/y");
    assert_eq!(resolve_redirect_url("https://a.com/x", "/y"), "https://a.com/y");
    assert_eq!(resolve_redirect_url("https://a.com:8443/x", "/y"), "https://a.com:8443/y");
    assert_eq!(resolve_redirect_url("https://a.com/x", "y"), "y");
    assert_eq!(resolve_redirect_url("ftp://a.com/x", "/y"), "/y");
}

#[test]
fn path_segments_are_percent_encoded_as_utf8() {
    assert_eq!(percent_encode_path_segment("a-b_c.d~E9"), "a-b_c.d~E9");
    assert_eq!(percent_encode_path_segment("a b/中"), "a%20b%2F%E4%B8%AD");
}

#[test]
fn get_requests_ask_for_json_and_close() {
    assert_eq!(
        build_get_request("api.bgm.tv", "/v0/x", "ua"),
        "GET /v0/x HTTP/1.1\r\nHost: api.bgm.tv\r\nUser-Agent: ua\r\nAccept: application/json\r\nConnection: close\r\n\r\n"
    );
}

fn fetch_target(step: &FetchStep) -> (String, u16, String) {
    match step {
        FetchStep::Fetch { host, port, path } => (host.clone(), *port, path.clone()),
        _ => panic!("expected a request"),
    }
}

#[test]
fn a_fetch_follows_redirects_and_returns_the_text() {
    let (mut get, step) = HttpsGet::start("https://api.bgm.tv/a", 5);
    assert_eq!(fetch_target(&step), ("api.bgm.tv".to_string(), 443, "/a".to_string()));
    assert!(get.is_awaiting());
    let step = get.on_reply(Ok(b"HTTP/1.1 301 Moved\r\nLocation: /b\r\n\r\n".to_vec()));
    assert_eq!(fetch_target(&step), ("api.bgm.tv".to_string(), 443, "/b".to_string()));
    assert_eq!(get.current_url(), "https://api.bgm.tv/b");
    let step = get.on_reply(Ok("HTTP/1.1 200 OK\r\n\r\n{\"a\":\"孤独\"}".as_bytes().to_vec()));
    match step {
        FetchStep::Done(Ok(text)) => assert_eq!(text, "{\"a\":\"孤独\"}"),
        _ => panic!("expected the body"),
    }
    assert!(!get.is_awaiting());
}

#[test]
fn a_fetch_spends_its_redirect_budget() {
    let (mut get, _) = HttpsGet::start("https://a.com/", 1);
    let step = get.on_reply(Ok(b"HTTP/1.1 302 Found\r\nLocation: /1\r\n\r\n".to_vec()));
    assert!(matches!(step, FetchStep::Fetch { .. }));
    let step = get.on_reply(Ok(b"HTTP/1.1 302 Found\r\nLocation: /2\r\n\r\n".to_vec()));
    match step {
        FetchStep::Done(Err(BangumiError::Network(m))) => assert_eq!(m, "重定向次数过多"),
        _ => panic!("expected too many redirects"),
    }
}

#[test]
fn a_fetch_maps_status_codes_to_errors() {
    let done = |reply: &[u8]| {
        let (mut get, _) = HttpsGet::start("https://a.com/", 3);
        match get.on_reply(Ok(reply.to_vec())) {
            FetchStep::Done(Err(e)) => e,
            _ => panic!("expected an error"),
        }
    };
    assert!(matches!(done(b"HTTP/1.1 404 Not Found\r\n\r\n"), BangumiError::NotFound));
    assert!(matches!(done(b"HTTP/1.1 429 Too Many\r\n\r\n"), BangumiError::RateLimit));
    match done(b"HTTP/1.1 500 Oops\r\n\r\n") {
        BangumiError::Network(m) => assert_eq!(m, "HTTP错误: 500"),
        _ => panic!("expected a network error"),
    }
    match done(b"HTTP/1.1 307 Temporary\r\n\r\n") {
        BangumiError::Network(m) => assert_eq!(m, "HTTP重定向但缺少Location头"),
        _ => panic!("expected a network error"),
    }
    let body: &[u8] = b"\xff\xfe";
    let mut raw = b"HTTP/1.1 200 OK\r\n\r\n".to_vec();
    raw.extend_from_slice(body);
    match done(&raw) {
        BangumiError::Parse(m) => {
            assert_eq!(m, format!("响应文本编码错误: {}", std::str::from_utf8(body).unwrap_err()))
        },
        _ => panic!("expected a parse error"),
    }
    let (mut get, _) = HttpsGet::start("https://a.com/", 3);
    match get.on_reply(Err(BangumiError::Network("连接失败".to_string()))) {
        FetchStep::Done(Err(BangumiError::Network(m))) => assert_eq!(m, "连接失败"),
        _ => panic!("expected the transport error"),
    }
}

#[test]
fn a_fetch_of_a_bad_url_stops_at_once() {
    let (get, step) = HttpsGet::start("http://a.com/", 3);
    assert!(!get.is_awaiting());
    assert!(matches!(step, FetchStep::Done(Err(BangumiError::InvalidInput(_)))));
}

#[test]
fn the_system_client_reads_the_body_of_a_200_only() {
    let (mut get, step) = WinHttpGet::start("https://api.bgm.tv/a", 1);
    assert!(matches!(&step, WinStep::Request { host, port: 443, path } if host == "api.bgm.tv" && path == "/a"));
    let step = get.on_status(302, Some("https://b.tv:444/c".to_string()));
    assert!(matches!(&step, WinStep::Request { host, port: 444, path } if host == "b.tv" && path == "/c"));
    assert!(matches!(get.on_status(200, None), WinStep::ReadBody));
    assert_eq!(get.phase(), WinPhase::AwaitingBody);
    assert!(matches!(get.on_body("好".as_bytes().to_vec()), WinStep::Done(Ok(t)) if t == "好"));
    let (mut get, _) = WinHttpGet::start("https://a.com/", 0);
    assert!(matches!(get.on_status(301, Some("/x".to_string())), WinStep::Done(Err(BangumiError::Network(m))) if m == "重定向次数过多"));
    let (mut get, _) = WinHttpGet::start("https://a.com/", 2);
    assert!(matches!(get.on_status(503, None), WinStep::Done(Err(BangumiError::Network(m))) if m == "HTTP错误: 503"));
    let (mut get, _) = WinHttpGet::start("https://a.com/", 2);
    assert!(matches!(get.on_failure(BangumiError::Network("WinHttpOpen失败".to_string())), WinStep::Done(Err(_))));
    assert_eq!(get.phase(), WinPhase::Over);
}

#[test]
fn chunks_come_back_as_they_were_sent() {
    let body = b"A\r\n0123456789\r\n3\r\n\r\nx\r\n0\r\nExpires: never\r\n\r\n".to_vec();
    assert_eq!(decode_chunked(&body).unwrap(), b"0123456789\r\nx".to_vec());
}

fn percent_decode(s: &str) -> Vec<u8> {
    let b = s.as_bytes();
    let mut out = Vec::new();
    let mut i = 0;
    while i < b.len() {
        if b[i] == b'%' {
            out.push(u8::from_str_radix(&s[i + 1..i + 3], 16).unwrap());
            i += 3;
        } else {
            out.push(b[i]);
            i += 1;
        }
    }
    out
}

#[test]
fn percent_encoding_decodes_back_to_the_bytes() {
    let input = "ぼっち・ざ・ろっく! 2/3";
    let encoded = percent_encode_path_segment(input);
    assert!(encoded.chars().all(|c| c.is_ascii_alphanumeric() || "-._~%".contains(c)));
    assert_eq!(percent_decode(&encoded), input.as_bytes().to_vec());
    let expected_len: usize = input
        .bytes()
        .map(|b| if b.is_ascii_alphanumeric() || b"-._~".contains(&b) { 1 } else { 3 })
        .sum();
    assert_eq!(encoded.len(), expected_len);
    assert_eq!(percent_encode_path_segment("Bocchi-the_Rock.~1"), "Bocchi-the_Rock.~1");
}

#[test]
fn both_clients_agree_on_the_same_responses() {
    let (mut get, step) = HttpsGet::start("https://a.com/x", 1);
    let (mut win, wstep) = WinHttpGet::start("https://a.com/x", 1);
    assert!(matches!(&wstep, WinStep::Request { host, port, path } if (host.clone(), *port, path.clone()) == fetch_target(&step)));
    let step = get.on_reply(Ok(b"HTTP/1.1 302 Found\r\nLocation: /y\r\n\r\n".to_vec()));
    let wstep = win.on_status(302, Some("/y".to_string()));
    assert!(matches!(&wstep, WinStep::Request { host, port, path } if (host.clone(), *port, path.clone()) == fetch_target(&step)));
    let step = get.on_reply(Ok(b"HTTP/1.1 404 Not Found\r\n\r\n".to_vec()));
    let wstep = win.on_status(404, None);
    assert!(matches!(step, FetchStep::Done(Err(BangumiError::NotFound))));
    assert!(matches!(wstep, WinStep::Done(Err(BangumiError::NotFound))));
}

#[test]
fn chunk_sizes_in_lower_case_with_extensions_read_back() {
    let body = b"0a;name=x\r\n0123456789\r\n003\r\nabc\r\n0\r\n\r\n".to_vec();
    assert_eq!(decode_chunked(&body).unwrap(), b"0123456789abc".to_vec());
}
