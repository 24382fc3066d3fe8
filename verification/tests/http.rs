use unity_pipeline_cli::failure::Failure;
use unity_pipeline_cli::http::{
    build_headers, decode_chunked, http_get, http_post_json, parse_response, parse_retry_after,
    probe_pipeline, HttpResponse,
};

fn response(status: u16) -> HttpResponse {
    HttpResponse {
        status,
        reason: String::new(),
        body: String::new(),
        retry_after: None,
    }
}

#[test]
fn success_is_two_hundred_and_up() {
    assert!(!response(199).ok());
    assert!(response(200).ok());
    assert!(response(299).ok());
    assert!(!response(300).ok());
}

#[test]
fn a_get_request() {
    assert_eq!(
        http_get(7800, "/api/commands", Some("tok")),
        "GET /api/commands HTTP/1.1\r\nHost: 127.0.0.1:7800\r\nAccept: */*\r\nConnection: close\r\nAuthorization: Bearer tok\r\n\r\n"
    );
}

#[test]
fn a_post_request_counts_bytes() {
    assert_eq!(
        http_post_json(1, "/api/exec", None, "{\"é\":1}"),
        "POST /api/exec HTTP/1.1\r\nHost: 127.0.0.1:1\r\nAccept: */*\r\nConnection: close\r\nContent-Type: application/json\r\nContent-Length: 8\r\n\r\n{\"é\":1}"
    );
}

#[test]
fn headers_in_order() {
    assert_eq!(
        build_headers("h", 65535, Some("t"), Some("c"), Some(0)),
        "Host: h:65535\r\nAccept: */*\r\nConnection: close\r\nAuthorization: Bearer t\r\nContent-Type: c\r\nContent-Length: 0\r\n"
    );
}

#[test]
fn a_plain_answer() {
    let raw = b"HTTP/1.1 503 Service Unavailable\r\nretry-after:  7 \r\nContent-Length: 2\r\n\r\n{}";
    assert_eq!(
        parse_response(raw),
        Ok(HttpResponse {
            status: 503,
            reason: "Service Unavailable".to_owned(),
            body: "{}".to_owned(),
            retry_after: Some(7),
        })
    );
}

#[test]
fn an_answer_without_a_reason() {
    let r = parse_response(b"HTTP/1.1 204\r\n\r\n").unwrap();
    assert_eq!(r.status, 204);
    assert_eq!(r.reason, "");
    assert_eq!(r.body, "");
}

#[test]
fn bytes_that_are_no_text_are_replaced() {
    let r = parse_response(b"HTTP/1.1 200 OK\r\n\r\na\xffb").unwrap();
    assert_eq!(r.body, "a\u{fffd}b");
}

#[test]
fn a_chunked_answer() {
    let raw = b"HTTP/1.1 200 OK\r\nTransfer-Encoding: Chunked\r\n\r\n3;x=1\r\nabc\r\nA\r\n0123456789\r\n0\r\n\r\n";
    assert_eq!(parse_response(raw).unwrap().body, "abc0123456789");
}

#[test]
fn malformed_answers() {
    let text = |r: Result<HttpResponse, Failure>| r.unwrap_err().text();
    assert_eq!(
        text(parse_response(b"HTTP/1.1 200 OK\r\n")),
        "malformed HTTP response (no header terminator)"
    );
    assert_eq!(
        text(parse_response(b"HTTP/1.1 abc\r\n\r\n")),
        "invalid HTTP status line: HTTP/1.1 abc"
    );
    assert_eq!(text(parse_response(b"\xff\r\n\r\n")), "invalid HTTP status line: ");
}

#[test]
fn chunks_are_joined() {
    assert_eq!(decode_chunked(b"4\r\nWiki\r\n5\r\npedia\r\n0\r\n\r\n"), Ok("Wikipedia".to_owned()));
    assert_eq!(decode_chunked(b""), Ok(String::new()));
    // A character may be cut by the end of a chunk.
    assert_eq!(decode_chunked(b"1\r\n\xc3\r\n1\r\n\xa9\r\n0\r\n\r\n"), Ok("é".to_owned()));
}

#[test]
fn malformed_chunks() {
    let text = |data: &[u8]| decode_chunked(data).unwrap_err().text();
    assert_eq!(text(b"4"), "malformed chunked body");
    assert_eq!(text(b"\xff\r\n"), "chunk size is not utf-8");
    assert_eq!(text(b" xyz ;a\r\n"), "invalid chunk size: xyz");
    assert_eq!(text(b"5\r\nabc"), "truncated chunk");
    assert_eq!(text(b"ffffffffffffffff\r\nabc"), "truncated chunk");
}

#[test]
fn retry_after_in_seconds() {
    assert_eq!(parse_retry_after("HTTP/1.1 503 X\r\nRetry-After: 12"), Some(12));
    assert_eq!(parse_retry_after("Retry-After: 12"), None);
    assert_eq!(parse_retry_after("HTTP/1.1 503 X\r\nRetry-After: soon\r\nRETRY-AFTER:3"), Some(3));
    assert_eq!(parse_retry_after("HTTP/1.1 503 X\r\nA: 1"), None);
}

#[test]
fn a_server_that_answers_is_alive() {
    assert!(probe_pipeline(&Ok(response(200)), Some("t")));
    assert!(probe_pipeline(&Ok(response(401)), None));
    assert!(!probe_pipeline(&Ok(response(401)), Some("t")));
    assert!(!probe_pipeline(&Ok(response(500)), None));
    assert!(!probe_pipeline(&Err(Failure::new("x")), None));
}
