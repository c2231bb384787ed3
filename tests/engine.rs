use mitm_core::engine::{
    after_curl, bad_gateway, bad_request, capture_buffered, create_response_from_cached_data,
    handle_upstream_error, is_streaming_response, join_values, normalize_request, plan_error,
    recover_unexpected_eof, rewrite_streaming_head, ErrorOutcome, ErrorPlan, RequestHead,
    ResponseParts, SseHandler,
};
use mitm_core::headers::Headers;
use mitm_core::records::{HttpVersion, ProxiedResponse};
use mitm_core::relay::SseRelay;

fn headers(pairs: &[(&str, &str)]) -> Headers {
    let mut h = Headers::new();
    for (n, v) in pairs {
        h.append(n.as_bytes().to_vec(), v.as_bytes().to_vec());
    }
    h
}

fn values(h: &Headers, name: &str) -> Vec<Vec<u8>> {
    h.fields
        .iter()
        .filter(|f| f.name.eq_ignore_ascii_case(name.as_bytes()))
        .map(|f| f.value.clone())
        .collect()
}

fn request(pairs: &[(&str, &str)]) -> RequestHead {
    RequestHead {
        method: b"GET".to_vec(),
        uri: b"http://example.com/".to_vec(),
        version: HttpVersion::Http2,
        headers: headers(pairs),
    }
}

#[test]
fn correct_status() {
    let res = bad_request();
    assert_eq!(res.status, 400);
}

#[test]
fn removes_host_header() {
    let req = normalize_request(request(&[("host", "example.com")]));
    assert!(req.headers.get(b"host").is_none());
}

#[test]
fn joins_cookies() {
    let req = normalize_request(request(&[("cookie", "foo=bar"), ("cookie", "baz=qux")]));
    assert_eq!(values(&req.headers, "cookie").len(), 1);
    assert_eq!(req.headers.get(b"cookie"), Some(&b"foo=bar; baz=qux".to_vec()));
}

#[test]
fn normalization_keeps_other_fields_and_forces_http11() {
    let req = normalize_request(request(&[
        ("Host", "a.test"),
        ("accept", "*/*"),
        ("Cookie", "a=1"),
        ("x-y", "z"),
        ("cookie", "b=2"),
        ("cookie", "c=3"),
    ]));
    assert_eq!(req.version, HttpVersion::Http11);
    assert_eq!(req.method, b"GET".to_vec());
    let names: Vec<Vec<u8>> = req.headers.fields.iter().map(|f| f.name.clone()).collect();
    assert_eq!(names, vec![b"accept".to_vec(), b"Cookie".to_vec(), b"x-y".to_vec()]);
    assert_eq!(values(&req.headers, "cookie"), vec![b"a=1; b=2; c=3".to_vec()]);
    let plain = normalize_request(request(&[("accept", "*/*")]));
    assert!(values(&plain.headers, "cookie").is_empty());
}

#[test]
fn join_values_counts() {
    let h = headers(&[("a", "1"), ("b", "2"), ("A", "3")]);
    assert_eq!(join_values(&h, b"a", b", "), (b"1, 3".to_vec(), 2));
    assert_eq!(join_values(&h, b"c", b", "), (Vec::new(), 0));
}

#[test]
fn streaming_detection() {
    assert!(is_streaming_response(&headers(&[("content-type", "text/event-stream; charset=utf-8")])));
    assert!(is_streaming_response(&headers(&[("transfer-encoding", "chunked")])));
    assert!(!is_streaming_response(&headers(&[("content-type", "application/json")])));
}

#[test]
fn streaming_head_is_rewritten() {
    let mut h = headers(&[
        ("content-type", "text/event-stream"),
        ("content-length", "42"),
        ("cache-control", "max-age=60"),
        ("cache-control", "public"),
    ]);
    rewrite_streaming_head(&mut h);
    assert!(h.get(b"content-length").is_none());
    assert_eq!(values(&h, "cache-control"), vec![b"no-cache, no-store, must-revalidate".to_vec()]);
    assert_eq!(values(&h, "connection"), vec![b"keep-alive".to_vec()]);
    assert_eq!(values(&h, "transfer-encoding"), vec![b"chunked".to_vec()]);
    assert_eq!(values(&h, "x-accel-buffering"), vec![b"no".to_vec()]);
    assert_eq!(h.fields[0].name, b"content-type".to_vec());
}

#[test]
fn buffered_exchange_delivers_upstream_bytes() {
    let res = ResponseParts {
        status: 200,
        version: HttpVersion::Http11,
        headers: headers(&[("content-type", "application/json")]),
        body: br#"{ "ok": true }"#.to_vec(),
    };
    let (record, delivered) = capture_buffered(res, 7);
    assert_eq!(delivered.body, br#"{ "ok": true }"#.to_vec());
    assert_eq!(delivered.status, 200);
    assert_eq!(record.body, delivered.body);
    assert_eq!(record.content_type, b"application/json".to_vec());
    assert_eq!(record.time, 7);
}

#[test]
fn sse_relay_passes_frames_through() {
    let mut relay = SseRelay::new();
    let mut client = Vec::new();
    for frame in [&b"data: a\n\n"[..], b"data: b\n\n", b"data: c\n\n"] {
        relay.accept_frame(frame);
        let out = relay.take_for_client().unwrap();
        assert_eq!(out, frame.to_vec());
        client.extend_from_slice(&out);
        assert!(relay.take_for_client().is_none());
    }
    let captured = relay.finish();
    assert_eq!(captured, b"data: a\n\ndata: b\n\ndata: c\n\n".to_vec());
    assert_eq!(client, captured);
}

fn cached(status: u16, body: &[u8]) -> ProxiedResponse {
    ProxiedResponse::new(
        status,
        HttpVersion::Http11,
        headers(&[("Content-Type", "application/json")]),
        body.to_vec(),
        1,
    )
}

#[test]
fn test_handle_error_unexpected_eof_with_cached_response() {
    let c = cached(200, b"Hello, World!");
    match handle_upstream_error(Some(b"tls: UnexpectedEof"), b"error", Some(&c), true) {
        ErrorOutcome::Respond(r) => {
            assert_eq!(r.status, 200);
            assert_eq!(r.body, b"Hello, World!".to_vec());
            assert_eq!(r.headers.fields.len(), 1);
        }
        ErrorOutcome::RunCurl => panic!("unexpected curl"),
    }
}

#[test]
fn test_handle_error_unexpected_eof_without_cached_response() {
    match handle_upstream_error(Some(b"peer closed: unexpected EOF"), b"error", None, false) {
        ErrorOutcome::Respond(r) => {
            assert_eq!(r.status, 200);
            assert!(r.body.is_empty());
        }
        ErrorOutcome::RunCurl => panic!("unexpected curl"),
    }
}

#[test]
fn test_handle_error_handshake_failure_without_request() {
    match handle_upstream_error(Some(b"received fatal alert: HandshakeFailure"), b"client error", None, false) {
        ErrorOutcome::Respond(r) => {
            assert_eq!(r.status, 502);
            assert!(r.body.starts_with(b"Proxy Error:"));
        }
        ErrorOutcome::RunCurl => panic!("unexpected curl"),
    }
}

#[test]
fn handshake_failure_with_request_runs_curl() {
    assert!(matches!(
        handle_upstream_error(Some(b"HandshakeFailure"), b"e", None, true),
        ErrorOutcome::RunCurl
    ));
    assert_eq!(plan_error(Some(b"HandshakeFailure"), true), ErrorPlan::CurlFallback);
    let ok = ResponseParts { status: 200, version: HttpVersion::Http11, headers: Headers::new(), body: b"hello".to_vec() };
    assert_eq!(after_curl(Some(ok), b"e").body, b"hello".to_vec());
    let failed = after_curl(None, b"e");
    assert_eq!(failed.status, 502);
    assert_eq!(failed.body, b"Proxy Error: e".to_vec());
}

#[test]
fn test_handle_error_connection_refused() {
    assert_eq!(plan_error(Some(b"Connection refused"), true), ErrorPlan::BadGateway);
    let r = bad_gateway(b"client error (Connect)");
    assert_eq!(r.status, 502);
    assert!(r.body.starts_with(b"Proxy Error:"));
}

#[test]
fn test_handle_error_timeout() {
    assert_eq!(plan_error(Some(b"Timeout"), true), ErrorPlan::BadGateway);
}

#[test]
fn test_handle_error_unknown() {
    assert_eq!(plan_error(None, true), ErrorPlan::BadGateway);
}

#[test]
fn test_create_response_from_cached_data() {
    let c = cached(201, b"Created resource");
    let r = create_response_from_cached_data(Some(&c));
    assert_eq!(r.status, 201);
    assert_eq!(r.body, b"Created resource".to_vec());
}

#[test]
fn test_create_response_from_cached_data_no_data() {
    let r = create_response_from_cached_data(None);
    assert_eq!(r.status, 500);
    assert_eq!(r.body, b"No cached response data available".to_vec());
}

#[test]
fn eof_recovery_is_bit_identical() {
    let c = cached(404, b"missing");
    let r = recover_unexpected_eof(Some(&c));
    assert_eq!((r.status, r.body.clone()), (404, b"missing".to_vec()));
    assert_eq!(r.headers.fields[0].value, b"application/json".to_vec());
    let empty = recover_unexpected_eof(None);
    assert_eq!((empty.status, empty.body.len(), empty.headers.fields.len()), (200, 0, 0));
}

#[test]
fn sse_handler_prepares_head() {
    let mut h = headers(&[("content-length", "10"), ("Content-Type", "text/event-stream")]);
    SseHandler.handle_sse_response(&mut h);
    assert!(h.get(b"content-length").is_none());
    assert_eq!(values(&h, "cache-control"), vec![b"no-cache, no-store, must-revalidate".to_vec()]);
    assert_eq!(values(&h, "transfer-encoding"), vec![b"chunked".to_vec()]);
    assert_eq!(values(&h, "connection"), vec![b"keep-alive".to_vec()]);
}
