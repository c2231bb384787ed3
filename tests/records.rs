use mitm_core::headers::Headers;
use mitm_core::records::{decimal_i64, detect_content_type, HttpVersion, ProxiedRequest, ProxiedResponse};

#[test]
fn record_content_type_guess() {
    let h = Headers::new();
    assert_eq!(detect_content_type(&h, b""), b"empty".to_vec());
    assert_eq!(detect_content_type(&h, b"  {\"ok\": true}"), b"application/json".to_vec());
    assert_eq!(detect_content_type(&h, b"{ invalid"), b"application/octet-stream".to_vec());
    assert_eq!(detect_content_type(&h, b"<html></html>"), b"application/xml".to_vec());
    assert_eq!(detect_content_type(&h, b"GIF89a..."), b"image/gif".to_vec());
    assert_eq!(detect_content_type(&h, b"ab"), b"application/octet-stream".to_vec());
    assert_eq!(detect_content_type(&h, "\u{3000}<html>".as_bytes()), b"application/xml".to_vec());
    assert_eq!(detect_content_type(&h, "\u{a0}[1, 2]".as_bytes()), b"application/octet-stream".to_vec());
    assert_eq!(detect_content_type(&h, "\u{2003}[1, 2]".as_bytes()), b"application/octet-stream".to_vec());
    assert_eq!(detect_content_type(&h, " \n[1, 2]".as_bytes()), b"application/json".to_vec());
    let mut ct = Headers::new();
    ct.append(b"Content-Type".to_vec(), b"text/x-custom".to_vec());
    assert_eq!(detect_content_type(&ct, b"{}"), b"text/x-custom".to_vec());
}

#[test]
fn record_identifiers() {
    let r = ProxiedRequest::with_token(b"GET".to_vec(), b"/".to_vec(), HttpVersion::Http11, Headers::new(), b"[1]".to_vec(), -12, b"ff");
    assert_eq!(r.id, b"-12-ff".to_vec());
    assert_eq!(r.content_type, b"application/json".to_vec());
    let fresh = ProxiedRequest::new(b"GET".to_vec(), b"/".to_vec(), HttpVersion::Http11, Headers::new(), Vec::new(), 1700);
    assert_eq!(fresh.id.len(), 4 + 1 + 32);
    assert!(fresh.id.starts_with(b"1700-"));
    assert!(fresh.id[5..].iter().all(|b| b.is_ascii_digit() || (b'a'..=b'f').contains(b)));
    assert_eq!(decimal_i64(i64::MIN), b"-9223372036854775808".to_vec());
    assert_eq!(decimal_i64(0), b"0".to_vec());
}

#[test]
fn response_record_fields() {
    let r = ProxiedResponse::new(204, HttpVersion::Http2, Headers::new(), Vec::new(), 3);
    assert_eq!(r.status(), 204);
    assert_eq!(r.version(), HttpVersion::Http2);
    assert_eq!(r.content_type(), &b"empty".to_vec());
    assert_eq!(HttpVersion::Http2.to_string(), "HTTP_2");
}

#[test]
fn json_round_trip_records() {
    let mut req_headers = Headers::new();
    req_headers.append(b"content-type".to_vec(), b"application/json".to_vec());
    let req = ProxiedRequest::with_token(
        b"GET".to_vec(),
        b"https://example.test/v/1.json".to_vec(),
        HttpVersion::Http11,
        req_headers,
        Vec::new(),
        1,
        b"00",
    );
    assert_eq!(req.data_type, mitm_core::data_type::DataType::Json);
    assert!(req.body_json.is_none());
    let mut res_headers = Headers::new();
    res_headers.append(b"Content-Type".to_vec(), b"application/json".to_vec());
    let res = ProxiedResponse::new(200, HttpVersion::Http11, res_headers, br#"{ "ok": true }"#.to_vec(), 2);
    assert_eq!(res.data_type, mitm_core::data_type::DataType::Json);
    let expected: serde_json::Value = serde_json::from_str(r#"{"ok": true}"#).unwrap();
    assert_eq!(res.body_json, Some(expected));
    let text = ProxiedResponse::new(200, HttpVersion::Http11, Headers::new(), b"{ not json".to_vec(), 3);
    assert_eq!(text.data_type, mitm_core::data_type::DataType::Text);
    assert!(text.body_json.is_none());
}
