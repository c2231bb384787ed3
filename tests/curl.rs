use mitm_core::curl::{curl_arguments, lines_of, parse_curl_response, parse_u16, CurlError};
use mitm_core::headers::Headers;
use mitm_core::records::{HttpVersion, ProxiedRequest};

#[test]
fn curl_fallback_response_is_parsed() {
    let res = parse_curl_response("HTTP/1.1 200 OK\r\nContent-Type: text/plain\r\nContent-Length: 5\r\n\r\nhello").unwrap();
    assert_eq!(res.status, 200);
    assert_eq!(res.body, b"hello".to_vec());
    assert!(res.headers.get(b"content-length").is_none());
    assert_eq!(res.headers.get(b"content-type"), Some(&b"text/plain".to_vec()));
}

#[test]
fn curl_parse_errors() {
    assert_eq!(parse_curl_response("").err(), Some(CurlError::Empty));
    assert_eq!(parse_curl_response("HTTP/1.1\r\n\r\n").err(), Some(CurlError::BadStatusLine));
    assert_eq!(parse_curl_response("HTTP/1.1 abc OK\r\n\r\n").err(), Some(CurlError::BadStatus));
    assert_eq!(parse_curl_response("HTTP/1.1 99 OK\r\n\r\n").err(), Some(CurlError::BadStatus));
    assert_eq!(parse_curl_response("HTTP/1.1 200 OK\r\nA: b\r\n").err(), Some(CurlError::NoBlankLine));
}

#[test]
fn curl_body_lines_are_joined() {
    let res = parse_curl_response("HTTP/2 404\nx-a:  1 \nX-A: 2\n\nline1\r\nline2\n").unwrap();
    assert_eq!(res.status, 404);
    assert_eq!(res.body, b"line1\nline2".to_vec());
    assert_eq!(res.headers.fields.len(), 1);
    assert_eq!(res.headers.get(b"x-a"), Some(&b"2".to_vec()));
}

#[test]
fn lines_and_numbers() {
    assert_eq!(lines_of(b"a\r\nb\n\nc\r"), vec![b"a".to_vec(), b"b".to_vec(), Vec::new(), b"c\r".to_vec()]);
    assert_eq!(parse_u16(b"+65535"), Some(65535));
    assert_eq!(parse_u16(b"65536"), None);
    assert_eq!(parse_u16(b"+"), None);
}

#[test]
fn curl_command_line() {
    let mut h = Headers::new();
    h.append(b"host".to_vec(), b"example.com".to_vec());
    h.append(b"accept".to_vec(), b"*/*".to_vec());
    h.append(b"x-bin".to_vec(), vec![0xff]);
    let req = ProxiedRequest::with_token(b"GET".to_vec(), b"https://example.com".to_vec(), HttpVersion::Http11, h, Vec::new(), 5, b"abc");
    let args = curl_arguments(&req);
    let expected: Vec<Vec<u8>> = ["-s", "-i", "-X", "GET", "--max-time", "10", "--connect-timeout", "5", "--insecure", "-H", "accept: */*", "https://example.com"]
        .iter()
        .map(|s| s.as_bytes().to_vec())
        .collect();
    assert_eq!(args, expected);
}
