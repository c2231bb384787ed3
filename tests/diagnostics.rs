use mitm_core::diagnostics::{
    extract_host_from_url, extract_pattern, extract_target_server_from_error,
    extract_tls_info_from_error,
};

const DOMAIN_PORT: &str = r"([a-zA-Z0-9.-]+\.[a-zA-Z]{2,}:\d+)";
const IP_PORT: &str = r"(\d{1,3}\.\d{1,3}\.\d{1,3}\.\d{1,3}:\d+)";
const DOMAIN: &str = r"([a-zA-Z0-9.-]+\.[a-zA-Z]{2,})";

#[test]
fn tls_info_from_handshake_log() {
    let msg = "❌ [RUSTLS] TLS 연결 실패: TLS 1.1 - gateway.icloud.com:443 - 오류: bad";
    let (version, backend) = extract_tls_info_from_error(msg);
    assert_eq!(version, "TLS 1.1");
    assert_eq!(backend, "RUSTLS");
    assert_eq!(
        extract_target_server_from_error(msg),
        Some("gateway.icloud.com:443".to_string())
    );
}

#[test]
fn tls_info_unknown() {
    let (version, backend) = extract_tls_info_from_error("connection reset");
    assert_eq!(version, "알 수 없음");
    assert_eq!(backend, "알 수 없음");
    let (version, backend) = extract_tls_info_from_error("PKCS12 handshake broke");
    assert_eq!(version, "TLS (버전 미확인)");
    assert_eq!(backend, "NATIVE-TLS");
}

#[test]
fn patterns_scan_left_to_right() {
    assert_eq!(
        extract_pattern("connect to api.example.com:8443 failed", DOMAIN_PORT),
        Some("api.example.com:8443".to_string())
    );
    assert_eq!(
        extract_pattern("dial 10.0.0.1:80 refused", IP_PORT),
        Some("10.0.0.1:80".to_string())
    );
    assert_eq!(
        extract_pattern("host example.org down", DOMAIN),
        Some("example.org".to_string())
    );
    assert_eq!(extract_pattern("host example.org down", "no such pattern"), None);
    assert_eq!(extract_pattern("ab.c", DOMAIN), Some("ab.c".to_string()));
    assert_eq!(extract_pattern("a.b", DOMAIN), None);
}

#[test]
fn host_from_urls() {
    assert_eq!(
        extract_host_from_url("GET https://api.test/v1 failed"),
        Some("api.test".to_string())
    );
    assert_eq!(extract_host_from_url("see http://example.com"), Some("example.com".to_string()));
    assert_eq!(extract_host_from_url("no url here"), None);
    assert_eq!(
        extract_target_server_from_error("error for http://localhost:3000/x"),
        Some("localhost:3000".to_string())
    );
    assert_eq!(extract_target_server_from_error("plain failure"), None);
}
