use mitm_core::tls::{
    classify_handshake_error, has_pkcs12_magic, identity_step, select_backend,
    HandshakeFailureKind, IdentityAction, IdentityEvent, IdentityStage, TlsBackend,
    TlsUpgradeHandler, TlsUpgradeUtils, TlsVersion, TlsVersionDetector, UpgradeError,
};

#[test]
fn test_detect_tls10() {
    let hello = [0x16, 0x03, 0x01, 0x00, 0x98, 0x01, 0x00, 0x00, 0x94, 0x03, 0x00];
    assert_eq!(TlsVersionDetector::detect_tls_version(&hello), Some(TlsVersion::Tls10));
}

#[test]
fn test_detect_tls11() {
    let hello = [0x16, 0x03, 0x01, 0x00, 0x98, 0x01, 0x00, 0x00, 0x94, 0x03, 0x01];
    assert_eq!(TlsVersionDetector::detect_tls_version(&hello), Some(TlsVersion::Tls11));
}

#[test]
fn test_detect_tls12() {
    let hello = [0x16, 0x03, 0x01, 0x00, 0x98, 0x01, 0x00, 0x00, 0x94, 0x03, 0x02];
    assert_eq!(TlsVersionDetector::detect_tls_version(&hello), Some(TlsVersion::Tls12));
}

#[test]
fn test_detect_tls13() {
    let hello = [0x16, 0x03, 0x01, 0x00, 0x98, 0x01, 0x00, 0x00, 0x94, 0x03, 0x03];
    assert_eq!(TlsVersionDetector::detect_tls_version(&hello), Some(TlsVersion::Tls13));
}

#[test]
fn test_rustls_support() {
    assert!(!TlsVersionDetector::is_rustls_supported(TlsVersion::Tls10));
    assert!(!TlsVersionDetector::is_rustls_supported(TlsVersion::Tls11));
    assert!(TlsVersionDetector::is_rustls_supported(TlsVersion::Tls12));
    assert!(TlsVersionDetector::is_rustls_supported(TlsVersion::Tls13));
}

#[test]
fn test_openssl_support() {
    assert!(TlsVersionDetector::is_openssl_supported(TlsVersion::Tls10));
    assert!(TlsVersionDetector::is_openssl_supported(TlsVersion::Tls11));
    assert!(TlsVersionDetector::is_openssl_supported(TlsVersion::Tls12));
    assert!(TlsVersionDetector::is_openssl_supported(TlsVersion::Tls13));
}

#[test]
fn probe_rejects_short_and_foreign_prefixes() {
    let short = [0x16, 0x03, 0x01, 0x00, 0x98, 0x01, 0x00, 0x00, 0x94, 0x03];
    assert_eq!(TlsVersionDetector::detect_tls_version(&short), None);
    let alert = [0x15, 0x03, 0x01, 0x00, 0x98, 0x01, 0x00, 0x00, 0x94, 0x03, 0x03];
    assert_eq!(TlsVersionDetector::detect_tls_version(&alert), None);
    let server_hello = [0x16, 0x03, 0x01, 0x00, 0x98, 0x02, 0x00, 0x00, 0x94, 0x03, 0x03];
    assert_eq!(TlsVersionDetector::detect_tls_version(&server_hello), None);
    let unknown = [0x16, 0x03, 0x01, 0x00, 0x98, 0x01, 0x00, 0x00, 0x94, 0x03, 0x04];
    assert_eq!(TlsVersionDetector::detect_tls_version(&unknown), None);
}

#[test]
fn legacy_hello_selects_legacy_backend() {
    let hello = [0x16, 0x03, 0x01, 0x00, 0x98, 0x01, 0x00, 0x00, 0x94, 0x03, 0x01];
    assert_eq!(select_backend(&hello), (Some(TlsVersion::Tls11), TlsBackend::Legacy));
    let modern = [0x16, 0x03, 0x01, 0x00, 0x98, 0x01, 0x00, 0x00, 0x94, 0x03, 0x03];
    assert_eq!(select_backend(&modern), (Some(TlsVersion::Tls13), TlsBackend::Modern));
    assert_eq!(select_backend(&[0x16, 0x03]), (None, TlsBackend::Legacy));
}

#[test]
fn version_labels_and_bytes() {
    assert_eq!(TlsVersion::Tls10.as_str(), "TLS 1.0");
    assert_eq!(TlsVersion::Tls13.to_string(), "TLS 1.3");
    assert_eq!(TlsVersion::Tls12.as_bytes(), [0x03, 0x02]);
}

#[test]
fn handshake_errors_are_classified_in_order() {
    assert_eq!(
        classify_handshake_error(b"peer is incompatible: SignatureAlgorithmsExtensionRequired"),
        HandshakeFailureKind::SignatureAlgorithmsRequired
    );
    assert_eq!(classify_handshake_error(b"peer is incompatible"), HandshakeFailureKind::PeerIncompatible);
    assert_eq!(classify_handshake_error(b"invalid peer certificate"), HandshakeFailureKind::BadCertificate);
    assert_eq!(classify_handshake_error(b"handshake eof"), HandshakeFailureKind::Handshake);
    assert_eq!(classify_handshake_error(b"read timeout"), HandshakeFailureKind::Timeout);
    assert_eq!(classify_handshake_error(b"broken pipe"), HandshakeFailureKind::Other);
}

#[test]
fn identity_is_retried_once() {
    let (stage, action) = identity_step(IdentityStage::Start, false, IdentityEvent::Generated(Some(vec![0x30, 0x82, 1, 2])));
    assert_eq!(stage, IdentityStage::Start);
    assert_eq!(action, IdentityAction::TryIdentity(vec![0x30, 0x82, 1, 2]));
    let magic = has_pkcs12_magic(&[0x30, 0x82, 1, 2]);
    assert!(magic);
    let (stage, action) = identity_step(stage, magic, IdentityEvent::Refused);
    assert_eq!((stage, action), (IdentityStage::FirstRefused, IdentityAction::Generate));
    let (stage, action) = identity_step(IdentityStage::FirstRefused, true, IdentityEvent::Refused);
    assert_eq!((stage, action), (IdentityStage::Failed, IdentityAction::Abort));
    let (_, action) = identity_step(IdentityStage::Start, false, IdentityEvent::Refused);
    assert_eq!(action, IdentityAction::Abort);
    let (stage, action) = identity_step(IdentityStage::FirstRefused, true, IdentityEvent::Accepted);
    assert_eq!((stage, action), (IdentityStage::Ready, IdentityAction::Proceed));
    assert!(!has_pkcs12_magic(&[0x30, 0x80, 1, 2]));
}

#[test]
fn client_hello_upgrade() {
    let handler = TlsUpgradeHandler::new();
    let hello = [0x16, 0x03, 0x01, 0x00, 0x98, 0x01, 0x00, 0x00, 0x94, 0x03, 0x01, 0xaa];
    let up = handler.upgrade_client_hello(&hello).unwrap();
    assert_eq!(up, vec![0x16, 0x03, 0x03, 0x00, 0x98, 0x01, 0x00, 0x00, 0x94, 0x03, 0x03, 0xaa]);
    assert_eq!(handler.upgrade_client_hello(&[0x16, 0x03]), Err(UpgradeError::TooShort));
    assert_eq!(handler.upgrade_client_hello(&[0x17, 0x03, 0x01, 0, 0]), Err(UpgradeError::NotHandshake));
    assert_eq!(handler.upgrade_client_hello(&[0x16, 0x03, 0x03, 0, 0]), Err(UpgradeError::NotLegacyVersion));
    assert_eq!(TlsUpgradeUtils::filter_cipher_suites(&hello), vec![0x0035, 0x002F, 0x003C, 0x003D]);
    assert_eq!(TlsUpgradeUtils::filter_compression_methods(&hello), vec![0x00]);
    assert!(TlsUpgradeUtils::upgrade_extensions(&hello).is_empty());
}
