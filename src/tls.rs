//! TLS ClientHello probing and the choice of handshake backend.
use crate::text::{contains, contains_bytes, ascii_bytes, lit, copy_bytes};
use vstd::prelude::*;

verus! {

/// TLS protocol versions that the probe recognises.
#[derive(Debug, Clone, Copy, PartialEq, Eq, Structural)]
pub enum TlsVersion {
    Tls10,
    Tls11,
    Tls12,
    Tls13,
}

/// The version that a ClientHello prefix announces: a handshake record
/// (first byte 0x16) holding a ClientHello (sixth byte 0x01), with the
/// client version at offsets 9 and 10.
pub open spec fn probe_spec(b: Seq<u8>) -> Option<TlsVersion> {
    if b.len() < 11 || b[0] != 0x16 || b[5] != 0x01 || b[9] != 0x03 {
        None
    } else if b[10] == 0x00 {
        Some(TlsVersion::Tls10)
    } else if b[10] == 0x01 {
        Some(TlsVersion::Tls11)
    } else if b[10] == 0x02 {
        Some(TlsVersion::Tls12)
    } else if b[10] == 0x03 {
        Some(TlsVersion::Tls13)
    } else {
        None
    }
}

impl TlsVersion {
    pub open spec fn name_spec(self) -> Seq<char> {
        match self {
            TlsVersion::Tls10 => "TLS 1.0"@,
            TlsVersion::Tls11 => "TLS 1.1"@,
            TlsVersion::Tls12 => "TLS 1.2"@,
            TlsVersion::Tls13 => "TLS 1.3"@,
        }
    }

    pub open spec fn minor_spec(self) -> u8 {
        match self {
            TlsVersion::Tls10 => 0,
            TlsVersion::Tls11 => 1,
            TlsVersion::Tls12 => 2,
            TlsVersion::Tls13 => 3,
        }
    }

    pub fn as_str(&self) -> (r: &'static str)
        ensures
            r@ == self.name_spec(),
    {
        match self {
            TlsVersion::Tls10 => "TLS 1.0",
            TlsVersion::Tls11 => "TLS 1.1",
            TlsVersion::Tls12 => "TLS 1.2",
            TlsVersion::Tls13 => "TLS 1.3",
        }
    }

    /// The client-version bytes that announce this version.
    pub fn as_bytes(&self) -> (r: [u8; 2])
        ensures
            r[0] == 0x03,
            r[1] == self.minor_spec(),
    {
        match self {
            TlsVersion::Tls10 => [0x03, 0x00],
            TlsVersion::Tls11 => [0x03, 0x01],
            TlsVersion::Tls12 => [0x03, 0x02],
            TlsVersion::Tls13 => [0x03, 0x03],
        }
    }

    /// Same text as `as_str`, as an owned string.
    pub fn to_string(&self) -> (r: String)
        ensures
            r@ == self.name_spec(),
    {
        self.as_str().to_owned()
    }
}

pub open spec fn modern_spec(v: TlsVersion) -> bool {
    v == TlsVersion::Tls12 || v == TlsVersion::Tls13
}

/// The ClientHello probe and the backends' capabilities.
pub struct TlsVersionDetector;

impl TlsVersionDetector {
    /// The version a ClientHello prefix announces; `None` for fewer than 11
    /// bytes, another record or message type, or an unknown version.
    pub fn detect_tls_version(buffer: &[u8]) -> (r: Option<TlsVersion>)
        ensures
            r == probe_spec(buffer@),
    {
        if buffer.len() < 11 {
            return None;
        }
        if buffer[0] != 0x16 || buffer[5] != 0x01 || buffer[9] != 0x03 {
            return None;
        }
        match buffer[10] {
            0x00 => Some(TlsVersion::Tls10),
            0x01 => Some(TlsVersion::Tls11),
            0x02 => Some(TlsVersion::Tls12),
            0x03 => Some(TlsVersion::Tls13),
            _ => None,
        }
    }

    /// The modern backend handles TLS 1.2 and 1.3 only.
    pub fn is_rustls_supported(version: TlsVersion) -> (r: bool)
        ensures
            r == modern_spec(version),
    {
        matches!(version, TlsVersion::Tls12 | TlsVersion::Tls13)
    }

    /// The legacy backend handles every recognised version.
    pub fn is_openssl_supported(version: TlsVersion) -> (r: bool)
        ensures
            r,
    {
        matches!(
            version,
            TlsVersion::Tls10 | TlsVersion::Tls11 | TlsVersion::Tls12 | TlsVersion::Tls13
        )
    }
}

/// The modern backend is chosen exactly for TLS 1.2 and 1.3, and every
/// recognised version has a backend.
pub proof fn lemma_probe_classification(b: Seq<u8>)
    requires
        b.len() >= 11,
        b[0] == 0x16,
        b[5] == 0x01,
        b[9] == 0x03,
        b[10] <= 3,
    ensures
        probe_spec(b) is Some,
        probe_spec(b)->0.minor_spec() == b[10],
        modern_spec(probe_spec(b)->0) <==> b[10] >= 2,
{
}

/// TLS stack that performs a client handshake.
#[derive(Debug, Clone, Copy, PartialEq, Eq, Structural)]
pub enum TlsBackend {
    Modern,
    Legacy,
}

pub open spec fn backend_spec(v: Option<TlsVersion>) -> TlsBackend {
    match v {
        Some(v) => if modern_spec(v) {
            TlsBackend::Modern
        } else {
            TlsBackend::Legacy
        },
        None => TlsBackend::Legacy,
    }
}

/// Backend for a probed prefix: modern for TLS 1.2/1.3, legacy for TLS
/// 1.0/1.1 and for a prefix whose version could not be determined.
pub fn select_backend(prefix: &[u8]) -> (r: (Option<TlsVersion>, TlsBackend))
    ensures
        r.0 == probe_spec(prefix@),
        r.1 == backend_spec(probe_spec(prefix@)),
{
    let v = TlsVersionDetector::detect_tls_version(prefix);
    let b = match v {
        Some(version) => if TlsVersionDetector::is_rustls_supported(version) {
            TlsBackend::Modern
        } else {
            TlsBackend::Legacy
        },
        None => TlsBackend::Legacy,
    };
    (v, b)
}

/// Kind of a failed client handshake, read from its message.
#[derive(Debug, Clone, Copy, PartialEq, Eq, Structural)]
pub enum HandshakeFailureKind {
    SignatureAlgorithmsRequired,
    PeerIncompatible,
    BadCertificate,
    Handshake,
    Timeout,
    Other,
}

pub open spec fn handshake_kind_spec(msg: Seq<u8>) -> HandshakeFailureKind {
    if contains(msg, lit("SignatureAlgorithmsExtensionRequired"@)) {
        HandshakeFailureKind::SignatureAlgorithmsRequired
    } else if contains(msg, lit("peer is incompatible"@)) {
        HandshakeFailureKind::PeerIncompatible
    } else if contains(msg, lit("certificate"@)) {
        HandshakeFailureKind::BadCertificate
    } else if contains(msg, lit("handshake"@)) {
        HandshakeFailureKind::Handshake
    } else if contains(msg, lit("timeout"@)) {
        HandshakeFailureKind::Timeout
    } else {
        HandshakeFailureKind::Other
    }
}

/// Classifies a handshake error message, first match wins.
pub fn classify_handshake_error(msg: &[u8]) -> (r: HandshakeFailureKind)
    ensures
        r == handshake_kind_spec(msg@),
{
    proof {
        reveal_strlit("SignatureAlgorithmsExtensionRequired");
        reveal_strlit("peer is incompatible");
        reveal_strlit("certificate");
        reveal_strlit("handshake");
        reveal_strlit("timeout");
    }
    if contains_bytes(msg, ascii_bytes("SignatureAlgorithmsExtensionRequired")) {
        HandshakeFailureKind::SignatureAlgorithmsRequired
    } else if contains_bytes(msg, ascii_bytes("peer is incompatible")) {
        HandshakeFailureKind::PeerIncompatible
    } else if contains_bytes(msg, ascii_bytes("certificate")) {
        HandshakeFailureKind::BadCertificate
    } else if contains_bytes(msg, ascii_bytes("handshake")) {
        HandshakeFailureKind::Handshake
    } else if contains_bytes(msg, ascii_bytes("timeout")) {
        HandshakeFailureKind::Timeout
    } else {
        HandshakeFailureKind::Other
    }
}

/// A DER-encoded PKCS#12 blob starts with a SEQUENCE of long-form length.
pub open spec fn pkcs12_magic_spec(b: Seq<u8>) -> bool {
    b.len() >= 4 && b[0] == 0x30 && (b[1] == 0x82 || b[1] == 0x81)
}

pub fn has_pkcs12_magic(b: &[u8]) -> (r: bool)
    ensures
        r == pkcs12_magic_spec(b@),
{
    b.len() >= 4 && b[0] == 0x30 && (b[1] == 0x82 || b[1] == 0x81)
}

/// Where building the legacy backend's identity stands.
#[derive(Debug, Clone, Copy, PartialEq, Eq, Structural)]
pub enum IdentityStage {
    /// No identity attempted yet.
    Start,
    /// The first PKCS#12 blob was refused.
    FirstRefused,
    Ready,
    Failed,
}

/// What happened at the last step of building an identity.
pub enum IdentityEvent {
    /// The authority returned a PKCS#12 blob, or none.
    Generated(Option<Vec<u8>>),
    /// The TLS library accepted the blob as an identity.
    Accepted,
    /// The TLS library refused the blob.
    Refused,
}

/// What the caller does next.
#[derive(Debug, PartialEq, Eq)]
pub enum IdentityAction {
    /// Ask the authority for a PKCS#12 blob.
    Generate,
    /// Build an identity from this blob with the empty password.
    TryIdentity(Vec<u8>),
    /// Go on with the handshake.
    Proceed,
    /// End the connection.
    Abort,
}

/// Decision of the legacy identity sequence: generate, try; when the first
/// blob is refused but looks like PKCS#12, generate once more and try again.
pub fn identity_step(stage: IdentityStage, last_blob_magic_ok: bool, event: IdentityEvent) -> (r: (
    IdentityStage,
    IdentityAction,
))
    ensures
        stage == IdentityStage::Ready || stage == IdentityStage::Failed ==> r.0 == stage && r.1
            == IdentityAction::Abort,
        match event {
            IdentityEvent::Generated(None) => stage == IdentityStage::Start || stage
                == IdentityStage::FirstRefused ==> r == (IdentityStage::Failed, IdentityAction::Abort),
            IdentityEvent::Generated(Some(b)) => stage == IdentityStage::Start || stage
                == IdentityStage::FirstRefused ==> r.0 == stage && r.1 == IdentityAction::TryIdentity(
                b,
            ),
            IdentityEvent::Accepted => stage == IdentityStage::Start || stage
                == IdentityStage::FirstRefused ==> r == (IdentityStage::Ready, IdentityAction::Proceed),
            IdentityEvent::Refused => (stage == IdentityStage::Start && last_blob_magic_ok ==> r
                == (IdentityStage::FirstRefused, IdentityAction::Generate)) && (stage
                == IdentityStage::Start && !last_blob_magic_ok ==> r == (
                IdentityStage::Failed,
                IdentityAction::Abort,
            )) && (stage == IdentityStage::FirstRefused ==> r == (
                IdentityStage::Failed,
                IdentityAction::Abort,
            )),
        },
{
    match stage {
        IdentityStage::Ready | IdentityStage::Failed => (stage, IdentityAction::Abort),
        _ => match event {
            IdentityEvent::Generated(None) => (IdentityStage::Failed, IdentityAction::Abort),
            IdentityEvent::Generated(Some(b)) => (stage, IdentityAction::TryIdentity(b)),
            IdentityEvent::Accepted => (IdentityStage::Ready, IdentityAction::Proceed),
            IdentityEvent::Refused => {
                if matches!(stage, IdentityStage::Start) && last_blob_magic_ok {
                    (IdentityStage::FirstRefused, IdentityAction::Generate)
                } else {
                    (IdentityStage::Failed, IdentityAction::Abort)
                }
            },
        },
    }
}

/// Rewrites a TLS 1.0/1.1 ClientHello record to announce TLS 1.2 in the
/// record header and, where present, in the client version.
pub open spec fn upgraded_hello_spec(b: Seq<u8>) -> Seq<u8> {
    let r = b.update(1, 0x03).update(2, 0x03);
    if b.len() > 10 {
        r.update(9, 0x03).update(10, 0x03)
    } else {
        r
    }
}

/// Why a ClientHello cannot be upgraded.
#[derive(Debug, Clone, Copy, PartialEq, Eq, Structural)]
pub enum UpgradeError {
    TooShort,
    NotHandshake,
    NotLegacyVersion,
}

/// Upgrades a legacy ClientHello (record version 03 01 or 03 02) to TLS 1.2.
pub struct TlsUpgradeHandler;

impl TlsUpgradeHandler {
    pub fn new() -> (r: TlsUpgradeHandler) {
        TlsUpgradeHandler
    }

    pub fn upgrade_client_hello(&self, hello: &[u8]) -> (r: Result<Vec<u8>, UpgradeError>)
        ensures
            hello@.len() < 5 ==> r == Err::<Vec<u8>, UpgradeError>(UpgradeError::TooShort),
            hello@.len() >= 5 && hello@[0] != 0x16 ==> r == Err::<
                Vec<u8>,
                UpgradeError,
            >(UpgradeError::NotHandshake),
            hello@.len() >= 5 && hello@[0] == 0x16 && !(hello@[1] == 0x03
                && (hello@[2] == 0x01 || hello@[2] == 0x02)) ==> r == Err::<
                Vec<u8>,
                UpgradeError,
            >(UpgradeError::NotLegacyVersion),
            r is Ok ==> r->Ok_0@ == upgraded_hello_spec(hello@),
            hello@.len() >= 5 && hello@[0] == 0x16 && hello@[1] == 0x03 && (
            hello@[2] == 0x01 || hello@[2] == 0x02) ==> r is Ok,
    {
        if hello.len() < 5 {
            return Err(UpgradeError::TooShort);
        }
        if hello[0] != 0x16 {
            return Err(UpgradeError::NotHandshake);
        }
        if !(hello[1] == 0x03 && (hello[2] == 0x01 || hello[2] == 0x02)) {
            return Err(UpgradeError::NotLegacyVersion);
        }
        let mut out = copy_bytes(hello);
        out.set(1, 0x03);
        out.set(2, 0x03);
        if out.len() > 10 {
            out.set(9, 0x03);
            out.set(10, 0x03);
        }
        Ok(out)
    }
}

/// Fixed choices offered to an upgraded ClientHello.
pub struct TlsUpgradeUtils;

impl TlsUpgradeUtils {
    /// The cipher suites kept for TLS 1.2, whatever the hello offered.
    pub fn filter_cipher_suites(data: &[u8]) -> (r: Vec<u16>)
        ensures
            r@ == seq![0x0035u16, 0x002Fu16, 0x003Cu16, 0x003Du16],
    {
        let r = vec![0x0035u16, 0x002Fu16, 0x003Cu16, 0x003Du16];
        assert(r@ =~= seq![0x0035u16, 0x002Fu16, 0x003Cu16, 0x003Du16]);
        r
    }

    /// Only the null compression method.
    pub fn filter_compression_methods(data: &[u8]) -> (r: Vec<u8>)
        ensures
            r@ == seq![0u8],
    {
        let r = vec![0u8];
        assert(r@ =~= seq![0u8]);
        r
    }

    /// No extensions are added or kept.
    pub fn upgrade_extensions(data: &[u8]) -> (r: Vec<u8>)
        ensures
            r@.len() == 0,
    {
        Vec::new()
    }
}

} // verus!
