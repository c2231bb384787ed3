//! What a minted leaf certificate says: subject, alternative names,
//! validity window, and the server's ALPN list.
use crate::text::{ascii_bytes, append_bytes, copy_bytes, has_prefix, lit, starts_with};
use vstd::prelude::*;

verus! {

/// Lifetime of a leaf certificate, in seconds (one year).
pub const TTL_SECS: i64 = 31536000;

/// How long a minted certificate stays cached: half its lifetime.
pub const CACHE_TTL_SECS: u64 = 15768000;

/// How far a certificate's validity is backdated, for clock skew.
pub const NOT_BEFORE_OFFSET: i64 = 60;

/// Default number of cached certificates.
pub const CERT_CACHE_CAPACITY: u64 = 1000;

/// A subject alternative name.
pub enum SanEntry {
    Dns(Vec<u8>),
    /// An address as its octets (4 for IPv4, 16 for IPv6).
    Ip(Vec<u8>),
}

pub enum SanV {
    Dns(Seq<u8>),
    Ip(Seq<u8>),
}

impl View for SanEntry {
    type V = SanV;

    open spec fn view(&self) -> SanV {
        match self {
            SanEntry::Dns(d) => SanV::Dns(d@),
            SanEntry::Ip(a) => SanV::Ip(a@),
        }
    }
}

/// All bytes are 7-bit ASCII: what an IA5String holds.
pub open spec fn ia5(s: Seq<u8>) -> bool {
    forall|i: int| 0 <= i < s.len() ==> #[trigger] s[i] < 128
}

pub fn is_ia5(s: &[u8]) -> (r: bool)
    ensures
        r == ia5(s@),
{
    let mut i: usize = 0;
    while i < s.len()
        invariant
            i <= s@.len(),
            forall|j: int| 0 <= j < i ==> #[trigger] s@[j] < 128,
        decreases s@.len() - i,
    {
        if s[i] >= 128 {
            return false;
        }
        i += 1;
    }
    true
}

pub open spec fn opt_view(o: Option<Vec<u8>>) -> Option<Seq<u8>> {
    match o {
        Some(a) => Some(a@),
        None => None,
    }
}

pub open spec fn wildcard_of(host: Seq<u8>) -> Seq<u8> {
    lit("*."@) + host
}

/// The names a leaf certificate for `host` carries: the host and its
/// wildcard as DNS names where they are IA5 strings (no wildcard for a host
/// that is one already), the host's address where it is one, and 127.0.0.1
/// for `localhost`.
pub open spec fn san_spec(host: Seq<u8>, host_ip: Option<Seq<u8>>) -> Seq<SanV> {
    let s1: Seq<SanV> = if ia5(host) {
        seq![SanV::Dns(host)]
    } else {
        Seq::empty()
    };
    let s2 = if !has_prefix(host, lit("*."@)) && ia5(wildcard_of(host)) {
        s1.push(SanV::Dns(wildcard_of(host)))
    } else {
        s1
    };
    let s3 = match host_ip {
        Some(a) => s2.push(SanV::Ip(a)),
        None => s2,
    };
    if host == lit("localhost"@) {
        s3.push(SanV::Ip(seq![127u8, 0u8, 0u8, 1u8]))
    } else {
        s3
    }
}

/// Lists the alternative names for `host`; `host_ip` is the host read as an
/// IP address, where it is one.
pub fn san_entries(host: &[u8], host_ip: Option<Vec<u8>>) -> (r: Vec<SanEntry>)
    ensures
        r@.map_values(|e: SanEntry| e@) == san_spec(host@, opt_view(host_ip)),
{
    proof {
        reveal_strlit("*.");
        reveal_strlit("localhost");
    }
    let ghost ip = opt_view(host_ip);
    let mut out: Vec<SanEntry> = Vec::new();
    if is_ia5(host) {
        out.push(SanEntry::Dns(copy_bytes(host)));
    }
    let ghost s1 = out@.map_values(|e: SanEntry| e@);
    assert(s1 =~= (if ia5(host@) {
        seq![SanV::Dns(host@)]
    } else {
        Seq::<SanV>::empty()
    }));
    if !starts_with(host, ascii_bytes("*.")) {
        let mut w = copy_bytes(ascii_bytes("*."));
        append_bytes(&mut w, host);
        if is_ia5(w.as_slice()) {
            out.push(SanEntry::Dns(w));
            assert(out@.map_values(|e: SanEntry| e@) =~= s1.push(SanV::Dns(wildcard_of(host@))));
        }
    }
    let ghost s2 = out@.map_values(|e: SanEntry| e@);
    match host_ip {
        Some(a) => {
            out.push(SanEntry::Ip(a));
            assert(out@.map_values(|e: SanEntry| e@) =~= s2.push(SanV::Ip(ip->0)));
        },
        None => {},
    }
    let ghost s3 = out@.map_values(|e: SanEntry| e@);
    if host.len() == 9 && starts_with(host, ascii_bytes("localhost")) {
        assert(host@ =~= lit("localhost"@));
        out.push(SanEntry::Ip(vec![127u8, 0u8, 0u8, 1u8]));
        assert(out@.map_values(|e: SanEntry| e@) =~= s3.push(SanV::Ip(seq![127u8, 0u8, 0u8, 1u8])));
    } else {
        proof {
            if host@ == lit("localhost"@) {
                assert(host@.subrange(0, 9) =~= host@);
            }
        }
    }
    out
}

/// Everything that goes into a leaf certificate besides the keys.
pub struct LeafPlan {
    pub common_name: Vec<u8>,
    pub sans: Vec<SanEntry>,
    pub serial: u64,
    pub not_before: i64,
    pub not_after: i64,
}

/// Plans the leaf for `host` at time `now` (seconds since the epoch) with
/// the random `serial`.
pub fn plan_leaf(host: &[u8], host_ip: Option<Vec<u8>>, now: i64, serial: u64) -> (r: LeafPlan)
    requires
        i64::MIN + NOT_BEFORE_OFFSET <= now <= i64::MAX - TTL_SECS,
    ensures
        r.common_name@ == host@,
        r.sans@.map_values(|e: SanEntry| e@) == san_spec(host@, opt_view(host_ip)),
        r.serial == serial,
        r.not_before == now - NOT_BEFORE_OFFSET,
        r.not_after == now - NOT_BEFORE_OFFSET + TTL_SECS,
{
    let not_before = now - NOT_BEFORE_OFFSET;
    LeafPlan {
        common_name: copy_bytes(host),
        sans: san_entries(host, host_ip),
        serial,
        not_before,
        not_after: not_before + TTL_SECS,
    }
}

/// ALPN protocols offered to clients, HTTP/2 first where enabled.
pub fn alpn_protocols(http2: bool) -> (r: Vec<Vec<u8>>)
    ensures
        http2 ==> r@.map_values(|p: Vec<u8>| p@) == seq![lit("h2"@), lit("http/1.1"@)],
        !http2 ==> r@.map_values(|p: Vec<u8>| p@) == seq![lit("http/1.1"@)],
{
    proof {
        reveal_strlit("h2");
        reveal_strlit("http/1.1");
    }
    let mut r: Vec<Vec<u8>> = Vec::new();
    if http2 {
        r.push(copy_bytes(ascii_bytes("h2")));
    }
    r.push(copy_bytes(ascii_bytes("http/1.1")));
    if http2 {
        assert(r@.map_values(|p: Vec<u8>| p@) =~= seq![lit("h2"@), lit("http/1.1"@)]);
    } else {
        assert(r@.map_values(|p: Vec<u8>| p@) =~= seq![lit("http/1.1"@)]);
    }
    r
}

} // verus!
