//! Routing of CONNECT tunnels by the first bytes the client sends, and the
//! replay of those bytes ahead of the live stream.
use crate::engine::{bad_request, ResponseParts};
use crate::text::{ascii_bytes, copy_bytes, has_prefix, lit, starts_with};
use vstd::prelude::*;

verus! {

/// The authority (`host[:port]`) of a request target, where it has one.
pub uninterp spec fn authority_of(uri: Seq<u8>) -> Option<Seq<u8>>;

/// Relies on `http::Uri::try_from` and `Uri::authority`: the authority
/// component of the parsed target; `None` where the target does not parse
/// or has no authority.
#[verifier::external_body]
pub(crate) fn uri_authority(uri: &[u8]) -> (r: Option<Vec<u8>>)
    ensures
        match r {
            Some(a) => authority_of(uri@) == Some(a@),
            None => authority_of(uri@) is None,
        },
{
    match http::Uri::try_from(uri) {
        Ok(u) => u.authority().map(|a| a.as_str().as_bytes().to_vec()),
        Err(_) => None,
    }
}

/// A CONNECT request is accepted only with an authority to tunnel to;
/// otherwise it is answered with 400.
pub fn connect_target(uri: &[u8]) -> (r: Result<Vec<u8>, ResponseParts>)
    ensures
        match r {
            Ok(a) => authority_of(uri@) == Some(a@),
            Err(res) => authority_of(uri@) is None && res.status == 400 && res.body@.len() == 0,
        },
{
    match uri_authority(uri) {
        Some(a) => Ok(a),
        None => Err(bad_request()),
    }
}

/// Where the bytes of an upgraded CONNECT tunnel go.
#[derive(Debug, Clone, Copy, PartialEq, Eq, Structural)]
pub enum ConnectRoute {
    /// Plain HTTP (a WebSocket upgrade, most likely), served with scheme `http`.
    PlainHttp,
    /// A TLS handshake, accepted and served with scheme `https`.
    Tls,
    /// Raw bytes, pumped both ways to the authority without inspection.
    Tunnel,
}

pub open spec fn route_spec(intercept: bool, prefix: Seq<u8>) -> ConnectRoute {
    if !intercept {
        ConnectRoute::Tunnel
    } else if has_prefix(prefix, lit("GET "@)) {
        ConnectRoute::PlainHttp
    } else if prefix.len() >= 2 && prefix[0] == 0x16 && prefix[1] == 0x03 {
        ConnectRoute::Tls
    } else {
        ConnectRoute::Tunnel
    }
}

/// Classifies the probe bytes of a tunnel; a declined interception always
/// tunnels.
pub fn classify_connect(intercept: bool, prefix: &[u8]) -> (r: ConnectRoute)
    ensures
        r == route_spec(intercept, prefix@),
{
    proof {
        reveal_strlit("GET ");
    }
    if !intercept {
        ConnectRoute::Tunnel
    } else if starts_with(prefix, ascii_bytes("GET ")) {
        ConnectRoute::PlainHttp
    } else if prefix.len() >= 2 && prefix[0] == 0x16 && prefix[1] == 0x03 {
        ConnectRoute::Tls
    } else {
        ConnectRoute::Tunnel
    }
}

/// How many bytes of a tunnel are read before it is classified.
pub const PROBE_LEN: usize = 11;

/// Messages of a closing connection that are expected and not reported.
pub fn is_shutdown_noise(message: &[u8]) -> (r: bool)
    ensures
        r == has_prefix(message@, lit("error shutting down connection"@)),
{
    proof {
        reveal_strlit("error shutting down connection");
    }
    starts_with(message, ascii_bytes("error shutting down connection"))
}

/// The bytes read ahead of a stream, replayed before reads reach the stream.
pub struct Rewind {
    pre: Vec<u8>,
    pos: usize,
}

impl Rewind {
    /// The replayed bytes.
    pub closed spec fn initial(&self) -> Seq<u8> {
        self.pre@
    }

    /// How many of them were handed out.
    pub closed spec fn consumed(&self) -> nat {
        self.pos as nat
    }

    pub closed spec fn wf(&self) -> bool {
        self.pos <= self.pre@.len()
    }

    pub fn new(pre: Vec<u8>) -> (r: Rewind)
        ensures
            r.wf(),
            r.initial() == pre@,
            r.consumed() == 0,
    {
        Rewind { pre, pos: 0 }
    }

    /// Whether reads now go to the stream itself.
    pub fn is_exhausted(&self) -> (r: bool)
        requires
            self.wf(),
        ensures
            r == (self.consumed() == self.initial().len()),
    {
        self.pos == self.pre.len()
    }

    /// Next replayed bytes, at most `max`; `None` once all were handed out.
    pub fn read_prefix(&mut self, max: usize) -> (r: Option<Vec<u8>>)
        requires
            old(self).wf(),
        ensures
            final(self).wf(),
            final(self).initial() == old(self).initial(),
            match r {
                None => old(self).consumed() == old(self).initial().len() && final(self).consumed()
                    == old(self).consumed(),
                Some(chunk) => old(self).consumed() < old(self).initial().len() && chunk@.len() == (
                if max < old(self).initial().len() - old(self).consumed() {
                    max as int
                } else {
                    old(self).initial().len() - old(self).consumed()
                }) && final(self).consumed() == old(self).consumed() + chunk@.len()
                    && chunk@ == old(self).initial().subrange(
                    old(self).consumed() as int,
                    final(self).consumed() as int,
                ),
            },
    {
        if self.pos == self.pre.len() {
            return None;
        }
        let left = self.pre.len() - self.pos;
        let n = if max < left {
            max
        } else {
            left
        };
        let mut chunk: Vec<u8> = Vec::with_capacity(n);
        let mut k: usize = 0;
        while k < n
            invariant
                self.pos + n <= self.pre@.len(),
                self.pre@.len() <= usize::MAX,
                k <= n,
                chunk@ == self.pre@.subrange(self.pos as int, self.pos + k),
            decreases n - k,
        {
            chunk.push(self.pre[self.pos + k]);
            k += 1;
            assert(chunk@ =~= self.pre@.subrange(self.pos as int, self.pos + k));
        }
        self.pos = self.pos + n;
        Some(chunk)
    }
}

/// Replaying in chunks hands out the initial bytes in order, each once.
pub proof fn lemma_rewind_order(r: &Rewind)
    requires
        r.wf(),
    ensures
        r.initial().subrange(0, r.consumed() as int) + r.initial().subrange(
            r.consumed() as int,
            r.initial().len() as int,
        ) == r.initial(),
{
    assert(r.initial().subrange(0, r.consumed() as int) + r.initial().subrange(
        r.consumed() as int,
        r.initial().len() as int,
    ) =~= r.initial());
}

/// How an accepted CONNECT tunnel is handled.
pub struct ConnectPlan {
    /// Where the tunnel leads.
    pub authority: Vec<u8>,
    /// What the tunnel's bytes are served as.
    pub route: ConnectRoute,
    /// The probed bytes, to be read before the live stream.
    pub replay: Rewind,
}

/// Decides a CONNECT request: 400 without an authority; otherwise the route
/// that the probed bytes and the interception decision select (a declined
/// interception always tunnels), with the probed bytes set to be replayed
/// ahead of the stream.
pub fn process_connect(uri: &[u8], intercept: bool, prefix: &[u8]) -> (r: Result<
    ConnectPlan,
    ResponseParts,
>)
    ensures
        match r {
            Ok(p) => authority_of(uri@) == Some(p.authority@) && p.route == route_spec(
                intercept,
                prefix@,
            ) && p.replay.wf() && p.replay.initial() == prefix@ && p.replay.consumed() == 0,
            Err(res) => authority_of(uri@) is None && res.status == 400 && res.body@.len() == 0,
        },
{
    match connect_target(uri) {
        Ok(authority) => {
            let route = classify_connect(intercept, prefix);
            let replay = Rewind::new(copy_bytes(prefix));
            Ok(ConnectPlan { authority, route, replay })
        },
        Err(res) => Err(res),
    }
}

} // verus!
