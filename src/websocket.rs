//! WebSocket tunnelling decisions: scheme rewrite, frame limits, SockJS
//! unwrapping and the forwarding loop's reaction to each event.
use crate::dispatch::{authority_of, uri_authority};
use crate::engine::{bad_request, ResponseParts};
use crate::text::{
    ascii_bytes, contains, contains_bytes, eq_ignore_case, ends_with, has_prefix, has_suffix, lit,
    lower, slice_bytes, starts_with,
};
use vstd::prelude::*;

verus! {

/// Scheme of the upstream WebSocket connection.
#[derive(Debug, Clone, Copy, PartialEq, Eq, Structural)]
pub enum WsScheme {
    Ws,
    Wss,
}

impl WsScheme {
    pub fn as_str(&self) -> (r: &'static str)
        ensures
            r@ == (match self {
                WsScheme::Ws => "ws"@,
                WsScheme::Wss => "wss"@,
            }),
    {
        match self {
            WsScheme::Ws => "ws",
            WsScheme::Wss => "wss",
        }
    }
}

pub open spec fn ws_scheme_spec(scheme: Option<Seq<u8>>) -> WsScheme {
    match scheme {
        None => WsScheme::Ws,
        Some(s) => if lower(s) == lit("http"@) {
            WsScheme::Ws
        } else {
            WsScheme::Wss
        },
    }
}

/// `ws` for a plain (or absent) scheme, `wss` otherwise.
pub fn websocket_scheme(scheme: Option<&[u8]>) -> (r: WsScheme)
    ensures
        r == ws_scheme_spec(
            match scheme {
                Some(s) => Some(s@),
                None => None,
            },
        ),
{
    proof {
        reveal_strlit("http");
        crate::text::lemma_lower_id(lit("http"@));
    }
    match scheme {
        None => WsScheme::Ws,
        Some(s) => if eq_ignore_case(s, ascii_bytes("http")) {
            WsScheme::Ws
        } else {
            WsScheme::Wss
        },
    }
}

/// An upgrade request is rewritten to a WebSocket URI only where it names
/// an authority; otherwise it is answered with 400.
pub fn plan_websocket_upgrade(uri: &[u8], scheme: Option<&[u8]>) -> (r: Result<WsScheme, ResponseParts>)
    ensures
        match r {
            Ok(s) => authority_of(uri@) is Some && s == ws_scheme_spec(
                match scheme {
                    Some(x) => Some(x@),
                    None => None,
                },
            ),
            Err(res) => authority_of(uri@) is None && res.status == 400,
        },
{
    match uri_authority(uri) {
        Some(_) => Ok(websocket_scheme(scheme)),
        None => Err(bad_request()),
    }
}

/// Limits of both legs of a WebSocket tunnel.
pub struct WsLimits {
    pub accept_unmasked_frames: bool,
    pub max_frame_size: usize,
    pub max_message_size: usize,
}

pub fn websocket_limits() -> (r: WsLimits)
    ensures
        r.accept_unmasked_frames,
        r.max_frame_size == 16 * 1024 * 1024,
        r.max_message_size == 64 * 1024 * 1024,
{
    WsLimits { accept_unmasked_frames: true, max_frame_size: 16777216, max_message_size: 67108864 }
}

/// The inner text of a SockJS frame: `a["X"]`, `a[X]` and `a"X"` become
/// `X`, tried in that order; any other text is kept. A frame too short to
/// hold both of its delimiters is kept as it is.
pub open spec fn sockjs_inner(t: Seq<u8>) -> Seq<u8> {
    if t.len() >= 5 && has_prefix(t, lit("a[\""@)) && has_suffix(t, lit("\"]"@)) {
        t.subrange(3, t.len() - 2)
    } else if has_prefix(t, lit("a["@)) && has_suffix(t, lit("]"@)) {
        t.subrange(2, t.len() - 1)
    } else if t.len() >= 3 && has_prefix(t, lit("a\""@)) && has_suffix(t, lit("\""@)) {
        t.subrange(2, t.len() - 1)
    } else {
        t
    }
}

/// Strips SockJS framing from a text frame.
pub fn strip_sockjs_framing(text: &[u8]) -> (r: Vec<u8>)
    ensures
        r@ == sockjs_inner(text@),
{
    proof {
        reveal_strlit("a[\"");
        reveal_strlit("\"]");
        reveal_strlit("a[");
        reveal_strlit("]");
        reveal_strlit("a\"");
        reveal_strlit("\"");
    }
    let n = text.len();
    if n >= 5 && starts_with(text, ascii_bytes("a[\"")) && ends_with(text, ascii_bytes("\"]")) {
        slice_bytes(text, 3, n - 2)
    } else if starts_with(text, ascii_bytes("a[")) && ends_with(text, ascii_bytes("]")) {
        proof {
            assert(text@.subrange(0, 2)[1] == text@[1]);
            assert(text@.subrange(n - 1, n as int)[0] == text@[n - 1]);
        }
        slice_bytes(text, 2, n - 1)
    } else if n >= 3 && starts_with(text, ascii_bytes("a\"")) && ends_with(text, ascii_bytes("\"")) {
        slice_bytes(text, 2, n - 1)
    } else {
        slice_bytes(text, 0, n)
    }
}

/// What a forwarder observed.
#[derive(Debug, Clone, Copy, PartialEq, Eq, Structural)]
pub enum ForwardEvent {
    /// A frame arrived; `kept` is whether the message hook returned one.
    Received { kept: bool },
    /// Reading failed; `reserved_bits` is whether the error is about
    /// non-zero reserved bits.
    ReadFailed { reserved_bits: bool },
    /// The source stream ended.
    Ended,
    /// Sending to the peer failed.
    SendFailed,
}

/// What the forwarder does next.
#[derive(Debug, Clone, Copy, PartialEq, Eq, Structural)]
pub enum ForwardAction {
    /// Send the (possibly rewritten) message to the peer and read on.
    Send,
    /// Drop this frame and read on.
    Skip,
    /// Send `Close(None)` to the peer, then stop.
    CloseAndStop,
    /// Stop.
    Stop,
}

pub open spec fn forward_spec(e: ForwardEvent) -> ForwardAction {
    match e {
        ForwardEvent::Received { kept } => if kept {
            ForwardAction::Send
        } else {
            ForwardAction::Skip
        },
        ForwardEvent::ReadFailed { reserved_bits } => if reserved_bits {
            ForwardAction::Skip
        } else {
            ForwardAction::CloseAndStop
        },
        ForwardEvent::Ended => ForwardAction::Stop,
        ForwardEvent::SendFailed => ForwardAction::Stop,
    }
}

pub fn forward_step(e: ForwardEvent) -> (r: ForwardAction)
    ensures
        r == forward_spec(e),
{
    match e {
        ForwardEvent::Received { kept } => if kept {
            ForwardAction::Send
        } else {
            ForwardAction::Skip
        },
        ForwardEvent::ReadFailed { reserved_bits } => if reserved_bits {
            ForwardAction::Skip
        } else {
            ForwardAction::CloseAndStop
        },
        ForwardEvent::Ended => ForwardAction::Stop,
        ForwardEvent::SendFailed => ForwardAction::Stop,
    }
}

/// Whether a read error is the recoverable reserved-bits one.
pub fn is_reserved_bits_error(message: &[u8]) -> (r: bool)
    ensures
        r == contains(message@, lit("Reserved bits are non-zero"@)),
{
    proof {
        reveal_strlit("Reserved bits are non-zero");
    }
    contains_bytes(message, ascii_bytes("Reserved bits are non-zero"))
}

} // verus!
