//! Results reported to the host application.
use vstd::prelude::*;

verus! {

/// Which system proxies are switched on.
#[derive(Debug, Clone, Copy, PartialEq, Eq, Structural)]
pub struct ProxyStatus {
    pub http: bool,
    pub https: bool,
    pub websocket: bool,
}

/// Outcome of starting the proxy, with a message for the user.
pub struct ProxyStartResult {
    pub status: bool,
    pub message: String,
}

} // verus!
