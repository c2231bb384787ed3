//! Pass-through of a streamed (SSE or chunked) body with a full capture.
use crate::text::{append_bytes, copy_bytes};
use vstd::prelude::*;

verus! {

/// Tees a streamed body: every upstream frame is captured and handed, once
/// and in order, to the client.
pub struct SseRelay {
    captured: Vec<u8>,
    pending: Option<Vec<u8>>,
    delivered: Ghost<Seq<u8>>,
}

/// Bytes held back for the client, or none.
pub open spec fn pending_bytes(p: Option<Vec<u8>>) -> Seq<u8> {
    match p {
        Some(v) => v@,
        None => Seq::empty(),
    }
}

pub open spec fn is_prefix(a: Seq<u8>, b: Seq<u8>) -> bool {
    a.len() <= b.len() && b.subrange(0, a.len() as int) == a
}

impl SseRelay {
    /// Bytes received from upstream so far.
    pub closed spec fn upstream(&self) -> Seq<u8> {
        self.captured@
    }

    /// Bytes handed to the client so far.
    pub closed spec fn delivered(&self) -> Seq<u8> {
        self.delivered@
    }

    /// Whether a frame waits to be handed to the client.
    pub closed spec fn has_pending(&self) -> bool {
        self.pending is Some
    }

    pub closed spec fn wf(&self) -> bool {
        self.delivered@ + pending_bytes(self.pending) == self.captured@
    }

    pub fn new() -> (r: SseRelay)
        ensures
            r.wf(),
            r.upstream().len() == 0,
            r.delivered().len() == 0,
            !r.has_pending(),
    {
        let r = SseRelay { captured: Vec::new(), pending: None, delivered: Ghost(Seq::empty()) };
        assert(r.delivered@ + pending_bytes(r.pending) =~= r.captured@);
        r
    }

    /// Takes one upstream frame: it is captured and queued for the client.
    pub fn accept_frame(&mut self, data: &[u8])
        requires
            old(self).wf(),
            !old(self).has_pending(),
        ensures
            final(self).wf(),
            final(self).upstream() == old(self).upstream() + data@,
            final(self).delivered() == old(self).delivered(),
            final(self).has_pending(),
    {
        append_bytes(&mut self.captured, data);
        self.pending = Some(copy_bytes(data));
        assert(self.delivered@ + pending_bytes(self.pending) =~= self.captured@);
    }

    /// Hands the queued frame to the client.
    pub fn take_for_client(&mut self) -> (r: Option<Vec<u8>>)
        requires
            old(self).wf(),
        ensures
            final(self).wf(),
            final(self).upstream() == old(self).upstream(),
            !final(self).has_pending(),
            match r {
                Some(d) => old(self).has_pending() && final(self).delivered() == old(
                    self,
                ).delivered() + d@,
                None => !old(self).has_pending() && final(self).delivered() == old(
                    self,
                ).delivered(),
            },
    {
        let out = self.pending.take();
        match &out {
            Some(d) => {
                self.delivered = Ghost(self.delivered@ + d@);
            },
            None => {},
        }
        assert(self.delivered@ + pending_bytes(self.pending) =~= self.captured@);
        out
    }

    /// Ends the stream and returns the whole captured body.
    pub fn finish(self) -> (r: Vec<u8>)
        requires
            self.wf(),
        ensures
            r@ == self.upstream(),
    {
        self.captured
    }
}

/// What the client has received is at all times a prefix of what came from
/// upstream: nothing reordered, nothing repeated.
pub proof fn lemma_delivered_is_prefix(r: &SseRelay)
    requires
        r.wf(),
    ensures
        is_prefix(r.delivered(), r.upstream()),
{
    assert(r.upstream().subrange(0, r.delivered().len() as int) =~= r.delivered());
}

/// Once nothing is pending, the client has received exactly the upstream bytes.
pub proof fn lemma_drained_relay(r: &SseRelay)
    requires
        r.wf(),
        !r.has_pending(),
    ensures
        r.delivered() == r.upstream(),
{
    assert(r.delivered() =~= r.upstream());
}

} // verus!
