//! Per-request decisions of the interception engine: normalisation, the
//! streaming or buffered response path, and recovery from upstream errors.
use crate::headers::{
    lemma_first_index_bounds, lemma_values_of_add, lemma_values_of_set_header,
    lemma_values_of_without, named, set_header, values_of, without, FieldV,
    Headers,
};
use crate::data_type::{detect_spec, get_text_header, text_header, DataType};
use crate::records::{content_label, json_valid, HttpVersion, ProxiedResponse};
use crate::text::{
    append_bytes, ascii_bytes, contains, contains_bytes, copy_bytes, eq_ignore_case, lit, lower,
};
use vstd::prelude::*;

verus! {

/// Method, target, version and header fields of a request.
pub struct RequestHead {
    pub method: Vec<u8>,
    pub uri: Vec<u8>,
    pub version: HttpVersion,
    pub headers: Headers,
}

/// A complete response: status, version, header fields and body bytes.
pub struct ResponseParts {
    pub status: u16,
    pub version: HttpVersion,
    pub headers: Headers,
    pub body: Vec<u8>,
}

/// A response as plain values.
pub struct ResponseV {
    pub status: u16,
    pub version: HttpVersion,
    pub headers: Seq<FieldV>,
    pub body: Seq<u8>,
}

impl View for ResponseParts {
    type V = ResponseV;

    open spec fn view(&self) -> ResponseV {
        ResponseV {
            status: self.status,
            version: self.version,
            headers: self.headers@,
            body: self.body@,
        }
    }
}

/// The response sent for a request the proxy cannot route.
pub fn bad_request() -> (r: ResponseParts)
    ensures
        r.status == 400,
        r.headers@.len() == 0,
        r.body@.len() == 0,
{
    ResponseParts { status: 400, version: HttpVersion::Http11, headers: Headers::new(), body: Vec::new() }
}

/// Values joined with a separator.
pub open spec fn join(sep: Seq<u8>, vals: Seq<Seq<u8>>) -> Seq<u8>
    decreases vals.len(),
{
    if vals.len() == 0 {
        Seq::empty()
    } else if vals.len() == 1 {
        vals[0]
    } else {
        join(sep, vals.drop_last()) + sep + vals.last()
    }
}

pub open spec fn host_name() -> Seq<u8> {
    lit("host"@)
}

pub open spec fn cookie_name() -> Seq<u8> {
    lit("cookie"@)
}

/// Header fields after normalisation: no Host, and the Cookie values, if
/// any, joined by "; " into one field.
pub open spec fn normalized_headers(hs: Seq<FieldV>) -> Seq<FieldV> {
    let h = without(hs, host_name());
    let cookies = values_of(h, cookie_name());
    if cookies.len() == 0 {
        h
    } else {
        set_header(h, cookie_name(), join(lit("; "@), cookies))
    }
}

/// All values of `name`, joined by `sep`, with their count.
pub fn join_values(headers: &Headers, name: &[u8], sep: &[u8]) -> (r: (Vec<u8>, usize))
    ensures
        r.0@ == join(sep@, values_of(headers@, name@)),
        r.1 == values_of(headers@, name@).len(),
{
    let ghost hs = headers@;
    let mut acc: Vec<u8> = Vec::new();
    let mut count: usize = 0;
    let mut i: usize = 0;
    let n = headers.fields.len();
    while i < n
        invariant
            n == hs.len(),
            hs == headers@,
            i <= n,
            count <= i,
            acc@ == join(sep@, values_of(hs.subrange(0, i as int), name@)),
            count == values_of(hs.subrange(0, i as int), name@).len(),
        decreases n - i,
    {
        let ghost pre = hs.subrange(0, i as int);
        assert(hs.subrange(0, i + 1).drop_last() =~= pre);
        assert(hs.subrange(0, i + 1).last() == hs[i as int]);
        let f = &headers.fields[i];
        assert(f@ == hs[i as int]);
        if eq_ignore_case(f.name.as_slice(), name) {
            let ghost vals = values_of(pre, name@).push(f.value@);
            assert(vals.drop_last() =~= values_of(pre, name@));
            if count > 0 {
                append_bytes(&mut acc, sep);
            }
            append_bytes(&mut acc, f.value.as_slice());
            count += 1;
            proof {
                if vals.len() == 1 {
                    assert(values_of(pre, name@).len() == 0);
                    assert(acc@ =~= vals[0]);
                } else {
                    assert(acc@ =~= join(sep@, vals.drop_last()) + sep@ + vals.last());
                }
            }
        }
        i += 1;
    }
    assert(hs.subrange(0, n as int) =~= hs);
    (acc, count)
}

/// Prepares a request for the upstream leg: drops Host, folds the Cookie
/// fields into one, and sets the version to HTTP/1.1.
pub fn normalize_request(req: RequestHead) -> (r: RequestHead)
    ensures
        r.method@ == req.method@,
        r.uri@ == req.uri@,
        r.version == HttpVersion::Http11,
        r.headers@ == normalized_headers(req.headers@),
{
    proof {
        reveal_strlit("host");
        reveal_strlit("cookie");
        reveal_strlit("; ");
    }
    let RequestHead { method, uri, version, mut headers } = req;
    headers.remove(ascii_bytes("host"));
    let (joined, count) = join_values(&headers, ascii_bytes("cookie"), ascii_bytes("; "));
    if count > 0 {
        headers.insert(copy_bytes(ascii_bytes("cookie")), joined);
    }
    RequestHead { method, uri, version: HttpVersion::Http11, headers }
}

/// After an insert of `n`, the values of another name are unchanged.
pub proof fn lemma_values_of_set_header_other(hs: Seq<FieldV>, n: Seq<u8>, v: Seq<u8>, m: Seq<u8>)
    requires
        lower(n) != lower(m),
    ensures
        values_of(set_header(hs, n, v), m) == values_of(hs, m),
{
    lemma_first_index_bounds(hs, n);
    match crate::headers::first_index(hs, n) {
        Some(i) => {
            let pre = hs.subrange(0, i);
            let rest = hs.subrange(i + 1, hs.len() as int);
            assert(hs =~= pre + seq![hs[i]] + rest);
            lemma_values_of_add(pre + seq![hs[i]], rest, m);
            lemma_values_of_add(pre, seq![hs[i]], m);
            assert(seq![hs[i]].drop_last() =~= Seq::<FieldV>::empty());
            assert(seq![hs[i]].last() == hs[i]);
            assert(!named(hs[i].0, m));
            assert(values_of(Seq::<FieldV>::empty(), m) =~= Seq::<Seq<u8>>::empty());
            assert(values_of(seq![hs[i]], m) =~= Seq::<Seq<u8>>::empty());
            assert(pre.push((hs[i].0, v)) =~= pre + seq![(hs[i].0, v)]);
            lemma_values_of_add(pre + seq![(hs[i].0, v)], without(rest, n), m);
            lemma_values_of_add(pre, seq![(hs[i].0, v)], m);
            assert(seq![(hs[i].0, v)].drop_last() =~= Seq::<FieldV>::empty());
            assert(seq![(hs[i].0, v)].last() == (hs[i].0, v));
            assert(values_of(seq![(hs[i].0, v)], m) =~= Seq::<Seq<u8>>::empty());
            lemma_values_of_without(rest, n, m);
            assert(values_of(pre, m) + Seq::<Seq<u8>>::empty() =~= values_of(pre, m));
        },
        None => {
            assert(hs.push((n, v)).drop_last() =~= hs);
        },
    }
}

/// After normalisation a request has no Host field, and at most one Cookie
/// field, whose value is the request's Cookie values joined by "; ".
pub proof fn lemma_normalization(hs: Seq<FieldV>)
    ensures
        values_of(normalized_headers(hs), host_name()).len() == 0,
        values_of(normalized_headers(hs), cookie_name()).len() <= 1,
        values_of(hs, cookie_name()).len() > 0 ==> values_of(
            normalized_headers(hs),
            cookie_name(),
        ) == seq![join(lit("; "@), values_of(hs, cookie_name()))],
        values_of(hs, cookie_name()).len() == 0 ==> values_of(
            normalized_headers(hs),
            cookie_name(),
        ).len() == 0,
{
    reveal_strlit("host");
    reveal_strlit("cookie");
    assert(lower(host_name()) != lower(cookie_name())) by {
        assert(lower(host_name()).len() != lower(cookie_name()).len());
    }
    let h = without(hs, host_name());
    lemma_values_of_without(hs, host_name(), host_name());
    lemma_values_of_without(hs, host_name(), cookie_name());
    let cookies = values_of(h, cookie_name());
    if cookies.len() > 0 {
        let j = join(lit("; "@), cookies);
        lemma_values_of_set_header(h, cookie_name(), j);
        lemma_values_of_set_header_other(h, cookie_name(), j, host_name());
    }
}

/// A response that is streamed to the client instead of buffered: an SSE
/// Content-Type, or chunked transfer encoding.
pub open spec fn streaming_spec(hs: Seq<FieldV>) -> bool {
    (match text_header(hs, lit("content-type"@)) {
        Some(v) => contains(v, lit("text/event-stream"@)),
        None => false,
    }) || (match text_header(hs, lit("transfer-encoding"@)) {
        Some(v) => contains(v, lit("chunked"@)),
        None => false,
    })
}

pub fn is_streaming_response(headers: &Headers) -> (r: bool)
    ensures
        r == streaming_spec(headers@),
{
    proof {
        reveal_strlit("content-type");
        reveal_strlit("text/event-stream");
        reveal_strlit("transfer-encoding");
        reveal_strlit("chunked");
    }
    let sse = match get_text_header(headers, ascii_bytes("content-type")) {
        Some(v) => contains_bytes(v.as_slice(), ascii_bytes("text/event-stream")),
        None => false,
    };
    let chunked = match get_text_header(headers, ascii_bytes("transfer-encoding")) {
        Some(v) => contains_bytes(v.as_slice(), ascii_bytes("chunked")),
        None => false,
    };
    sse || chunked
}

/// Head of a streamed response: caching off, connection kept alive, chunked,
/// no Content-Length, and proxy buffering off.
pub open spec fn streaming_head_spec(hs: Seq<FieldV>) -> Seq<FieldV> {
    let h1 = set_header(hs, lit("cache-control"@), lit("no-cache, no-store, must-revalidate"@));
    let h2 = set_header(h1, lit("connection"@), lit("keep-alive"@));
    let h3 = set_header(h2, lit("transfer-encoding"@), lit("chunked"@));
    let h4 = without(h3, lit("content-length"@));
    set_header(h4, lit("x-accel-buffering"@), lit("no"@))
}

pub fn rewrite_streaming_head(headers: &mut Headers)
    ensures
        final(headers)@ == streaming_head_spec(old(headers)@),
{
    proof {
        reveal_strlit("cache-control");
        reveal_strlit("no-cache, no-store, must-revalidate");
        reveal_strlit("connection");
        reveal_strlit("keep-alive");
        reveal_strlit("transfer-encoding");
        reveal_strlit("chunked");
        reveal_strlit("content-length");
        reveal_strlit("x-accel-buffering");
        reveal_strlit("no");
    }
    headers.insert(
        copy_bytes(ascii_bytes("cache-control")),
        copy_bytes(ascii_bytes("no-cache, no-store, must-revalidate")),
    );
    headers.insert(copy_bytes(ascii_bytes("connection")), copy_bytes(ascii_bytes("keep-alive")));
    headers.insert(
        copy_bytes(ascii_bytes("transfer-encoding")),
        copy_bytes(ascii_bytes("chunked")),
    );
    headers.remove(ascii_bytes("content-length"));
    headers.insert(copy_bytes(ascii_bytes("x-accel-buffering")), copy_bytes(ascii_bytes("no")));
}

/// Head of a response handed to the SSE handler: no caching, connection
/// kept alive, no Content-Length, chunked.
pub open spec fn sse_head_spec(hs: Seq<FieldV>) -> Seq<FieldV> {
    let h1 = set_header(hs, lit("cache-control"@), lit("no-cache, no-store, must-revalidate"@));
    let h2 = set_header(h1, lit("connection"@), lit("keep-alive"@));
    let h3 = without(h2, lit("content-length"@));
    set_header(h3, lit("transfer-encoding"@), lit("chunked"@))
}

/// Forwards server-sent events chunk by chunk.
pub struct SseHandler;

impl SseHandler {
    /// Prepares the head of an SSE response for chunk-by-chunk delivery;
    /// the body passes through untouched.
    pub fn handle_sse_response(&self, headers: &mut Headers)
        ensures
            final(headers)@ == sse_head_spec(old(headers)@),
    {
        proof {
            reveal_strlit("cache-control");
            reveal_strlit("no-cache, no-store, must-revalidate");
            reveal_strlit("connection");
            reveal_strlit("keep-alive");
            reveal_strlit("content-length");
            reveal_strlit("transfer-encoding");
            reveal_strlit("chunked");
        }
        headers.insert(
            copy_bytes(ascii_bytes("cache-control")),
            copy_bytes(ascii_bytes("no-cache, no-store, must-revalidate")),
        );
        headers.insert(copy_bytes(ascii_bytes("connection")), copy_bytes(ascii_bytes("keep-alive")));
        headers.remove(ascii_bytes("content-length"));
        headers.insert(
            copy_bytes(ascii_bytes("transfer-encoding")),
            copy_bytes(ascii_bytes("chunked")),
        );
    }
}

/// A streamed response carries no Content-Length and exactly one
/// Transfer-Encoding field, `chunked`.
pub proof fn lemma_streaming_head(hs: Seq<FieldV>)
    ensures
        values_of(streaming_head_spec(hs), lit("content-length"@)).len() == 0,
        values_of(streaming_head_spec(hs), lit("transfer-encoding"@)) == seq![lit("chunked"@)],
        values_of(streaming_head_spec(hs), lit("x-accel-buffering"@)) == seq![lit("no"@)],
{
    reveal_strlit("cache-control");
    reveal_strlit("connection");
    reveal_strlit("transfer-encoding");
    reveal_strlit("content-length");
    reveal_strlit("x-accel-buffering");
    let cc = lit("cache-control"@);
    let cn = lit("connection"@);
    let te = lit("transfer-encoding"@);
    let cl = lit("content-length"@);
    let xa = lit("x-accel-buffering"@);
    assert(lower(te) != lower(cl)) by {
        assert(lower(te).len() != lower(cl).len());
    }
    assert(lower(xa) != lower(cl)) by {
        assert(lower(xa).len() != lower(cl).len());
    }
    assert(lower(xa) != lower(te)) by {
        assert(lower(xa)[0] != lower(te)[0]);
    }
    let h1 = set_header(hs, cc, lit("no-cache, no-store, must-revalidate"@));
    let h2 = set_header(h1, cn, lit("keep-alive"@));
    let h3 = set_header(h2, te, lit("chunked"@));
    let h4 = without(h3, cl);
    lemma_values_of_set_header(h2, te, lit("chunked"@));
    lemma_values_of_without(h3, cl, cl);
    lemma_values_of_without(h3, cl, te);
    lemma_values_of_set_header_other(h4, xa, lit("no"@), cl);
    lemma_values_of_set_header_other(h4, xa, lit("no"@), te);
    lemma_values_of_set_header(h4, xa, lit("no"@));
}

/// Buffered path: records the response and hands the client the same bytes.
pub fn capture_buffered(res: ResponseParts, time: i64) -> (r: (ProxiedResponse, ResponseParts))
    ensures
        r.1@ == res@,
        r.0.status == res.status,
        r.0.version == res.version,
        r.0.headers@ == res.headers@,
        r.0.body@ == res.body@,
        r.0.time == time,
        r.0.content_type@ == content_label(res.headers@, res.body@),
        r.0.data_type == detect_spec(res.headers@, res.body@),
        r.0.body_json is Some == (r.0.data_type == DataType::Json && json_valid(res.body@)),
{
    let record = ProxiedResponse::new(
        res.status,
        res.version,
        res.headers.clone_headers(),
        copy_bytes(res.body.as_slice()),
        time,
    );
    (record, res)
}

/// The response rebuilt from a recorded one.
pub fn response_from_record(rec: &ProxiedResponse) -> (r: ResponseParts)
    ensures
        r.status == rec.status,
        r.version == rec.version,
        r.headers@ == rec.headers@,
        r.body@ == rec.body@,
{
    ResponseParts {
        status: rec.status,
        version: rec.version,
        headers: rec.headers.clone_headers(),
        body: copy_bytes(rec.body.as_slice()),
    }
}

/// Recovery from a TLS close without close_notify: the recorded response
/// again, bit for bit, or an empty 200 where none was recorded.
pub fn recover_unexpected_eof(cached: Option<&ProxiedResponse>) -> (r: ResponseParts)
    ensures
        match cached {
            Some(c) => r.status == c.status && r.version == c.version && r.headers@ == c.headers@
                && r.body@ == c.body@,
            None => r.status == 200 && r.headers@.len() == 0 && r.body@.len() == 0,
        },
{
    match cached {
        Some(c) => response_from_record(c),
        None => ResponseParts {
            status: 200,
            version: HttpVersion::Http11,
            headers: Headers::new(),
            body: Vec::new(),
        },
    }
}

/// The 500 that stands in when a recovery has nothing recorded to replay.
pub fn create_response_from_cached_data(cached: Option<&ProxiedResponse>) -> (r: ResponseParts)
    ensures
        match cached {
            Some(c) => r.status == c.status && r.version == c.version && r.headers@ == c.headers@
                && r.body@ == c.body@,
            None => r.status == 500 && r.headers@.len() == 0 && r.body@ == lit(
                "No cached response data available"@,
            ),
        },
{
    proof {
        reveal_strlit("No cached response data available");
    }
    match cached {
        Some(c) => response_from_record(c),
        None => ResponseParts {
            status: 500,
            version: HttpVersion::Http11,
            headers: Headers::new(),
            body: copy_bytes(ascii_bytes("No cached response data available")),
        },
    }
}

/// What to do after the upstream client failed.
#[derive(Debug, Clone, Copy, PartialEq, Eq, Structural)]
pub enum ErrorPlan {
    /// Benign close: replay the recorded response or send an empty 200.
    RecoverEof,
    /// Handshake failure: retry the recorded request out of process.
    CurlFallback,
    /// Anything else: 502.
    BadGateway,
}

pub open spec fn error_plan_spec(source: Option<Seq<u8>>, has_request: bool) -> ErrorPlan {
    match source {
        Some(s) => if contains(s, lit("UnexpectedEof"@)) || contains(s, lit("unexpected EOF"@)) {
            ErrorPlan::RecoverEof
        } else if contains(s, lit("HandshakeFailure"@)) && has_request {
            ErrorPlan::CurlFallback
        } else {
            ErrorPlan::BadGateway
        },
        None => ErrorPlan::BadGateway,
    }
}

/// Classifies an upstream error by the text of its source.
pub fn plan_error(source: Option<&[u8]>, has_request: bool) -> (r: ErrorPlan)
    ensures
        r == error_plan_spec(
            match source {
                Some(s) => Some(s@),
                None => None,
            },
            has_request,
        ),
{
    proof {
        reveal_strlit("UnexpectedEof");
        reveal_strlit("unexpected EOF");
        reveal_strlit("HandshakeFailure");
    }
    match source {
        Some(s) => {
            if contains_bytes(s, ascii_bytes("UnexpectedEof")) || contains_bytes(
                s,
                ascii_bytes("unexpected EOF"),
            ) {
                ErrorPlan::RecoverEof
            } else if contains_bytes(s, ascii_bytes("HandshakeFailure")) && has_request {
                ErrorPlan::CurlFallback
            } else {
                ErrorPlan::BadGateway
            }
        },
        None => ErrorPlan::BadGateway,
    }
}

/// The 502 that reports an upstream error.
pub fn bad_gateway(message: &[u8]) -> (r: ResponseParts)
    ensures
        r.status == 502,
        r.headers@.len() == 0,
        r.body@ == lit("Proxy Error: "@) + message@,
{
    proof {
        reveal_strlit("Proxy Error: ");
    }
    let mut body = copy_bytes(ascii_bytes("Proxy Error: "));
    append_bytes(&mut body, message);
    ResponseParts { status: 502, version: HttpVersion::Http11, headers: Headers::new(), body }
}

/// What the error hook does after an upstream failure.
pub enum ErrorOutcome {
    /// Answer the client with this response.
    Respond(ResponseParts),
    /// Run the out-of-process retry, then call `after_curl`.
    RunCurl,
}

/// The error hook: `source` is the text of the error's source, `message`
/// the text of the error itself.
pub fn handle_upstream_error(
    source: Option<&[u8]>,
    message: &[u8],
    cached: Option<&ProxiedResponse>,
    has_request: bool,
) -> (r: ErrorOutcome)
    ensures
        match error_plan_spec(
            match source {
                Some(s) => Some(s@),
                None => None,
            },
            has_request,
        ) {
            ErrorPlan::RecoverEof => r matches ErrorOutcome::Respond(res) && match cached {
                Some(c) => res.status == c.status && res.version == c.version && res.headers@
                    == c.headers@ && res.body@ == c.body@,
                None => res.status == 200 && res.headers@.len() == 0 && res.body@.len() == 0,
            },
            ErrorPlan::CurlFallback => r is RunCurl,
            ErrorPlan::BadGateway => r matches ErrorOutcome::Respond(res) && res.status == 502
                && res.body@ == lit("Proxy Error: "@) + message@,
        },
{
    match plan_error(source, has_request) {
        ErrorPlan::RecoverEof => ErrorOutcome::Respond(recover_unexpected_eof(cached)),
        ErrorPlan::CurlFallback => ErrorOutcome::RunCurl,
        ErrorPlan::BadGateway => ErrorOutcome::Respond(bad_gateway(message)),
    }
}

/// After the out-of-process retry: its response where it succeeded, else 502.
pub fn after_curl(result: Option<ResponseParts>, message: &[u8]) -> (r: ResponseParts)
    ensures
        match result {
            Some(res) => r@ == res@,
            None => r.status == 502 && r.body@ == lit("Proxy Error: "@) + message@,
        },
{
    match result {
        Some(res) => res,
        None => bad_gateway(message),
    }
}

} // verus!
