//! Session rules: configured mock responses matched by method and URL.
use crate::engine::ResponseParts;
use crate::headers::{
    header_get, header_name_of, header_value_ok, is_valid_header_value, lemma_values_of_set_header,
    parse_header_name, set_header, values_of, FieldV, Headers,
};
use crate::records::HttpVersion;
use crate::text::{
    ascii_bytes, contains, contains_bytes, copy_bytes, eq_ignore_case, lemma_lower_id, lit, lower,
};
use vstd::prelude::*;

verus! {

/// A header of a rule's response; `value` is `None` where the configured
/// value is not a string.
pub struct SessionHeader {
    pub name: Vec<u8>,
    pub value: Option<Vec<u8>>,
}

/// Body of a rule's response.
pub enum SessionData {
    /// No data configured: empty body.
    Missing,
    /// A string, sent as it is.
    Text(Vec<u8>),
    /// Any other value, sent as its JSON text.
    Json(Vec<u8>),
}

/// The response a rule synthesises.
pub struct SessionResponse {
    pub status: Option<u64>,
    pub headers: Vec<SessionHeader>,
    pub data: SessionData,
}

/// One configured mock; `None` marks a method or URL that the configuration
/// lacks or gives as something other than a string.
pub struct SessionRule {
    pub method: Option<Vec<u8>>,
    pub url: Option<Vec<u8>>,
    pub response: SessionResponse,
}

/// The rule set, replaced as a whole by the host.
pub struct SessionStore {
    pub rules: Vec<SessionRule>,
}

/// A rule matches when it names both a method and a URL, its method equals
/// the request's up to ASCII case, and either URL contains the other. A rule
/// missing either field is malformed and never matches.
pub open spec fn rule_matches(r: SessionRule, method: Seq<u8>, url: Seq<u8>) -> bool {
    match (r.method, r.url) {
        (Some(m), Some(u)) => (contains(url, u@) || contains(u@, url)) && lower(m@) == lower(
            method,
        ),
        _ => false,
    }
}

pub fn matches_rule(r: &SessionRule, method: &[u8], url: &[u8]) -> (b: bool)
    ensures
        b == rule_matches(*r, method@, url@),
{
    match (&r.method, &r.url) {
        (Some(m), Some(u)) => (contains_bytes(url, u.as_slice()) || contains_bytes(
            u.as_slice(),
            url,
        )) && eq_ignore_case(m.as_slice(), method),
        _ => false,
    }
}

impl SessionStore {
    pub fn new() -> (r: SessionStore)
        ensures
            r.rules@.len() == 0,
    {
        SessionStore { rules: Vec::new() }
    }

    /// Replaces the whole rule set.
    pub fn update_sessions(&mut self, rules: Vec<SessionRule>)
        ensures
            final(self).rules@ == rules@,
    {
        self.rules = rules;
    }

    /// Index of the first rule that matches.
    pub fn find_matching_session(&self, url: &[u8], method: &[u8]) -> (r: Option<usize>)
        ensures
            match r {
                Some(i) => i < self.rules@.len() && rule_matches(self.rules@[i as int], method@, url@)
                    && forall|j: int|
                    0 <= j < i ==> !rule_matches(#[trigger] self.rules@[j], method@, url@),
                None => forall|j: int|
                    0 <= j < self.rules@.len() ==> !rule_matches(
                        #[trigger] self.rules@[j],
                        method@,
                        url@,
                    ),
            },
    {
        let mut i: usize = 0;
        while i < self.rules.len()
            invariant
                i <= self.rules@.len(),
                forall|j: int| 0 <= j < i ==> !rule_matches(#[trigger] self.rules@[j], method@, url@),
            decreases self.rules@.len() - i,
        {
            if matches_rule(&self.rules[i], method, url) {
                return Some(i);
            }
            i += 1;
        }
        None
    }
}

/// Status of a synthesised response: the configured one where it is a
/// status code (100 to 999); else 200.
pub open spec fn session_status(s: Option<u64>) -> u16 {
    match s {
        Some(v) => if 100 <= v && v <= 999 {
            v as u16
        } else {
            200
        },
        None => 200,
    }
}

/// A configured header is kept when it is not Content-Length, its value is
/// a string and both parse as a header name and value.
pub open spec fn kept_headers(hs: Seq<SessionHeader>) -> Seq<FieldV>
    decreases hs.len(),
{
    if hs.len() == 0 {
        Seq::empty()
    } else {
        let rest = kept_headers(hs.drop_last());
        let h = hs.last();
        if lower(h.name@) == lit("content-length"@) {
            rest
        } else {
            match (header_name_of(h.name@), h.value) {
                (Some(n), Some(v)) => if header_value_ok(v@) {
                    rest.push((n, v@))
                } else {
                    rest
                },
                _ => rest,
            }
        }
    }
}

pub open spec fn session_marker_name() -> Seq<u8> {
    lit("x-cheolsu-proxy-session"@)
}

/// Header fields of a synthesised response.
pub open spec fn session_headers(hs: Seq<SessionHeader>) -> Seq<FieldV> {
    let base = kept_headers(hs);
    let h1 = if header_get(base, lit("content-type"@)) is Some {
        base
    } else {
        set_header(base, lit("content-type"@), lit("application/json"@))
    };
    let h2 = set_header(h1, session_marker_name(), lit("true"@));
    set_header(h2, lit("x-cheolsu-proxy-version"@), lit("v2"@))
}

pub open spec fn session_body(d: SessionData) -> Seq<u8> {
    match d {
        SessionData::Missing => Seq::empty(),
        SessionData::Text(t) => t@,
        SessionData::Json(j) => j@,
    }
}

fn collect_headers(hs: &Vec<SessionHeader>) -> (r: Headers)
    ensures
        r@ == kept_headers(hs@),
{
    proof {
        reveal_strlit("content-length");
    }
    let cl = ascii_bytes("content-length");
    proof {
        lemma_lower_id(cl@);
    }
    let mut out = Headers::new();
    let mut i: usize = 0;
    while i < hs.len()
        invariant
            cl@ == lit("content-length"@),
            lower(cl@) == cl@,
            i <= hs@.len(),
            out@ == kept_headers(hs@.subrange(0, i as int)),
        decreases hs@.len() - i,
    {
        assert(hs@.subrange(0, i + 1).drop_last() =~= hs@.subrange(0, i as int));
        assert(hs@.subrange(0, i + 1).last() == hs@[i as int]);
        let h = &hs[i];
        if !eq_ignore_case(h.name.as_slice(), cl) {
            match (parse_header_name(h.name.as_slice()), &h.value) {
                (Some(n), Some(v)) => {
                    if is_valid_header_value(v.as_slice()) {
                        out.append(n, copy_bytes(v.as_slice()));
                    }
                },
                _ => {},
            }
        }
        i += 1;
    }
    assert(hs@.subrange(0, hs@.len() as int) =~= hs@);
    out
}

/// Builds the response that a rule stands for.
pub fn create_response_from_session(resp: &SessionResponse) -> (r: ResponseParts)
    ensures
        r.status == session_status(resp.status),
        r.headers@ == session_headers(resp.headers@),
        r.body@ == session_body(resp.data),
{
    proof {
        reveal_strlit("content-type");
        reveal_strlit("application/json");
        reveal_strlit("x-cheolsu-proxy-session");
        reveal_strlit("true");
        reveal_strlit("x-cheolsu-proxy-version");
        reveal_strlit("v2");
    }
    let status: u16 = match resp.status {
        Some(v) => if 100 <= v && v <= 999 {
            v as u16
        } else {
            200
        },
        None => 200,
    };
    let mut headers = collect_headers(&resp.headers);
    if !headers.contains_key(ascii_bytes("content-type")) {
        headers.insert(
            copy_bytes(ascii_bytes("content-type")),
            copy_bytes(ascii_bytes("application/json")),
        );
    }
    headers.insert(copy_bytes(ascii_bytes("x-cheolsu-proxy-session")), copy_bytes(ascii_bytes("true")));
    headers.insert(copy_bytes(ascii_bytes("x-cheolsu-proxy-version")), copy_bytes(ascii_bytes("v2")));
    let body = match &resp.data {
        SessionData::Missing => Vec::new(),
        SessionData::Text(t) => copy_bytes(t.as_slice()),
        SessionData::Json(j) => copy_bytes(j.as_slice()),
    };
    ResponseParts { status, version: HttpVersion::Http11, headers, body }
}

/// How a request is answered.
pub enum RequestPlan {
    /// A session rule fired: answer with this response; upstream is not contacted.
    Respond(ResponseParts),
    /// Send the request upstream.
    Forward,
}

/// Consults the rule set for a request.
pub fn plan_request(store: &SessionStore, method: &[u8], url: &[u8]) -> (r: RequestPlan)
    ensures
        match r {
            RequestPlan::Respond(res) => exists|i: int|
                0 <= i < store.rules@.len() && rule_matches(#[trigger] store.rules@[i], method@, url@)
                    && (forall|j: int| 0 <= j < i ==> !rule_matches(#[trigger] store.rules@[j], method@, url@))
                    && res.status == session_status(store.rules@[i].response.status)
                    && res.headers@ == session_headers(store.rules@[i].response.headers@)
                    && res.body@ == session_body(store.rules@[i].response.data),
            RequestPlan::Forward => forall|j: int|
                0 <= j < store.rules@.len() ==> !rule_matches(
                    #[trigger] store.rules@[j],
                    method@,
                    url@,
                ),
        },
{
    match store.find_matching_session(url, method) {
        Some(i) => RequestPlan::Respond(create_response_from_session(&store.rules[i].response)),
        None => RequestPlan::Forward,
    }
}

/// A synthesised response carries exactly one session marker, `true`.
pub proof fn lemma_session_marker(hs: Seq<SessionHeader>)
    ensures
        values_of(session_headers(hs), session_marker_name()) == seq![lit("true"@)],
{
    reveal_strlit("x-cheolsu-proxy-session");
    reveal_strlit("x-cheolsu-proxy-version");
    let base = kept_headers(hs);
    let h1 = if header_get(base, lit("content-type"@)) is Some {
        base
    } else {
        set_header(base, lit("content-type"@), lit("application/json"@))
    };
    let h2 = set_header(h1, session_marker_name(), lit("true"@));
    lemma_values_of_set_header(h1, session_marker_name(), lit("true"@));
    assert(lower(lit("x-cheolsu-proxy-version"@)) != lower(session_marker_name())) by {
        assert(lower(lit("x-cheolsu-proxy-version"@))[15] != lower(session_marker_name())[16]);
    }
    crate::engine::lemma_values_of_set_header_other(
        h2,
        lit("x-cheolsu-proxy-version"@),
        lit("v2"@),
        session_marker_name(),
    );
}

} // verus!
