//! Immutable snapshots of a request and a response, as handed to the host.
use crate::data_type::{detect_data_type, detect_spec, is_utf8, is_png, get_text_header, text_header, DataType};
use crate::headers::{FieldV, Headers};
use crate::text::{
    ascii_bytes, append_bytes, chars_of, copy_bytes, decode_text, has_prefix, is_white, lit,
    starts_with, white,
};
use vstd::prelude::*;
use vstd::utf8::{decode_utf8, valid_utf8};

verus! {

/// HTTP protocol version of a message.
#[derive(Debug, Clone, Copy, PartialEq, Eq, Structural)]
pub enum HttpVersion {
    Http09,
    Http10,
    Http11,
    Http2,
    Http3,
}

impl HttpVersion {
    pub open spec fn label_spec(self) -> Seq<char> {
        match self {
            HttpVersion::Http09 => "HTTP_09"@,
            HttpVersion::Http10 => "HTTP_10"@,
            HttpVersion::Http11 => "HTTP_11"@,
            HttpVersion::Http2 => "HTTP_2"@,
            HttpVersion::Http3 => "HTTP_3"@,
        }
    }

    /// The label that records use for this version.
    pub fn to_string(&self) -> (r: String)
        ensures
            r@ == self.label_spec(),
    {
        match self {
            HttpVersion::Http09 => "HTTP_09".to_owned(),
            HttpVersion::Http10 => "HTTP_10".to_owned(),
            HttpVersion::Http11 => "HTTP_11".to_owned(),
            HttpVersion::Http2 => "HTTP_2".to_owned(),
            HttpVersion::Http3 => "HTTP_3".to_owned(),
        }
    }
}

/// Whether `text` is one JSON document.
pub uninterp spec fn json_valid(text: Seq<u8>) -> bool;

/// A parsed JSON document, carried through unread.
#[verifier::external_type_specification]
#[verifier::external_body]
pub struct ExJsonValue(serde_json::Value);

/// Relies on `serde_json::from_slice::<serde_json::Value>`: it succeeds
/// exactly on the byte strings that hold one JSON document.
#[verifier::external_body]
fn parse_json(text: &[u8]) -> (r: Option<serde_json::Value>)
    ensures
        r is Some == json_valid(text@),
{
    serde_json::from_slice::<serde_json::Value>(text).ok()
}

/// The parsed body of a record whose kind is JSON.
pub fn body_json_of(kind: DataType, body: &[u8]) -> (r: Option<serde_json::Value>)
    ensures
        r is Some == (kind == DataType::Json && json_valid(body@)),
{
    match kind {
        DataType::Json => parse_json(body),
        _ => None,
    }
}

/// A lower-case hexadecimal digit.
pub open spec fn is_hex_lower(b: u8) -> bool {
    (48 <= b && b <= 57) || (97 <= b && b <= 102)
}

/// Relies on `uuid::Uuid::new_v4` rendered in its simple form: 32 lower-case
/// hexadecimal digits, drawn at random.
#[verifier::external_body]
fn random_token() -> (r: Vec<u8>)
    ensures
        r@.len() == 32,
        forall|i: int| 0 <= i < 32 ==> is_hex_lower(#[trigger] r@[i]),
{
    uuid::Uuid::new_v4().simple().to_string().into_bytes()
}

/// The first character of `cs` that is not whitespace.
pub open spec fn first_solid(cs: Seq<char>) -> Option<char>
    decreases cs.len(),
{
    if cs.len() == 0 {
        None
    } else if white(cs[0]) {
        first_solid(cs.drop_first())
    } else {
        Some(cs[0])
    }
}

/// First character of a body read as UTF-8 text, once leading whitespace
/// is trimmed as `str::trim` does.
pub open spec fn first_after_space(b: Seq<u8>) -> Option<char> {
    first_solid(decode_utf8(b))
}

fn first_solid_of(b: &[u8]) -> (r: Option<char>)
    requires
        valid_utf8(b@),
    ensures
        r == first_after_space(b@),
{
    let text = decode_text(b).unwrap();
    let cs = chars_of(text.as_str());
    let n = cs.len();
    let mut i: usize = 0;
    assert(cs@.subrange(0, n as int) =~= cs@);
    while i < n
        invariant
            i <= n,
            n == cs@.len(),
            cs@ == decode_utf8(b@),
            first_solid(cs@.subrange(i as int, n as int)) == first_solid(cs@),
        decreases n - i,
    {
        let ghost rest = cs@.subrange(i as int, n as int);
        assert(rest[0] == cs@[i as int]);
        assert(rest.drop_first() =~= cs@.subrange(i + 1, n as int));
        if !is_white(cs[i]) {
            return Some(cs[i]);
        }
        i += 1;
    }
    assert(cs@.subrange(n as int, n as int) =~= Seq::<char>::empty());
    None
}

/// Content-type label of a record: the Content-Type header where it is
/// text, else a guess from the body.
pub open spec fn content_label(hs: Seq<FieldV>, b: Seq<u8>) -> Seq<u8> {
    match text_header(hs, lit("content-type"@)) {
        Some(v) => v,
        None => if b.len() == 0 {
            lit("empty"@)
        } else if valid_utf8(b) && (first_after_space(b) == Some('{') || first_after_space(b) == Some('[')) && json_valid(b) {
            lit("application/json"@)
        } else if valid_utf8(b) && first_after_space(b) == Some('<') {
            lit("application/xml"@)
        } else if is_png(b) {
            lit("image/png"@)
        } else if b.len() >= 2 && b[0] == 0xff && b[1] == 0xd8 {
            lit("image/jpeg"@)
        } else if has_prefix(b, lit("GIF87a"@)) || has_prefix(b, lit("GIF89a"@)) {
            lit("image/gif"@)
        } else if has_prefix(b, lit("%PDF"@)) {
            lit("application/pdf"@)
        } else {
            lit("application/octet-stream"@)
        },
    }
}

/// Computes `content_label`.
pub fn detect_content_type(headers: &Headers, body: &[u8]) -> (r: Vec<u8>)
    ensures
        r@ == content_label(headers@, body@),
{
    proof {
        reveal_strlit("content-type");
        reveal_strlit("empty");
        reveal_strlit("application/json");
        reveal_strlit("application/xml");
        reveal_strlit("image/png");
        reveal_strlit("image/jpeg");
        reveal_strlit("GIF87a");
        reveal_strlit("GIF89a");
        reveal_strlit("image/gif");
        reveal_strlit("%PDF");
        reveal_strlit("application/pdf");
        reveal_strlit("application/octet-stream");
    }
    if let Some(v) = get_text_header(headers, ascii_bytes("content-type")) {
        return copy_bytes(v.as_slice());
    }
    let n = body.len();
    if n == 0 {
        return copy_bytes(ascii_bytes("empty"));
    }
    if is_utf8(body) {
        let first = first_solid_of(body);
        if (first == Some('{') || first == Some('[')) && parse_json(body).is_some() {
            return copy_bytes(ascii_bytes("application/json"));
        }
        if first == Some('<') {
            return copy_bytes(ascii_bytes("application/xml"));
        }
    }
    if n >= 8 && body[0] == 0x89 && body[1] == 0x50 && body[2] == 0x4e && body[3] == 0x47
        && body[4] == 0x0d && body[5] == 0x0a && body[6] == 0x1a && body[7] == 0x0a {
        return copy_bytes(ascii_bytes("image/png"));
    }
    if n >= 2 && body[0] == 0xff && body[1] == 0xd8 {
        return copy_bytes(ascii_bytes("image/jpeg"));
    }
    if starts_with(body, ascii_bytes("GIF87a")) || starts_with(body, ascii_bytes("GIF89a")) {
        return copy_bytes(ascii_bytes("image/gif"));
    }
    if starts_with(body, ascii_bytes("%PDF")) {
        return copy_bytes(ascii_bytes("application/pdf"));
    }
    copy_bytes(ascii_bytes("application/octet-stream"))
}

/// Decimal digits of a natural number.
pub open spec fn digits(n: nat) -> Seq<u8>
    decreases n,
{
    if n < 10 {
        seq![(48 + n) as u8]
    } else {
        digits(n / 10).push((48 + n % 10) as u8)
    }
}

/// Decimal text of an integer, with a minus sign where negative.
pub open spec fn decimal(i: int) -> Seq<u8> {
    if i < 0 {
        seq![45u8] + digits((-i) as nat)
    } else {
        digits(i as nat)
    }
}

fn digits_u64(n: u64) -> (r: Vec<u8>)
    ensures
        r@ == digits(n as nat),
    decreases n,
{
    if n < 10 {
        let r = vec![(48 + n) as u8];
        assert(r@ =~= digits(n as nat));
        r
    } else {
        let mut r = digits_u64(n / 10);
        r.push((48 + n % 10) as u8);
        r
    }
}

/// Decimal text of `i`.
pub fn decimal_i64(i: i64) -> (r: Vec<u8>)
    ensures
        r@ == decimal(i as int),
{
    if i < 0 {
        let m: u64 = if i == i64::MIN {
            9223372036854775808u64
        } else {
            (-i) as u64
        };
        let d = digits_u64(m);
        let mut r = vec![45u8];
        append_bytes(&mut r, d.as_slice());
        assert(r@ =~= decimal(i as int));
        r
    } else {
        digits_u64(i as u64)
    }
}

/// Snapshot of one client request.
pub struct ProxiedRequest {
    pub method: Vec<u8>,
    pub uri: Vec<u8>,
    pub version: HttpVersion,
    pub headers: Headers,
    pub body: Vec<u8>,
    pub time: i64,
    pub id: Vec<u8>,
    pub content_type: Vec<u8>,
    pub data_type: DataType,
    pub body_json: Option<serde_json::Value>,
}

impl ProxiedRequest {
    /// Builds a record with a fresh random identifier.
    pub fn new(
        method: Vec<u8>,
        uri: Vec<u8>,
        version: HttpVersion,
        headers: Headers,
        body: Vec<u8>,
        time: i64,
    ) -> (r: ProxiedRequest)
        ensures
            r.method@ == method@,
            r.uri@ == uri@,
            r.version == version,
            r.headers@ == headers@,
            r.body@ == body@,
            r.time == time,
            r.content_type@ == content_label(headers@, body@),
            r.data_type == detect_spec(headers@, body@),
            r.body_json is Some == (r.data_type == DataType::Json && json_valid(body@)),
            r.id@.len() == decimal(time as int).len() + 33,
            r.id@.subrange(0, (decimal(time as int).len() + 1) as int) == decimal(time as int).push(45u8),
            forall|i: int|
                decimal(time as int).len() + 1 <= i < r.id@.len() ==> is_hex_lower(#[trigger] r.id@[i]),
    {
        let token = random_token();
        let r = Self::with_token(method, uri, version, headers, body, time, token.as_slice());
        assert(r.id@.subrange(0, (decimal(time as int).len() + 1) as int) =~= decimal(time as int).push(45u8));
        assert forall|i: int|
            decimal(time as int).len() + 1 <= i < r.id@.len() implies is_hex_lower(#[trigger] r.id@[i]) by {
            assert(r.id@[i] == token@[i - decimal(time as int).len() - 1]);
        }
        r
    }

    /// Builds a record whose identifier is the time, a dash and `token`.
    pub fn with_token(
        method: Vec<u8>,
        uri: Vec<u8>,
        version: HttpVersion,
        headers: Headers,
        body: Vec<u8>,
        time: i64,
        token: &[u8],
    ) -> (r: ProxiedRequest)
        ensures
            r.method@ == method@,
            r.uri@ == uri@,
            r.version == version,
            r.headers@ == headers@,
            r.body@ == body@,
            r.time == time,
            r.content_type@ == content_label(headers@, body@),
            r.data_type == detect_spec(headers@, body@),
            r.body_json is Some == (r.data_type == DataType::Json && json_valid(body@)),
            r.id@ == decimal(time as int).push(45u8) + token@,
    {
        let mut id = decimal_i64(time);
        id.push(45u8);
        append_bytes(&mut id, token);
        let content_type = detect_content_type(&headers, body.as_slice());
        let data_type = detect_data_type(&headers, body.as_slice());
        let body_json = body_json_of(data_type, body.as_slice());
        ProxiedRequest { method, uri, version, headers, body, time, id, content_type, data_type, body_json }
    }

    pub fn method(&self) -> (r: &Vec<u8>)
        ensures
            r@ == self.method@,
    {
        &self.method
    }

    pub fn uri(&self) -> (r: &Vec<u8>)
        ensures
            r@ == self.uri@,
    {
        &self.uri
    }

    pub fn version(&self) -> (r: HttpVersion)
        ensures
            r == self.version,
    {
        self.version
    }

    pub fn headers(&self) -> (r: &Headers)
        ensures
            r@ == self.headers@,
    {
        &self.headers
    }

    pub fn body(&self) -> (r: &Vec<u8>)
        ensures
            r@ == self.body@,
    {
        &self.body
    }

    pub fn time(&self) -> (r: i64)
        ensures
            r == self.time,
    {
        self.time
    }

    pub fn id(&self) -> (r: &Vec<u8>)
        ensures
            r@ == self.id@,
    {
        &self.id
    }

    pub fn content_type(&self) -> (r: &Vec<u8>)
        ensures
            r@ == self.content_type@,
    {
        &self.content_type
    }
}

/// Snapshot of one response.
pub struct ProxiedResponse {
    pub status: u16,
    pub version: HttpVersion,
    pub headers: Headers,
    pub body: Vec<u8>,
    pub time: i64,
    pub content_type: Vec<u8>,
    pub data_type: DataType,
    pub body_json: Option<serde_json::Value>,
}

impl ProxiedResponse {
    pub fn new(status: u16, version: HttpVersion, headers: Headers, body: Vec<u8>, time: i64) -> (r:
        ProxiedResponse)
        ensures
            r.status == status,
            r.version == version,
            r.headers@ == headers@,
            r.body@ == body@,
            r.time == time,
            r.content_type@ == content_label(headers@, body@),
            r.data_type == detect_spec(headers@, body@),
            r.body_json is Some == (r.data_type == DataType::Json && json_valid(body@)),
    {
        let content_type = detect_content_type(&headers, body.as_slice());
        let data_type = detect_data_type(&headers, body.as_slice());
        let body_json = body_json_of(data_type, body.as_slice());
        ProxiedResponse { status, version, headers, body, time, content_type, data_type, body_json }
    }

    pub fn status(&self) -> (r: u16)
        ensures
            r == self.status,
    {
        self.status
    }

    pub fn version(&self) -> (r: HttpVersion)
        ensures
            r == self.version,
    {
        self.version
    }

    pub fn headers(&self) -> (r: &Headers)
        ensures
            r@ == self.headers@,
    {
        &self.headers
    }

    pub fn body(&self) -> (r: &Vec<u8>)
        ensures
            r@ == self.body@,
    {
        &self.body
    }

    pub fn time(&self) -> (r: i64)
        ensures
            r == self.time,
    {
        self.time
    }

    pub fn content_type(&self) -> (r: &Vec<u8>)
        ensures
            r@ == self.content_type@,
    {
        &self.content_type
    }
}

/// The pair emitted to the host after an exchange.
pub struct RequestInfo(pub Option<ProxiedRequest>, pub Option<ProxiedResponse>);

} // verus!
