//! Classification of a message body into a small set of media kinds.
use crate::headers::{header_get, FieldV, Headers};
use crate::text::{
    decode_text,
    ascii_bytes, contains, contains_bytes, has_prefix, lit, lower, occurs_at, matches_at,
    starts_with, to_lower, visible_ascii, is_visible_ascii,
};
use std::io::Read;
use vstd::prelude::*;
use vstd::utf8::valid_utf8;

verus! {

/// Media kind of a body.
#[derive(Debug, Clone, Copy, PartialEq, Eq, Structural)]
pub enum DataType {
    Json,
    Xml,
    Html,
    Text,
    Css,
    Javascript,
    Image,
    Video,
    Audio,
    Document,
    Archive,
    Binary,
    Empty,
    Unknown,
}

impl Default for DataType {
    fn default() -> (r: DataType)
        ensures
            r == DataType::Unknown,
    {
        DataType::Unknown
    }
}

impl DataType {
    pub open spec fn mime_spec(self) -> Seq<char> {
        match self {
            DataType::Json => "application/json"@,
            DataType::Xml => "application/xml"@,
            DataType::Html => "text/html"@,
            DataType::Text => "text/plain"@,
            DataType::Css => "text/css"@,
            DataType::Javascript => "application/javascript"@,
            DataType::Image => "image/*"@,
            DataType::Video => "video/*"@,
            DataType::Audio => "audio/*"@,
            DataType::Document => "application/pdf"@,
            DataType::Archive => "application/zip"@,
            DataType::Binary => "application/octet-stream"@,
            DataType::Empty => "empty"@,
            DataType::Unknown => "application/octet-stream"@,
        }
    }

    /// The MIME type that stands for this kind.
    pub fn to_mime_type(&self) -> (r: &'static str)
        ensures
            r@ == self.mime_spec(),
    {
        match self {
            DataType::Json => "application/json",
            DataType::Xml => "application/xml",
            DataType::Html => "text/html",
            DataType::Text => "text/plain",
            DataType::Css => "text/css",
            DataType::Javascript => "application/javascript",
            DataType::Image => "image/*",
            DataType::Video => "video/*",
            DataType::Audio => "audio/*",
            DataType::Document => "application/pdf",
            DataType::Archive => "application/zip",
            DataType::Binary => "application/octet-stream",
            DataType::Empty => "empty",
            DataType::Unknown => "application/octet-stream",
        }
    }

    pub open spec fn language_spec(self) -> Seq<char> {
        match self {
            DataType::Json => "json"@,
            DataType::Xml => "xml"@,
            DataType::Html => "html"@,
            DataType::Css => "css"@,
            DataType::Javascript => "javascript"@,
            _ => "plaintext"@,
        }
    }

    /// The editor language tag for this kind.
    pub fn to_monaco_language(&self) -> (r: &'static str)
        ensures
            r@ == self.language_spec(),
    {
        match self {
            DataType::Json => "json",
            DataType::Xml => "xml",
            DataType::Html => "html",
            DataType::Css => "css",
            DataType::Javascript => "javascript",
            DataType::Text => "plaintext",
            DataType::Image | DataType::Video | DataType::Audio | DataType::Document
            | DataType::Archive | DataType::Binary | DataType::Empty | DataType::Unknown => {
                "plaintext"
            },
        }
    }

    pub fn is_text_based(&self) -> (r: bool)
        ensures
            r == (*self == DataType::Json || *self == DataType::Xml || *self == DataType::Html
                || *self == DataType::Css || *self == DataType::Javascript || *self
                == DataType::Text),
    {
        match self {
            DataType::Json | DataType::Xml | DataType::Html | DataType::Css
            | DataType::Javascript | DataType::Text => true,
            _ => false,
        }
    }

    pub fn is_image(&self) -> (r: bool)
        ensures
            r == (*self == DataType::Image),
    {
        matches!(self, DataType::Image)
    }

    pub fn is_video(&self) -> (r: bool)
        ensures
            r == (*self == DataType::Video),
    {
        matches!(self, DataType::Video)
    }

    pub fn is_audio(&self) -> (r: bool)
        ensures
            r == (*self == DataType::Audio),
    {
        matches!(self, DataType::Audio)
    }

    pub fn is_document(&self) -> (r: bool)
        ensures
            r == (*self == DataType::Document),
    {
        matches!(self, DataType::Document)
    }

    pub fn is_archive(&self) -> (r: bool)
        ensures
            r == (*self == DataType::Archive),
    {
        matches!(self, DataType::Archive)
    }

    pub fn is_binary(&self) -> (r: bool)
        ensures
            r == (*self == DataType::Image || *self == DataType::Video || *self == DataType::Audio
                || *self == DataType::Document || *self == DataType::Archive || *self
                == DataType::Binary),
    {
        match self {
            DataType::Image | DataType::Video | DataType::Audio | DataType::Document
            | DataType::Archive | DataType::Binary => true,
            _ => false,
        }
    }
}

/// What one round of classification decides: a kind, or to decode the body
/// first.
#[derive(Debug, Clone, Copy, PartialEq, Eq, Structural)]
pub enum DetectStep {
    Found(DataType),
    Gunzip,
    Unbrotli,
}

/// The plain bytes that a gzip stream holds; `None` where it is not valid gzip.
pub uninterp spec fn gunzip_of(data: Seq<u8>) -> Option<Seq<u8>>;

/// The plain bytes that a brotli stream holds; `None` where it is not valid brotli.
pub uninterp spec fn unbrotli_of(data: Seq<u8>) -> Option<Seq<u8>>;

/// Relies on flate2's `GzDecoder` read to its end: the decoded bytes of the
/// gzip member at the start of `data`, or `None` where decoding fails.
#[verifier::external_body]
pub fn decompress_gzip(data: &[u8]) -> (r: Option<Vec<u8>>)
    ensures
        match r {
            Some(v) => gunzip_of(data@) == Some(v@),
            None => gunzip_of(data@) is None,
        },
{
    let mut decoder = flate2::read::GzDecoder::new(data);
    let mut out = Vec::new();
    match decoder.read_to_end(&mut out) {
        Ok(_) => Some(out),
        Err(_) => None,
    }
}

/// Relies on brotli's `Decompressor` (4096-byte buffer) read to its end: the
/// decoded bytes of `data`, or `None` where decoding fails.
#[verifier::external_body]
pub fn decompress_brotli(data: &[u8]) -> (r: Option<Vec<u8>>)
    ensures
        match r {
            Some(v) => unbrotli_of(data@) == Some(v@),
            None => unbrotli_of(data@) is None,
        },
{
    let mut decoder = brotli::Decompressor::new(data, 4096);
    let mut out = Vec::new();
    match decoder.read_to_end(&mut out) {
        Ok(_) => Some(out),
        Err(_) => None,
    }
}

/// Whether `data` is well-formed UTF-8.
pub(crate) fn is_utf8(data: &[u8]) -> (r: bool)
    ensures
        r == valid_utf8(data@),
{
    decode_text(data).is_some()
}

/// Kind named by a lower-cased Content-Type value, first match wins.
pub open spec fn kind_of_content_type(ct: Seq<u8>) -> Option<DataType> {
    if contains(ct, lit("json"@)) {
        Some(DataType::Json)
    } else if contains(ct, lit("xml"@)) {
        Some(DataType::Xml)
    } else if contains(ct, lit("html"@)) {
        Some(DataType::Html)
    } else if contains(ct, lit("css"@)) {
        Some(DataType::Css)
    } else if contains(ct, lit("javascript"@)) || contains(ct, lit("typescript"@)) {
        Some(DataType::Javascript)
    } else if contains(ct, lit("image/"@)) {
        Some(DataType::Image)
    } else if contains(ct, lit("video/"@)) {
        Some(DataType::Video)
    } else if contains(ct, lit("audio/"@)) {
        Some(DataType::Audio)
    } else if contains(ct, lit("pdf"@)) {
        Some(DataType::Document)
    } else if contains(ct, lit("zip"@)) {
        Some(DataType::Archive)
    } else if contains(ct, lit("text"@)) {
        Some(DataType::Text)
    } else {
        None
    }
}

/// The value of header `name` where `http` would render it as text.
pub open spec fn text_header(hs: Seq<FieldV>, name: Seq<u8>) -> Option<Seq<u8>> {
    match header_get(hs, name) {
        Some(v) => if visible_ascii(v) {
            Some(v)
        } else {
            None
        },
        None => None,
    }
}

/// Decoding that the Content-Encoding header asks for.
pub open spec fn encoding_step(hs: Seq<FieldV>) -> Option<DetectStep> {
    match text_header(hs, lit("content-encoding"@)) {
        Some(v) => if contains(lower(v), lit("br"@)) {
            Some(DetectStep::Unbrotli)
        } else if contains(lower(v), lit("gzip"@)) {
            Some(DetectStep::Gunzip)
        } else {
            None
        },
        None => None,
    }
}

/// Kind that the Content-Type header names.
pub open spec fn header_kind(hs: Seq<FieldV>) -> Option<DataType> {
    match text_header(hs, lit("content-type"@)) {
        Some(v) => kind_of_content_type(lower(v)),
        None => None,
    }
}

pub open spec fn is_png(b: Seq<u8>) -> bool {
    b.len() >= 8 && b[0] == 0x89 && b[1] == 0x50 && b[2] == 0x4e && b[3] == 0x47 && b[4] == 0x0d
        && b[5] == 0x0a && b[6] == 0x1a && b[7] == 0x0a
}

pub open spec fn is_image_magic(b: Seq<u8>) -> bool {
    is_png(b) || (b.len() >= 2 && b[0] == 0xff && b[1] == 0xd8) || has_prefix(b, lit("GIF87a"@))
        || has_prefix(b, lit("GIF89a"@)) || (has_prefix(b, lit("RIFF"@)) && occurs_at(
        b,
        lit("WEBP"@),
        8,
    ))
}

pub open spec fn is_video_magic(b: Seq<u8>) -> bool {
    occurs_at(b, lit("ftyp"@), 4) || occurs_at(b, lit("moov"@), 4) || (b.len() >= 4 && b[0]
        == 0x1a && b[1] == 0x45 && b[2] == 0xdf && b[3] == 0xa3)
}

pub open spec fn is_audio_magic(b: Seq<u8>) -> bool {
    has_prefix(b, lit("ID3"@)) || (b.len() >= 3 && b[0] == 0xff && b[1] == 0xfb) || (has_prefix(
        b,
        lit("RIFF"@),
    ) && occurs_at(b, lit("WAVE"@), 8))
}

/// What the leading bytes of a non-empty body say.
pub open spec fn magic_step(b: Seq<u8>) -> Option<DetectStep> {
    if b.len() == 0 {
        None
    } else if b.len() >= 2 && b[0] == 0x1f && b[1] == 0x8b {
        Some(DetectStep::Gunzip)
    } else if valid_utf8(b) && contains(b, lit("<svg"@)) {
        Some(DetectStep::Found(DataType::Image))
    } else if is_image_magic(b) {
        Some(DetectStep::Found(DataType::Image))
    } else if is_video_magic(b) {
        Some(DetectStep::Found(DataType::Video))
    } else if is_audio_magic(b) {
        Some(DetectStep::Found(DataType::Audio))
    } else if has_prefix(b, lit("%PDF"@)) {
        Some(DetectStep::Found(DataType::Document))
    } else if b.len() >= 4 && b[0] == 0x50 && b[1] == 0x4b && b[2] == 0x03 && b[3] == 0x04 {
        Some(DetectStep::Found(DataType::Archive))
    } else {
        None
    }
}

pub open spec fn fallback_kind(b: Seq<u8>) -> DataType {
    if b.len() == 0 {
        DataType::Empty
    } else if valid_utf8(b) {
        DataType::Text
    } else {
        DataType::Binary
    }
}

/// One round of classification: encoding header, then Content-Type, then
/// magic bytes, then the fallback.
pub open spec fn detect_step(hs: Seq<FieldV>, b: Seq<u8>) -> DetectStep {
    match encoding_step(hs) {
        Some(s) => s,
        None => match header_kind(hs) {
            Some(d) => DetectStep::Found(d),
            None => match magic_step(b) {
                Some(s) => s,
                None => DetectStep::Found(fallback_kind(b)),
            },
        },
    }
}

/// How many nested decodes classification follows; a body still encoded
/// after that many is treated like one that fails to decode.
pub const MAX_NESTED_DECODES: usize = 16;

/// Classification with `fuel` nested decodes left.
pub open spec fn detect_within(hs: Seq<FieldV>, b: Seq<u8>, fuel: nat) -> DataType
    decreases fuel,
{
    match detect_step(hs, b) {
        DetectStep::Found(d) => d,
        DetectStep::Gunzip => match gunzip_of(b) {
            Some(plain) => if fuel == 0 {
                DataType::Archive
            } else {
                detect_within(Seq::empty(), plain, (fuel - 1) as nat)
            },
            None => DataType::Archive,
        },
        DetectStep::Unbrotli => match unbrotli_of(b) {
            Some(plain) => if fuel == 0 {
                DataType::Binary
            } else {
                detect_within(Seq::empty(), plain, (fuel - 1) as nat)
            },
            None => DataType::Binary,
        },
    }
}

/// The kind of a body under its headers.
pub open spec fn detect_spec(hs: Seq<FieldV>, b: Seq<u8>) -> DataType {
    detect_within(hs, b, MAX_NESTED_DECODES as nat)
}

/// Classification reaches a kind within `fuel` nested decodes.
pub open spec fn settles_within(hs: Seq<FieldV>, b: Seq<u8>, fuel: nat) -> bool
    decreases fuel,
{
    match detect_step(hs, b) {
        DetectStep::Found(_) => true,
        DetectStep::Gunzip => match gunzip_of(b) {
            Some(plain) => fuel > 0 && settles_within(Seq::empty(), plain, (fuel - 1) as nat),
            None => true,
        },
        DetectStep::Unbrotli => match unbrotli_of(b) {
            Some(plain) => fuel > 0 && settles_within(Seq::empty(), plain, (fuel - 1) as nat),
            None => true,
        },
    }
}

/// Once classification settles, more fuel does not change its answer.
pub proof fn lemma_detect_settled(hs: Seq<FieldV>, b: Seq<u8>, n: nat, m: nat)
    requires
        settles_within(hs, b, n),
        n <= m,
    ensures
        detect_within(hs, b, n) == detect_within(hs, b, m),
    decreases n,
{
    match detect_step(hs, b) {
        DetectStep::Found(_) => {},
        DetectStep::Gunzip => {
            if let Some(plain) = gunzip_of(b) {
                lemma_detect_settled(Seq::empty(), plain, (n - 1) as nat, (m - 1) as nat);
            }
        },
        DetectStep::Unbrotli => {
            if let Some(plain) = unbrotli_of(b) {
                lemma_detect_settled(Seq::empty(), plain, (n - 1) as nat, (m - 1) as nat);
            }
        },
    }
}

/// A gzip-encoded body is classified as its decoded bytes are under no
/// headers, whenever those bytes settle before the nesting limit.
pub proof fn lemma_gzip_encoding_transparent(hs: Seq<FieldV>, b: Seq<u8>, plain: Seq<u8>)
    requires
        header_get(hs, lit("content-encoding"@)) == Some(lit("gzip"@)),
        gunzip_of(b) == Some(plain),
        settles_within(Seq::empty(), plain, (MAX_NESTED_DECODES - 1) as nat),
    ensures
        detect_spec(hs, b) == detect_spec(Seq::empty(), plain),
{
    reveal_strlit("gzip");
    reveal_strlit("br");
    let g = lit("gzip"@);
    assert(visible_ascii(g));
    assert(lower(g) =~= g);
    assert(lower(g).subrange(0, 4) =~= g);
    assert(occurs_at(lower(g), g, 0));
    if contains(g, lit("br"@)) {
        let i = choose|i: int| occurs_at(g, lit("br"@), i);
        assert(g.subrange(i, i + 2)[0] == g[i]);
    }
    assert(detect_step(hs, b) == DetectStep::Gunzip);
    lemma_detect_settled(
        Seq::empty(),
        plain,
        (MAX_NESTED_DECODES - 1) as nat,
        MAX_NESTED_DECODES as nat,
    );
}

/// Kind named by a lower-cased Content-Type value.
pub fn content_type_kind(ct: &[u8]) -> (r: Option<DataType>)
    ensures
        r == kind_of_content_type(ct@),
{
    proof {
        reveal_strlit("json");
        reveal_strlit("xml");
        reveal_strlit("html");
        reveal_strlit("css");
        reveal_strlit("javascript");
        reveal_strlit("typescript");
        reveal_strlit("image/");
        reveal_strlit("video/");
        reveal_strlit("audio/");
        reveal_strlit("pdf");
        reveal_strlit("zip");
        reveal_strlit("text");
    }
    if contains_bytes(ct, ascii_bytes("json")) {
        Some(DataType::Json)
    } else if contains_bytes(ct, ascii_bytes("xml")) {
        Some(DataType::Xml)
    } else if contains_bytes(ct, ascii_bytes("html")) {
        Some(DataType::Html)
    } else if contains_bytes(ct, ascii_bytes("css")) {
        Some(DataType::Css)
    } else if contains_bytes(ct, ascii_bytes("javascript")) || contains_bytes(
        ct,
        ascii_bytes("typescript"),
    ) {
        Some(DataType::Javascript)
    } else if contains_bytes(ct, ascii_bytes("image/")) {
        Some(DataType::Image)
    } else if contains_bytes(ct, ascii_bytes("video/")) {
        Some(DataType::Video)
    } else if contains_bytes(ct, ascii_bytes("audio/")) {
        Some(DataType::Audio)
    } else if contains_bytes(ct, ascii_bytes("pdf")) {
        Some(DataType::Document)
    } else if contains_bytes(ct, ascii_bytes("zip")) {
        Some(DataType::Archive)
    } else if contains_bytes(ct, ascii_bytes("text")) {
        Some(DataType::Text)
    } else {
        None
    }
}

/// Value of header `name` where it is visible ASCII text.
pub fn get_text_header<'a>(headers: &'a Headers, name: &[u8]) -> (r: Option<&'a Vec<u8>>)
    ensures
        match r {
            Some(v) => text_header(headers@, name@) == Some(v@),
            None => text_header(headers@, name@) is None,
        },
{
    match headers.get(name) {
        Some(v) => if is_visible_ascii(v.as_slice()) {
            Some(v)
        } else {
            None
        },
        None => None,
    }
}

fn magic_kind(b: &[u8]) -> (r: Option<DetectStep>)
    ensures
        r == magic_step(b@),
{
    proof {
        reveal_strlit("<svg");
        reveal_strlit("GIF87a");
        reveal_strlit("GIF89a");
        reveal_strlit("RIFF");
        reveal_strlit("WEBP");
        reveal_strlit("ftyp");
        reveal_strlit("moov");
        reveal_strlit("ID3");
        reveal_strlit("WAVE");
        reveal_strlit("%PDF");
    }
    let n = b.len();
    if n == 0 {
        return None;
    }
    if n >= 2 && b[0] == 0x1f && b[1] == 0x8b {
        return Some(DetectStep::Gunzip);
    }
    if is_utf8(b) && contains_bytes(b, ascii_bytes("<svg")) {
        return Some(DetectStep::Found(DataType::Image));
    }
    let png = n >= 8 && b[0] == 0x89 && b[1] == 0x50 && b[2] == 0x4e && b[3] == 0x47 && b[4]
        == 0x0d && b[5] == 0x0a && b[6] == 0x1a && b[7] == 0x0a;
    let riff = starts_with(b, ascii_bytes("RIFF"));
    if png || (n >= 2 && b[0] == 0xff && b[1] == 0xd8) || starts_with(b, ascii_bytes("GIF87a"))
        || starts_with(b, ascii_bytes("GIF89a")) || (riff && matches_at(
        b,
        ascii_bytes("WEBP"),
        8,
    )) {
        return Some(DetectStep::Found(DataType::Image));
    }
    if matches_at(b, ascii_bytes("ftyp"), 4) || matches_at(b, ascii_bytes("moov"), 4) || (n >= 4
        && b[0] == 0x1a && b[1] == 0x45 && b[2] == 0xdf && b[3] == 0xa3) {
        return Some(DetectStep::Found(DataType::Video));
    }
    if starts_with(b, ascii_bytes("ID3")) || (n >= 3 && b[0] == 0xff && b[1] == 0xfb) || (riff
        && matches_at(b, ascii_bytes("WAVE"), 8)) {
        return Some(DetectStep::Found(DataType::Audio));
    }
    if starts_with(b, ascii_bytes("%PDF")) {
        return Some(DetectStep::Found(DataType::Document));
    }
    if n >= 4 && b[0] == 0x50 && b[1] == 0x4b && b[2] == 0x03 && b[3] == 0x04 {
        return Some(DetectStep::Found(DataType::Archive));
    }
    None
}

/// One round of classification of `b` under `headers`.
pub fn detect_round(headers: &Headers, b: &[u8]) -> (r: DetectStep)
    ensures
        r == detect_step(headers@, b@),
{
    proof {
        reveal_strlit("content-encoding");
        reveal_strlit("content-type");
        reveal_strlit("br");
        reveal_strlit("gzip");
    }
    if let Some(enc) = get_text_header(headers, ascii_bytes("content-encoding")) {
        let l = to_lower(enc.as_slice());
        if contains_bytes(l.as_slice(), ascii_bytes("br")) {
            return DetectStep::Unbrotli;
        }
        if contains_bytes(l.as_slice(), ascii_bytes("gzip")) {
            return DetectStep::Gunzip;
        }
    }
    if let Some(ct) = get_text_header(headers, ascii_bytes("content-type")) {
        let l = to_lower(ct.as_slice());
        if let Some(d) = content_type_kind(l.as_slice()) {
            return DetectStep::Found(d);
        }
    }
    if let Some(s) = magic_kind(b) {
        return s;
    }
    if b.len() == 0 {
        DetectStep::Found(DataType::Empty)
    } else if is_utf8(b) {
        DetectStep::Found(DataType::Text)
    } else {
        DetectStep::Found(DataType::Binary)
    }
}

/// Classifies `body` under `headers`: an encoding header or a gzip magic
/// number has the body decoded and classified again with no headers; a
/// body that fails to decode is `Archive` (gzip) or `Binary` (brotli).
pub fn detect_data_type(headers: &Headers, body: &[u8]) -> (r: DataType)
    ensures
        r == detect_spec(headers@, body@),
{
    let first = detect_round(headers, body);
    let mut current: Vec<u8> = match first {
        DetectStep::Found(d) => {
            return d;
        },
        DetectStep::Gunzip => match decompress_gzip(body) {
            Some(v) => v,
            None => {
                return DataType::Archive;
            },
        },
        DetectStep::Unbrotli => match decompress_brotli(body) {
            Some(v) => v,
            None => {
                return DataType::Binary;
            },
        },
    };
    let empty = Headers::new();
    let mut fuel: usize = MAX_NESTED_DECODES - 1;
    loop
        invariant
            empty@ == Seq::<FieldV>::empty(),
            fuel < MAX_NESTED_DECODES,
            detect_within(Seq::empty(), current@, fuel as nat) == detect_spec(headers@, body@),
        decreases fuel,
    {
        let step = detect_round(&empty, current.as_slice());
        match step {
            DetectStep::Found(d) => {
                return d;
            },
            DetectStep::Gunzip => {
                match decompress_gzip(current.as_slice()) {
                    Some(v) => {
                        if fuel == 0 {
                            return DataType::Archive;
                        }
                        current = v;
                    },
                    None => {
                        return DataType::Archive;
                    },
                }
            },
            DetectStep::Unbrotli => {
                match decompress_brotli(current.as_slice()) {
                    Some(v) => {
                        if fuel == 0 {
                            return DataType::Binary;
                        }
                        current = v;
                    },
                    None => {
                        return DataType::Binary;
                    },
                }
            },
        }
        fuel = fuel - 1;
    }
}

} // verus!
