//! Reading an upstream error message for the host log: the TLS version
//! and backend it mentions, and the server it was about.
use crate::text::{chars_of, is_white, white};
use vstd::prelude::*;

verus! {

/// `char::is_alphanumeric`.
pub uninterp spec fn alnum(c: char) -> bool;


/// Relies on `char::is_alphanumeric`: a property of the character alone.
#[verifier::external_body]
fn is_alnum(c: char) -> (r: bool)
    ensures
        r == alnum(c),
{
    c.is_alphanumeric()
}



/// Relies on `String: FromIterator<char>`: the string of these characters.
#[verifier::external_body]
fn string_of(v: &[char]) -> (r: String)
    ensures
        r@ == v@,
{
    v.iter().collect()
}

pub open spec fn is_digit(c: char) -> bool {
    '0' <= c && c <= '9'
}

/// Bytes that a character takes in UTF-8.
pub open spec fn utf8_width(c: char) -> nat {
    if (c as u32) < 0x80 {
        1
    } else if (c as u32) < 0x800 {
        2
    } else if (c as u32) < 0x10000 {
        3
    } else {
        4
    }
}

pub fn utf8_width_of(c: char) -> (r: usize)
    ensures
        r == utf8_width(c),
{
    let v = c as u32;
    if v < 0x80 {
        1
    } else if v < 0x800 {
        2
    } else if v < 0x10000 {
        3
    } else {
        4
    }
}

pub open spec fn occurs_at_c(s: Seq<char>, p: Seq<char>, i: int) -> bool {
    0 <= i && i + p.len() <= s.len() && s.subrange(i, i + p.len()) == p
}

/// First index at or after `i` where `p` occurs in `s`.
pub open spec fn first_from(s: Seq<char>, p: Seq<char>, i: int) -> Option<int>
    decreases s.len() + 1 - i,
{
    if i < 0 || i + p.len() > s.len() {
        None
    } else if occurs_at_c(s, p, i) {
        Some(i)
    } else {
        first_from(s, p, i + 1)
    }
}

pub fn matches_at_c(s: &[char], p: &[char], i: usize) -> (r: bool)
    ensures
        r == occurs_at_c(s@, p@, i as int),
{
    if i > s.len() || p.len() > s.len() - i {
        return false;
    }
    let mut k: usize = 0;
    while k < p.len()
        invariant
            i + p@.len() <= s@.len(),
            s@.len() <= usize::MAX,
            k <= p@.len(),
            forall|j: int| 0 <= j < k ==> s@[i + j] == p@[j],
        decreases p@.len() - k,
    {
        if s[i + k] != p[k] {
            assert(s@.subrange(i as int, i + p@.len())[k as int] != p@[k as int]);
            return false;
        }
        k += 1;
    }
    assert(s@.subrange(i as int, i + p@.len()) =~= p@);
    true
}

/// `first_from` computed.
pub fn find_from(s: &[char], p: &[char], from: usize) -> (r: Option<usize>)
    ensures
        match r {
            Some(i) => first_from(s@, p@, from as int) == Some(i as int),
            None => first_from(s@, p@, from as int) is None,
        },
{
    let n = s.len();
    if p.len() == 0 {
        if from <= n {
            assert(s@.subrange(from as int, from as int) =~= p@);
            return Some(from);
        }
        return None;
    }
    let mut i: usize = from;
    while i <= n && p.len() <= n - i
        invariant
            from <= i,
            p@.len() >= 1,
            n == s@.len(),
            first_from(s@, p@, i as int) == first_from(s@, p@, from as int),
        decreases s@.len() + 1 - i,
    {
        if matches_at_c(s, p, i) {
            return Some(i);
        }
        i += 1;
    }
    None
}

pub open spec fn contains_c(s: Seq<char>, p: Seq<char>) -> bool {
    first_from(s, p, 0) is Some
}

pub fn contains_chars(s: &[char], p: &[char]) -> (r: bool)
    ensures
        r == contains_c(s@, p@),
{
    find_from(s, p, 0).is_some()
}

/// A TLS version and a TLS backend named in an error message.
pub open spec fn tls_version_label(t: Seq<char>) -> Seq<char> {
    if contains_c(t, "TLS 1.0"@) || contains_c(t, "TLS/1.0"@) {
        "TLS 1.0"@
    } else if contains_c(t, "TLS 1.1"@) || contains_c(t, "TLS/1.1"@) {
        "TLS 1.1"@
    } else if contains_c(t, "TLS 1.2"@) || contains_c(t, "TLS/1.2"@) {
        "TLS 1.2"@
    } else if contains_c(t, "TLS 1.3"@) || contains_c(t, "TLS/1.3"@) {
        "TLS 1.3"@
    } else if contains_c(t, "SSL 3.0"@) || contains_c(t, "SSL/3.0"@) {
        "SSL 3.0"@
    } else if contains_c(t, "handshake"@) || contains_c(t, "TLS"@) {
        "TLS (버전 미확인)"@
    } else {
        "알 수 없음"@
    }
}

pub open spec fn tls_backend_label(t: Seq<char>) -> Seq<char> {
    if contains_c(t, "[RUSTLS]"@) || contains_c(t, "rustls handshake"@) {
        "RUSTLS"@
    } else if contains_c(t, "[NATIVE-TLS]"@) || contains_c(t, "native-tls handshake"@)
        || contains_c(t, "PKCS12"@) {
        "NATIVE-TLS"@
    } else if contains_c(t, "rustls"@) || contains_c(t, "RUSTLS"@) {
        "RUSTLS"@
    } else if contains_c(t, "native-tls"@) || contains_c(t, "NATIVE-TLS"@) || contains_c(
        t,
        "OpenSSL"@,
    ) {
        "NATIVE-TLS"@
    } else if contains_c(t, "handshake"@) || contains_c(t, "TLS"@) {
        "TLS (백엔드 미확인)"@
    } else {
        "알 수 없음"@
    }
}

fn has(t: &[char], p: &str) -> (r: bool)
    ensures
        r == contains_c(t@, p@),
{
    let pc = chars_of(p);
    contains_chars(t, pc.as_slice())
}

/// The TLS version and backend that an error message mentions.
pub fn extract_tls_info_from_error(err: &str) -> (r: (String, String))
    ensures
        r.0@ == tls_version_label(err@),
        r.1@ == tls_backend_label(err@),
{
    let t = chars_of(err);
    let t = t.as_slice();
    let version: &str = if has(t, "TLS 1.0") || has(t, "TLS/1.0") {
        "TLS 1.0"
    } else if has(t, "TLS 1.1") || has(t, "TLS/1.1") {
        "TLS 1.1"
    } else if has(t, "TLS 1.2") || has(t, "TLS/1.2") {
        "TLS 1.2"
    } else if has(t, "TLS 1.3") || has(t, "TLS/1.3") {
        "TLS 1.3"
    } else if has(t, "SSL 3.0") || has(t, "SSL/3.0") {
        "SSL 3.0"
    } else if has(t, "handshake") || has(t, "TLS") {
        "TLS (버전 미확인)"
    } else {
        "알 수 없음"
    };
    let backend: &str = if has(t, "[RUSTLS]") || has(t, "rustls handshake") {
        "RUSTLS"
    } else if has(t, "[NATIVE-TLS]") || has(t, "native-tls handshake") || has(t, "PKCS12") {
        "NATIVE-TLS"
    } else if has(t, "rustls") || has(t, "RUSTLS") {
        "RUSTLS"
    } else if has(t, "native-tls") || has(t, "NATIVE-TLS") || has(t, "OpenSSL") {
        "NATIVE-TLS"
    } else if has(t, "handshake") || has(t, "TLS") {
        "TLS (백엔드 미확인)"
    } else {
        "알 수 없음"
    };
    (version.to_owned(), backend.to_owned())
}

/// Which of the three server patterns a scan looks for.
#[derive(Debug, Clone, Copy, PartialEq, Eq, Structural)]
pub enum PatternKind {
    /// `name.tld:port`
    DomainPort,
    /// `a.b.c.d:port`
    IpPort,
    /// `name.tld`
    Domain,
}

/// State of a left-to-right scan.
pub struct ScanV {
    pub result: Seq<char>,
    pub active: bool,
    /// Dots taken, counted up to 3.
    pub dots: nat,
    pub colon: bool,
    /// UTF-8 length of `result`, counted up to 4.
    pub bytes: nat,
}

pub open spec fn bump(d: nat) -> nat {
    if d >= 3 {
        3
    } else {
        d + 1
    }
}

pub enum StepV {
    Next(ScanV),
    Found(Seq<char>),
}

pub open spec fn fresh() -> ScanV {
    ScanV { result: Seq::empty(), active: false, dots: 0, colon: false, bytes: 0 }
}

pub open spec fn pushed(s: ScanV, c: char) -> ScanV {
    ScanV {
        result: s.result.push(c),
        bytes: if s.bytes + utf8_width(c) > 4 {
            4
        } else {
            s.bytes + utf8_width(c)
        },
        ..s
    }
}

pub open spec fn ends_token(c: char) -> bool {
    white(c) || c == ' ' || c == '\n' || c == '\r'
}

/// One character of the scan for `kind`.
pub open spec fn scan_step(kind: PatternKind, s: ScanV, c: char) -> StepV {
    match kind {
        PatternKind::DomainPort => if alnum(c) || c == '.' || c == '-' {
            let s1 = if !s.active && alnum(c) {
                ScanV { result: Seq::empty(), active: true, bytes: 0, ..s }
            } else {
                s
            };
            if s1.active {
                let s2 = pushed(s1, c);
                StepV::Next(
                    if c == '.' {
                        ScanV { dots: bump(s2.dots), ..s2 }
                    } else {
                        s2
                    },
                )
            } else {
                StepV::Next(s1)
            }
        } else if c == ':' && s.active && s.dots > 0 {
            StepV::Next(ScanV { colon: true, ..pushed(s, c) })
        } else if is_digit(c) && s.colon {
            StepV::Next(pushed(s, c))
        } else if s.active && ends_token(c) {
            if s.colon && s.result.contains(':') {
                StepV::Found(s.result)
            } else {
                StepV::Next(fresh())
            }
        } else {
            StepV::Next(fresh())
        },
        PatternKind::IpPort => if is_digit(c) {
            let s1 = if !s.active {
                ScanV { result: Seq::empty(), active: true, dots: 0, colon: false, bytes: 0 }
            } else {
                s
            };
            StepV::Next(pushed(s1, c))
        } else if c == '.' && s.active && s.dots < 3 {
            StepV::Next(ScanV { dots: bump(s.dots), ..pushed(s, c) })
        } else if c == ':' && s.active && s.dots == 3 {
            StepV::Next(ScanV { colon: true, ..pushed(s, c) })
        } else if s.active && ends_token(c) {
            if s.colon && s.result.contains(':') {
                StepV::Found(s.result)
            } else {
                StepV::Next(fresh())
            }
        } else {
            StepV::Next(fresh())
        },
        PatternKind::Domain => if alnum(c) || c == '.' || c == '-' {
            let s1 = if !s.active && alnum(c) {
                ScanV { result: Seq::empty(), active: true, dots: 0, bytes: 0, ..s }
            } else {
                s
            };
            if s1.active {
                let s2 = pushed(s1, c);
                StepV::Next(
                    if c == '.' {
                        ScanV { dots: bump(s2.dots), ..s2 }
                    } else {
                        s2
                    },
                )
            } else {
                StepV::Next(s1)
            }
        } else if s.active && ends_token(c) {
            if s.dots > 0 && s.bytes > 3 {
                StepV::Found(s.result)
            } else {
                StepV::Next(fresh())
            }
        } else {
            StepV::Next(fresh())
        },
    }
}

/// What the scan holds once the text is exhausted.
pub open spec fn scan_finish(kind: PatternKind, s: ScanV) -> Option<Seq<char>> {
    let ok = match kind {
        PatternKind::DomainPort => s.result.len() > 0 && s.result.contains(':')
            && s.result.contains('.'),
        PatternKind::IpPort => s.result.len() > 0 && s.result.contains(':') && s.dots == 3,
        PatternKind::Domain => s.result.len() > 0 && s.dots > 0 && s.bytes > 3,
    };
    if ok {
        Some(s.result)
    } else {
        None
    }
}

pub open spec fn scan_run(kind: PatternKind, s: ScanV, t: Seq<char>) -> Option<Seq<char>>
    decreases t.len(),
{
    if t.len() == 0 {
        scan_finish(kind, s)
    } else {
        match scan_step(kind, s, t[0]) {
            StepV::Found(r) => Some(r),
            StepV::Next(s2) => scan_run(kind, s2, t.drop_first()),
        }
    }
}

/// Executable state of a scan.
pub struct Scan {
    pub result: Vec<char>,
    pub active: bool,
    pub dots: usize,
    pub colon: bool,
    pub bytes: usize,
}

impl View for Scan {
    type V = ScanV;

    open spec fn view(&self) -> ScanV {
        ScanV {
            result: self.result@,
            active: self.active,
            dots: self.dots as nat,
            colon: self.colon,
            bytes: self.bytes as nat,
        }
    }
}

fn has_char(v: &Vec<char>, c: char) -> (r: bool)
    ensures
        r == v@.contains(c),
{
    let mut i: usize = 0;
    while i < v.len()
        invariant
            i <= v@.len(),
            forall|j: int| 0 <= j < i ==> v@[j] != c,
        decreases v@.len() - i,
    {
        if v[i] == c {
            assert(v@[i as int] == c);
            return true;
        }
        i += 1;
    }
    false
}

fn new_scan() -> (r: Scan)
    ensures
        r@ == fresh(),
{
    let r = Scan { result: Vec::new(), active: false, dots: 0, colon: false, bytes: 0 };
    assert(r@.result =~= Seq::<char>::empty());
    r
}

fn push_char(s: &mut Scan, c: char)
    requires
        old(s).bytes <= 4,
    ensures
        final(s)@ == pushed(old(s)@, c),
        final(s).bytes <= 4,
{
    s.result.push(c);
    let b = s.bytes + utf8_width_of(c);
    s.bytes = if b > 4 {
        4
    } else {
        b
    };
}

fn bump_dots(s: &mut Scan)
    requires
        old(s).dots <= 3,
    ensures
        final(s)@ == (ScanV { dots: bump(old(s)@.dots), ..old(s)@ }),
        final(s).dots <= 3,
{
    s.dots = if s.dots >= 3 {
        3
    } else {
        s.dots + 1
    };
}

fn take_result(s: &mut Scan) -> (r: Vec<char>)
    ensures
        r@ == old(s)@.result,
        final(s).dots == old(s).dots,
        final(s).bytes == old(s).bytes,
{
    let mut out: Vec<char> = Vec::new();
    core::mem::swap(&mut out, &mut s.result);
    out
}

/// One step of the scan; `Some` where a match ends here.
fn scan_step_exec(kind: PatternKind, s: &mut Scan, c: char) -> (r: Option<Vec<char>>)
    requires
        old(s).bytes <= 4,
        old(s).dots <= 3,
    ensures
        final(s).bytes <= 4,
        final(s).dots <= 3,
        match scan_step(kind, old(s)@, c) {
            StepV::Found(x) => r matches Some(v) && v@ == x,
            StepV::Next(n) => r is None && final(s)@ == n,
        },
{
    let word = is_alnum(c) || c == '.' || c == '-';
    let ends = is_white(c) || c == ' ' || c == '\n' || c == '\r';
    match kind {
        PatternKind::DomainPort => {
            if word {
                if !s.active && is_alnum(c) {
                    s.result = Vec::new();
                    s.active = true;
                    s.bytes = 0;
                    assert(s@.result =~= Seq::<char>::empty());
                }
                if s.active {
                    push_char(s, c);
                    if c == '.' {
                        bump_dots(s);
                    }
                }
                None
            } else if c == ':' && s.active && s.dots > 0 {
                push_char(s, c);
                s.colon = true;
                None
            } else if ('0' <= c && c <= '9') && s.colon {
                push_char(s, c);
                None
            } else if s.active && ends {
                if s.colon && has_char(&s.result, ':') {
                    Some(take_result(s))
                } else {
                    *s = new_scan();
                    None
                }
            } else {
                *s = new_scan();
                None
            }
        },
        PatternKind::IpPort => {
            if '0' <= c && c <= '9' {
                if !s.active {
                    *s = new_scan();
                    s.active = true;
                }
                push_char(s, c);
                None
            } else if c == '.' && s.active && s.dots < 3 {
                push_char(s, c);
                bump_dots(s);
                None
            } else if c == ':' && s.active && s.dots == 3 {
                push_char(s, c);
                s.colon = true;
                None
            } else if s.active && ends {
                if s.colon && has_char(&s.result, ':') {
                    Some(take_result(s))
                } else {
                    *s = new_scan();
                    None
                }
            } else {
                *s = new_scan();
                None
            }
        },
        PatternKind::Domain => {
            if word {
                if !s.active && is_alnum(c) {
                    s.result = Vec::new();
                    s.active = true;
                    s.dots = 0;
                    s.bytes = 0;
                    assert(s@.result =~= Seq::<char>::empty());
                }
                if s.active {
                    push_char(s, c);
                    if c == '.' {
                        bump_dots(s);
                    }
                }
                None
            } else if s.active && ends {
                if s.dots > 0 && s.bytes > 3 {
                    Some(take_result(s))
                } else {
                    *s = new_scan();
                    None
                }
            } else {
                *s = new_scan();
                None
            }
        },
    }
}

/// Scans `t` for the first token of the given kind.
pub fn scan_text(kind: PatternKind, t: &[char]) -> (r: Option<Vec<char>>)
    ensures
        match scan_run(kind, fresh(), t@) {
            Some(x) => r matches Some(v) && v@ == x,
            None => r is None,
        },
{
    let mut s = new_scan();
    let n = t.len();
    let mut i: usize = 0;
    assert(t@.subrange(0, n as int) =~= t@);
    while i < n
        invariant
            n == t@.len(),
            i <= n,
            s.bytes <= 4,
            s.dots <= 3,
            scan_run(kind, s@, t@.subrange(i as int, n as int)) == scan_run(kind, fresh(), t@),
        decreases n - i,
    {
        let ghost rest = t@.subrange(i as int, n as int);
        assert(rest[0] == t@[i as int]);
        assert(rest.drop_first() =~= t@.subrange(i + 1, n as int));
        match scan_step_exec(kind, &mut s, t[i]) {
            Some(v) => {
                return Some(v);
            },
            None => {},
        }
        i += 1;
    }
    assert(t@.subrange(n as int, n as int) =~= Seq::<char>::empty());
    let ok = match kind {
        PatternKind::DomainPort => s.result.len() > 0 && has_char(&s.result, ':') && has_char(
            &s.result,
            '.',
        ),
        PatternKind::IpPort => s.result.len() > 0 && has_char(&s.result, ':') && s.dots == 3,
        PatternKind::Domain => s.result.len() > 0 && s.dots > 0 && s.bytes > 3,
    };
    if ok {
        Some(s.result)
    } else {
        None
    }
}

pub open spec fn domain_port_regex() -> Seq<char> {
    "([a-zA-Z0-9.-]+\\.[a-zA-Z]{2,}:\\d+)"@
}

pub open spec fn ip_port_regex() -> Seq<char> {
    "(\\d{1,3}\\.\\d{1,3}\\.\\d{1,3}\\.\\d{1,3}:\\d+)"@
}

pub open spec fn domain_regex() -> Seq<char> {
    "([a-zA-Z0-9.-]+\\.[a-zA-Z]{2,})"@
}

/// The scan that a pattern text names.
pub open spec fn pattern_kind(p: Seq<char>) -> Option<PatternKind> {
    if contains_c(p, domain_port_regex()) {
        Some(PatternKind::DomainPort)
    } else if contains_c(p, ip_port_regex()) {
        Some(PatternKind::IpPort)
    } else if contains_c(p, domain_regex()) {
        Some(PatternKind::Domain)
    } else {
        None
    }
}

pub open spec fn extract_pattern_spec(text: Seq<char>, pattern: Seq<char>) -> Option<Seq<char>> {
    match pattern_kind(pattern) {
        Some(k) => scan_run(k, fresh(), text),
        None => None,
    }
}

fn pattern_kind_of(p: &[char]) -> (r: Option<PatternKind>)
    ensures
        r == pattern_kind(p@),
{
    if has(p, "([a-zA-Z0-9.-]+\\.[a-zA-Z]{2,}:\\d+)") {
        Some(PatternKind::DomainPort)
    } else if has(p, "(\\d{1,3}\\.\\d{1,3}\\.\\d{1,3}\\.\\d{1,3}:\\d+)") {
        Some(PatternKind::IpPort)
    } else if has(p, "([a-zA-Z0-9.-]+\\.[a-zA-Z]{2,})") {
        Some(PatternKind::Domain)
    } else {
        None
    }
}

/// The first token of `text` that the named pattern describes, found by a
/// left-to-right scan (no regular-expression engine is involved).
pub fn extract_pattern(text: &str, pattern: &str) -> (r: Option<String>)
    ensures
        match extract_pattern_spec(text@, pattern@) {
            Some(x) => r matches Some(v) && v@ == x,
            None => r is None,
        },
{
    let p = chars_of(pattern);
    match pattern_kind_of(p.as_slice()) {
        Some(k) => {
            let t = chars_of(text);
            match scan_text(k, t.as_slice()) {
                Some(v) => Some(string_of(v.as_slice())),
                None => None,
            }
        },
        None => None,
    }
}

pub open spec fn dot_or_colon(h: Seq<char>) -> bool {
    contains_c(h, "."@) || contains_c(h, ":"@)
}

/// The host after the first `proto` in `t`.
pub open spec fn host_after(t: Seq<char>, proto: Seq<char>) -> Option<Seq<char>> {
    match first_from(t, proto, 0) {
        None => None,
        Some(st) => {
            let after = t.subrange(st + proto.len(), t.len() as int);
            match first_from(after, "/"@, 0) {
                Some(e) => if e > 0 && dot_or_colon(after.subrange(0, e)) {
                    Some(after.subrange(0, e))
                } else {
                    None
                },
                None => if after.len() > 0 && dot_or_colon(after) {
                    Some(after)
                } else {
                    None
                },
            }
        },
    }
}

pub open spec fn host_from_url_spec(t: Seq<char>) -> Option<Seq<char>> {
    match host_after(t, "https://"@) {
        Some(h) => Some(h),
        None => host_after(t, "http://"@),
    }
}

proof fn lemma_first_from_bounds(s: Seq<char>, p: Seq<char>, i: int)
    ensures
        match first_from(s, p, i) {
            Some(k) => i <= k && occurs_at_c(s, p, k),
            None => true,
        },
    decreases s.len() + 1 - i,
{
    if !(i < 0 || i + p.len() > s.len()) && !occurs_at_c(s, p, i) {
        lemma_first_from_bounds(s, p, i + 1);
    }
}

fn slice_chars(t: &[char], from: usize, to: usize) -> (r: Vec<char>)
    requires
        from <= to <= t@.len(),
    ensures
        r@ == t@.subrange(from as int, to as int),
{
    let mut r: Vec<char> = Vec::new();
    let mut i: usize = from;
    while i < to
        invariant
            from <= i <= to,
            to <= t@.len(),
            r@ == t@.subrange(from as int, i as int),
        decreases to - i,
    {
        r.push(t[i]);
        i += 1;
        assert(r@ =~= t@.subrange(from as int, i as int));
    }
    r
}

fn host_after_exec(t: &[char], proto: &str) -> (r: Option<Vec<char>>)
    ensures
        match host_after(t@, proto@) {
            Some(x) => r matches Some(v) && v@ == x,
            None => r is None,
        },
{
    let pc = chars_of(proto);
    match find_from(t, pc.as_slice(), 0) {
        None => None,
        Some(st) => {
            proof {
                lemma_first_from_bounds(t@, pc@, 0);
            }
            let n = t.len();
            assert(st + pc@.len() <= n);
            let after = slice_chars(t, st + pc.len(), n);
            let slash = chars_of("/");
            let dot = chars_of(".");
            let colon = chars_of(":");
            match find_from(after.as_slice(), slash.as_slice(), 0) {
                Some(e) => {
                    proof {
                        lemma_first_from_bounds(after@, slash@, 0);
                    }
                    let h = slice_chars(after.as_slice(), 0, e);
                    if e > 0 && (contains_chars(h.as_slice(), dot.as_slice()) || contains_chars(
                        h.as_slice(),
                        colon.as_slice(),
                    )) {
                        Some(h)
                    } else {
                        None
                    }
                },
                None => {
                    if after.len() > 0 && (contains_chars(after.as_slice(), dot.as_slice())
                        || contains_chars(after.as_slice(), colon.as_slice())) {
                        Some(after)
                    } else {
                        None
                    }
                },
            }
        },
    }
}

/// The host of the first `https://` or `http://` URL in `text` that has a
/// dot or a colon in its host part.
pub fn extract_host_from_url(text: &str) -> (r: Option<String>)
    ensures
        match host_from_url_spec(text@) {
            Some(x) => r matches Some(v) && v@ == x,
            None => r is None,
        },
{
    let t = chars_of(text);
    match host_after_exec(t.as_slice(), "https://") {
        Some(h) => Some(string_of(h.as_slice())),
        None => match host_after_exec(t.as_slice(), "http://") {
            Some(h) => Some(string_of(h.as_slice())),
            None => None,
        },
    }
}

/// Leading characters that are whitespace.
pub open spec fn lead_white(s: Seq<char>) -> int
    decreases s.len(),
{
    if s.len() == 0 || !white(s[0]) {
        0
    } else {
        1 + lead_white(s.drop_first())
    }
}

/// Trailing characters that are whitespace.
pub open spec fn trail_white(s: Seq<char>) -> int
    decreases s.len(),
{
    if s.len() == 0 || !white(s.last()) {
        0
    } else {
        1 + trail_white(s.drop_last())
    }
}

/// `str::trim`.
pub open spec fn trim_c(s: Seq<char>) -> Seq<char> {
    let r = s.subrange(lead_white(s), s.len() as int);
    r.subrange(0, r.len() - trail_white(r))
}

proof fn lemma_lead_white(s: Seq<char>, j: int)
    requires
        0 <= j <= s.len(),
        forall|k: int| 0 <= k < j ==> white(#[trigger] s[k]),
        j == s.len() || !white(s[j]),
    ensures
        lead_white(s) == j,
    decreases j,
{
    if j > 0 {
        assert forall|k: int| 0 <= k < j - 1 implies white(#[trigger] s.drop_first()[k]) by {
            assert(s.drop_first()[k] == s[k + 1]);
        }
        if j < s.len() {
            assert(s.drop_first()[j - 1] == s[j]);
        }
        lemma_lead_white(s.drop_first(), j - 1);
    }
}

proof fn lemma_trail_white(s: Seq<char>, j: int)
    requires
        0 <= j <= s.len(),
        forall|k: int| s.len() - j <= k < s.len() ==> white(#[trigger] s[k]),
        j == s.len() || !white(s[s.len() - j - 1]),
    ensures
        trail_white(s) == j,
    decreases j,
{
    if j > 0 {
        let t = s.drop_last();
        assert forall|k: int| t.len() - (j - 1) <= k < t.len() implies white(#[trigger] t[k]) by {
            assert(t[k] == s[k]);
        }
        if j < s.len() {
            assert(t[t.len() - (j - 1) - 1] == s[s.len() - j - 1]);
        }
        lemma_trail_white(t, j - 1);
    }
}

fn trim_chars(s: &[char]) -> (r: Vec<char>)
    ensures
        r@ == trim_c(s@),
{
    let n = s.len();
    let mut a: usize = 0;
    while a < n && is_white(s[a])
        invariant
            a <= n,
            n == s@.len(),
            forall|k: int| 0 <= k < a ==> white(#[trigger] s@[k]),
        decreases n - a,
    {
        a += 1;
    }
    proof {
        lemma_lead_white(s@, a as int);
    }
    let mut b: usize = n;
    while b > a && is_white(s[b - 1])
        invariant
            a <= b <= n,
            n == s@.len(),
            forall|k: int| b <= k < n ==> white(#[trigger] s@[k]),
        decreases b - a,
    {
        b -= 1;
    }
    proof {
        let r = s@.subrange(a as int, n as int);
        assert forall|k: int| r.len() - (n - b) <= k < r.len() implies white(#[trigger] r[k]) by {
            assert(r[k] == s@[a + k]);
        }
        if b > a {
            assert(r[r.len() - (n - b) - 1] == s@[b - 1]);
        }
        lemma_trail_white(r, (n - b) as int);
        assert(r.subrange(0, r.len() - (n - b)) =~= s@.subrange(a as int, b as int));
    }
    slice_chars(s, a, b)
}

/// The server between " - " and " - 오류:" in a handshake log line.
pub open spec fn logged_server(t: Seq<char>) -> Option<Seq<char>> {
    match first_from(t, " - "@, 0) {
        None => None,
        Some(st) => {
            let rest = t.subrange(st + 3, t.len() as int);
            match first_from(rest, " - 오류:"@, 0) {
                Some(e) => {
                    let info = rest.subrange(0, e);
                    if info.len() > 0 && contains_c(info, ":"@) {
                        Some(trim_c(info))
                    } else {
                        None
                    }
                },
                None => None,
            }
        },
    }
}

pub open spec fn nonempty_scan(k: PatternKind, t: Seq<char>) -> Option<Seq<char>> {
    match scan_run(k, fresh(), t) {
        Some(r) => if r.len() > 0 {
            Some(r)
        } else {
            None
        },
        None => None,
    }
}

/// The server an error message is about: the one a handshake log line
/// names, else the first `name.tld:port`, `a.b.c.d:port` or `name.tld`
/// token, else the host of a URL.
pub open spec fn target_server_spec(t: Seq<char>) -> Option<Seq<char>> {
    if logged_server(t) is Some {
        logged_server(t)
    } else if nonempty_scan(PatternKind::DomainPort, t) is Some {
        nonempty_scan(PatternKind::DomainPort, t)
    } else if nonempty_scan(PatternKind::IpPort, t) is Some {
        nonempty_scan(PatternKind::IpPort, t)
    } else if nonempty_scan(PatternKind::Domain, t) is Some {
        nonempty_scan(PatternKind::Domain, t)
    } else {
        host_from_url_spec(t)
    }
}

fn logged_server_exec(t: &[char]) -> (r: Option<Vec<char>>)
    ensures
        match logged_server(t@) {
            Some(x) => r matches Some(v) && v@ == x,
            None => r is None,
        },
{
    let sep = chars_of(" - ");
    let tail = chars_of(" - 오류:");
    let colon = chars_of(":");
    proof {
        reveal_strlit(" - ");
    }
    match find_from(t, sep.as_slice(), 0) {
        None => None,
        Some(st) => {
            proof {
                lemma_first_from_bounds(t@, sep@, 0);
            }
            let n = t.len();
            assert(sep@.len() == 3);
            assert(st + 3 <= n);
            let rest = slice_chars(t, st + 3, n);
            match find_from(rest.as_slice(), tail.as_slice(), 0) {
                Some(e) => {
                    proof {
                        lemma_first_from_bounds(rest@, tail@, 0);
                    }
                    let info = slice_chars(rest.as_slice(), 0, e);
                    if info.len() > 0 && contains_chars(info.as_slice(), colon.as_slice()) {
                        Some(trim_chars(info.as_slice()))
                    } else {
                        None
                    }
                },
                None => None,
            }
        },
    }
}

fn nonempty_scan_exec(k: PatternKind, t: &[char]) -> (r: Option<Vec<char>>)
    ensures
        match nonempty_scan(k, t@) {
            Some(x) => r matches Some(v) && v@ == x,
            None => r is None,
        },
{
    match scan_text(k, t) {
        Some(v) => if v.len() > 0 {
            Some(v)
        } else {
            None
        },
        None => None,
    }
}

/// The server that an error message is about, where it names one.
pub fn extract_target_server_from_error(err: &str) -> (r: Option<String>)
    ensures
        match target_server_spec(err@) {
            Some(x) => r matches Some(v) && v@ == x,
            None => r is None,
        },
{
    let t = chars_of(err);
    let t = t.as_slice();
    if let Some(v) = logged_server_exec(t) {
        return Some(string_of(v.as_slice()));
    }
    if let Some(v) = nonempty_scan_exec(PatternKind::DomainPort, t) {
        return Some(string_of(v.as_slice()));
    }
    if let Some(v) = nonempty_scan_exec(PatternKind::IpPort, t) {
        return Some(string_of(v.as_slice()));
    }
    if let Some(v) = nonempty_scan_exec(PatternKind::Domain, t) {
        return Some(string_of(v.as_slice()));
    }
    extract_host_from_url(err)
}

} // verus!
