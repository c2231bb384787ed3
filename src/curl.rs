//! The out-of-process retry of a request whose TLS handshake failed: the
//! command line, and the parsing of the response it prints.
use crate::engine::{join, ResponseParts, ResponseV};
use crate::headers::{
    header_name_of, header_value_ok, is_valid_header_value, named, parse_header_name, set_header,
    FieldV, Headers,
};
use crate::records::{HttpVersion, ProxiedRequest};
use crate::text::{
    append_bytes, ascii_bytes, copy_bytes, eq_ignore_case, is_visible_ascii,
    lemma_lower_id, lit, lower, slice_bytes, visible_ascii,
};
use vstd::prelude::*;
use vstd::string::StringSliceAdditionalSpecFns;

verus! {

/// The arguments before the headers: silent, include headers, method, and
/// time limits, with certificate checks off.
pub open spec fn curl_head_args(method: Seq<u8>) -> Seq<Seq<u8>> {
    seq![
        lit("-s"@),
        lit("-i"@),
        lit("-X"@),
        method,
        lit("--max-time"@),
        lit("10"@),
        lit("--connect-timeout"@),
        lit("5"@),
        lit("--insecure"@),
    ]
}

/// One `-H name: value` pair per header field that renders as text, Host
/// excepted.
pub open spec fn curl_header_args(hs: Seq<FieldV>) -> Seq<Seq<u8>>
    decreases hs.len(),
{
    if hs.len() == 0 {
        Seq::empty()
    } else {
        let rest = curl_header_args(hs.drop_last());
        let f = hs.last();
        if visible_ascii(f.1) && !named(f.0, lit("host"@)) {
            rest + seq![lit("-H"@), f.0 + lit(": "@) + f.1]
        } else {
            rest
        }
    }
}

pub open spec fn curl_args_spec(method: Seq<u8>, url: Seq<u8>, hs: Seq<FieldV>) -> Seq<Seq<u8>> {
    curl_head_args(method) + curl_header_args(hs) + seq![url]
}

fn lit_vec(s: &str) -> (r: Vec<u8>)
    requires
        vstd::string::is_ascii(s),
    ensures
        r@ == lit(s@),
{
    copy_bytes(ascii_bytes(s))
}

/// The arguments of `curl` that repeat a recorded request.
pub fn curl_arguments(req: &ProxiedRequest) -> (r: Vec<Vec<u8>>)
    ensures
        r@.map_values(|a: Vec<u8>| a@) == curl_args_spec(req.method@, req.uri@, req.headers@),
{
    proof {
        reveal_strlit("-s");
        reveal_strlit("-i");
        reveal_strlit("-X");
        reveal_strlit("--max-time");
        reveal_strlit("10");
        reveal_strlit("--connect-timeout");
        reveal_strlit("5");
        reveal_strlit("--insecure");
        reveal_strlit("host");
        reveal_strlit("-H");
        reveal_strlit(": ");
    }
    let mut args: Vec<Vec<u8>> = Vec::new();
    args.push(lit_vec("-s"));
    args.push(lit_vec("-i"));
    args.push(lit_vec("-X"));
    args.push(copy_bytes(req.method.as_slice()));
    args.push(lit_vec("--max-time"));
    args.push(lit_vec("10"));
    args.push(lit_vec("--connect-timeout"));
    args.push(lit_vec("5"));
    args.push(lit_vec("--insecure"));
    let ghost head = curl_head_args(req.method@);
    assert(args@.map_values(|a: Vec<u8>| a@) =~= head);
    let ghost hs = req.headers@;
    let host = ascii_bytes("host");
    let sep = ascii_bytes(": ");
    let hflag = ascii_bytes("-H");
    let n = req.headers.fields.len();
    let mut i: usize = 0;
    while i < n
        invariant
            n == hs.len(),
            hs == req.headers@,
            host@ == lit("host"@),
            sep@ == lit(": "@),
            hflag@ == lit("-H"@),
            i <= n,
            args@.map_values(|a: Vec<u8>| a@) == head + curl_header_args(hs.subrange(0, i as int)),
        decreases n - i,
    {
        let f = &req.headers.fields[i];
        assert(f@ == hs[i as int]);
        assert(hs.subrange(0, i + 1).drop_last() =~= hs.subrange(0, i as int));
        assert(hs.subrange(0, i + 1).last() == hs[i as int]);
        if is_visible_ascii(f.value.as_slice()) && !eq_ignore_case(f.name.as_slice(), host) {
            let mut line = copy_bytes(f.name.as_slice());
            append_bytes(&mut line, sep);
            append_bytes(&mut line, f.value.as_slice());
            let ghost before = args@.map_values(|a: Vec<u8>| a@);
            args.push(copy_bytes(hflag));
            args.push(line);
            assert(args@.map_values(|a: Vec<u8>| a@) =~= before + seq![lit("-H"@), f.name@ + lit(": "@) + f.value@]);
        }
        i += 1;
    }
    assert(hs.subrange(0, n as int) =~= hs);
    let ghost before = args@.map_values(|a: Vec<u8>| a@);
    args.push(copy_bytes(req.uri.as_slice()));
    assert(args@.map_values(|a: Vec<u8>| a@) =~= before + seq![req.uri@]);
    args
}

/// Index of the first byte `b` in `t`, or its length.
pub open spec fn first_of(t: Seq<u8>, b: u8) -> int
    decreases t.len(),
{
    if t.len() == 0 {
        0
    } else if t[0] == b {
        0
    } else {
        1 + first_of(t.drop_first(), b)
    }
}

pub proof fn lemma_first_of(t: Seq<u8>, b: u8, j: int)
    requires
        0 <= j <= t.len(),
        forall|k: int| 0 <= k < j ==> #[trigger] t[k] != b,
        j == t.len() || t[j] == b,
    ensures
        first_of(t, b) == j,
    decreases j,
{
    if j > 0 {
        assert forall|k: int| 0 <= k < j - 1 implies #[trigger] t.drop_first()[k] != b by {
            assert(t.drop_first()[k] == t[k + 1]);
        }
        if j < t.len() {
            assert(t.drop_first()[j - 1] == t[j]);
        }
        lemma_first_of(t.drop_first(), b, j - 1);
    }
}

/// Index of the first byte `b` in `t[from..]`, counted from `from`, or the
/// remaining length.
pub fn find_byte(t: &[u8], b: u8, from: usize) -> (r: usize)
    requires
        from <= t@.len(),
    ensures
        from <= r <= t@.len(),
        r - from == first_of(t@.subrange(from as int, t@.len() as int), b),
        r < t@.len() ==> t@[r as int] == b,
        forall|k: int| from <= k < r ==> #[trigger] t@[k] != b,
{
    let n = t.len();
    let mut j: usize = from;
    while j < n && t[j] != b
        invariant
            from <= j <= n,
            n == t@.len(),
            forall|k: int| from <= k < j ==> #[trigger] t@[k] != b,
        decreases n - j,
    {
        j += 1;
    }
    proof {
        let rest = t@.subrange(from as int, n as int);
        assert forall|k: int| 0 <= k < j - from implies #[trigger] rest[k] != b by {
            assert(rest[k] == t@[from + k]);
        }
        if j < n {
            assert(rest[j - from] == t@[j as int]);
        }
        lemma_first_of(rest, b, j - from);
    }
    j
}

/// A line without the carriage return that ended it.
pub open spec fn strip_cr(l: Seq<u8>) -> Seq<u8> {
    if l.len() > 0 && l.last() == 13 {
        l.drop_last()
    } else {
        l
    }
}

/// The lines of `t` as `str::lines` yields them: split at `\n`, each
/// line's `\r` before the `\n` dropped, no empty line after a final `\n`.
pub open spec fn split_lines(t: Seq<u8>) -> Seq<Seq<u8>>
    decreases t.len(),
{
    if t.len() == 0 {
        Seq::empty()
    } else {
        let j = first_of(t, 10);
        if j >= t.len() || j < 0 {
            seq![t]
        } else {
            seq![strip_cr(t.subrange(0, j))] + split_lines(t.subrange(j + 1, t.len() as int))
        }
    }
}

pub fn lines_of(t: &[u8]) -> (r: Vec<Vec<u8>>)
    ensures
        r@.map_values(|l: Vec<u8>| l@) == split_lines(t@),
{
    let mut out: Vec<Vec<u8>> = Vec::new();
    let n = t.len();
    let mut pos: usize = 0;
    assert(t@.subrange(0, n as int) =~= t@);
    assert(out@.map_values(|l: Vec<u8>| l@) + split_lines(t@) =~= split_lines(t@));
    while pos < n
        invariant
            n == t@.len(),
            pos <= n,
            out@.map_values(|l: Vec<u8>| l@) + split_lines(t@.subrange(pos as int, n as int))
                == split_lines(t@),
        decreases n - pos,
    {
        let ghost rest = t@.subrange(pos as int, n as int);
        let j = find_byte(t, 10, pos);
        let ghost before = out@.map_values(|l: Vec<u8>| l@);
        if j == n {
            out.push(slice_bytes(t, pos, n));
            assert(out@.map_values(|l: Vec<u8>| l@) =~= before + seq![rest]);
            assert(t@.subrange(n as int, n as int) =~= Seq::<u8>::empty());
            assert(before + split_lines(rest) =~= before + seq![rest]);
            pos = n;
        } else {
            let end: usize = if j > pos && t[j - 1] == 13 {
                j - 1
            } else {
                j
            };
            let line = slice_bytes(t, pos, end);
            proof {
                let raw = rest.subrange(0, j - pos);
                assert(raw =~= t@.subrange(pos as int, j as int));
                if j > pos && t@[j - 1] == 13 {
                    assert(raw.last() == t@[j - 1]);
                    assert(line@ =~= strip_cr(raw));
                } else {
                    if raw.len() > 0 {
                        assert(raw.last() == t@[j - 1]);
                    }
                    assert(line@ =~= strip_cr(raw));
                }
                assert(rest.subrange(j - pos + 1, rest.len() as int) =~= t@.subrange(j + 1, n as int));
            }
            out.push(line);
            assert(out@.map_values(|l: Vec<u8>| l@) =~= before + seq![line@]);
            assert(before + split_lines(rest) =~= before + seq![line@] + split_lines(
                t@.subrange(j + 1, n as int),
            ));
            pos = j + 1;
        }
    }
    assert(t@.subrange(n as int, n as int) =~= Seq::<u8>::empty());
    assert(out@.map_values(|l: Vec<u8>| l@) + Seq::<Seq<u8>>::empty() =~= out@.map_values(
        |l: Vec<u8>| l@,
    ));
    out
}

/// An ASCII whitespace byte.
pub open spec fn is_ascii_space(b: u8) -> bool {
    b == 0x20 || b == 0x09 || b == 0x0a || b == 0x0b || b == 0x0c || b == 0x0d
}

/// Index of the first byte that is not ASCII whitespace.
pub open spec fn leading_space(s: Seq<u8>) -> int
    decreases s.len(),
{
    if s.len() == 0 {
        0
    } else if is_ascii_space(s[0]) {
        1 + leading_space(s.drop_first())
    } else {
        0
    }
}

/// Number of leading bytes that are not ASCII whitespace.
pub open spec fn word_len(s: Seq<u8>) -> int
    decreases s.len(),
{
    if s.len() == 0 || is_ascii_space(s[0]) {
        0
    } else {
        1 + word_len(s.drop_first())
    }
}

pub proof fn lemma_word_len(s: Seq<u8>, j: int)
    requires
        0 <= j <= s.len(),
        forall|k: int| 0 <= k < j ==> !is_ascii_space(#[trigger] s[k]),
        j == s.len() || is_ascii_space(s[j]),
    ensures
        word_len(s) == j,
    decreases j,
{
    if j > 0 {
        assert forall|k: int| 0 <= k < j - 1 implies !is_ascii_space(#[trigger] s.drop_first()[k]) by {
            assert(s.drop_first()[k] == s[k + 1]);
        }
        if j < s.len() {
            assert(s.drop_first()[j - 1] == s[j]);
        }
        lemma_word_len(s.drop_first(), j - 1);
    }
}

pub proof fn lemma_leading_space(s: Seq<u8>, j: int)
    requires
        0 <= j <= s.len(),
        forall|k: int| 0 <= k < j ==> is_ascii_space(#[trigger] s[k]),
        j == s.len() || !is_ascii_space(s[j]),
    ensures
        leading_space(s) == j,
    decreases j,
{
    if j > 0 {
        assert forall|k: int| 0 <= k < j - 1 implies is_ascii_space(#[trigger] s.drop_first()[k]) by {
            assert(s.drop_first()[k] == s[k + 1]);
        }
        if j < s.len() {
            assert(s.drop_first()[j - 1] == s[j]);
        }
        lemma_leading_space(s.drop_first(), j - 1);
    }
}

pub open spec fn after(s: Seq<u8>, k: int) -> Seq<u8> {
    s.subrange(k, s.len() as int)
}

/// Index just past the run of whitespace (`space`) or of other bytes
/// starting at `from`.
fn run_end(t: &[u8], from: usize, space: bool) -> (r: usize)
    requires
        from <= t@.len(),
    ensures
        from <= r <= t@.len(),
        space ==> r - from == leading_space(after(t@, from as int)),
        !space ==> r - from == word_len(after(t@, from as int)),
{
    let n = t.len();
    let mut j: usize = from;
    while j < n && ((t[j] == 0x20 || t[j] == 0x09 || t[j] == 0x0a || t[j] == 0x0b || t[j] == 0x0c
        || t[j] == 0x0d) == space)
        invariant
            from <= j <= n,
            n == t@.len(),
            forall|k: int| from <= k < j ==> is_ascii_space(#[trigger] t@[k]) == space,
        decreases n - j,
    {
        j += 1;
    }
    proof {
        let rest = after(t@, from as int);
        assert forall|k: int| 0 <= k < j - from implies is_ascii_space(#[trigger] rest[k]) == space by {
            assert(rest[k] == t@[from + k]);
        }
        if j < n {
            assert(rest[j - from] == t@[j as int]);
        }
        if space {
            lemma_leading_space(rest, j - from);
        } else {
            lemma_word_len(rest, j - from);
        }
    }
    j
}

/// The second whitespace-separated word of a line.
pub open spec fn second_word(l: Seq<u8>) -> Option<Seq<u8>> {
    let r1 = after(l, leading_space(l));
    let w1 = word_len(r1);
    let r2 = after(r1, w1);
    let r3 = after(r2, leading_space(r2));
    let w2 = word_len(r3);
    if w1 == 0 || w2 == 0 {
        None
    } else {
        Some(r3.subrange(0, w2))
    }
}

pub proof fn lemma_word_len_bounds(s: Seq<u8>)
    ensures
        0 <= word_len(s) <= s.len(),
    decreases s.len(),
{
    if s.len() > 0 && !is_ascii_space(s[0]) {
        lemma_word_len_bounds(s.drop_first());
    }
}

fn second_word_of(l: &[u8]) -> (r: Option<Vec<u8>>)
    ensures
        match r {
            Some(w) => second_word(l@) == Some(w@),
            None => second_word(l@) is None,
        },
{
    let a = run_end(l, 0, true);
    let b = run_end(l, a, false);
    let c = run_end(l, b, true);
    let d = run_end(l, c, false);
    proof {
        let r1 = after(l@, leading_space(l@));
        assert(after(l@, 0) =~= l@);
        assert(r1 =~= after(l@, a as int));
        let r2 = after(r1, word_len(r1));
        assert(r2 =~= after(l@, b as int));
        let r3 = after(r2, leading_space(r2));
        assert(r3 =~= after(l@, c as int));
    }
    if a == b || c == d {
        None
    } else {
        let w = slice_bytes(l, c, d);
        proof {
            let r3 = after(l@, c as int);
            assert(w@ =~= r3.subrange(0, (d - c) as int));
        }
        Some(w)
    }
}

/// Value of a string of decimal digits.
pub open spec fn digits_value(s: Seq<u8>) -> nat
    decreases s.len(),
{
    if s.len() == 0 {
        0
    } else {
        digits_value(s.drop_last()) * 10 + (s.last() - 48) as nat
    }
}

pub open spec fn all_digits(s: Seq<u8>) -> bool {
    forall|i: int| 0 <= i < s.len() ==> 48 <= #[trigger] s[i] && s[i] <= 57
}

/// `u16::from_str`: an optional `+`, then one or more digits, at most 65535.
pub open spec fn u16_of(w: Seq<u8>) -> Option<u16> {
    let d = if w.len() > 0 && w[0] == 43 {
        w.drop_first()
    } else {
        w
    };
    if d.len() > 0 && all_digits(d) && digits_value(d) <= 65535 {
        Some(digits_value(d) as u16)
    } else {
        None
    }
}

pub fn parse_u16(w: &[u8]) -> (r: Option<u16>)
    ensures
        r == u16_of(w@),
{
    let start: usize = if w.len() > 0 && w[0] == 43 {
        1
    } else {
        0
    };
    let ghost d = if w@.len() > 0 && w@[0] == 43 {
        w@.drop_first()
    } else {
        w@
    };
    assert(d =~= w@.subrange(start as int, w@.len() as int));
    if start == w.len() {
        return None;
    }
    let mut acc: u32 = 0;
    let mut i: usize = start;
    assert(u16_of(w@) == (if d.len() > 0 && all_digits(d) && digits_value(d) <= 65535 {
        Some(digits_value(d) as u16)
    } else {
        None
    }));
    while i < w.len()
        invariant
            start <= i <= w@.len(),
            u16_of(w@) == (if d.len() > 0 && all_digits(d) && digits_value(d) <= 65535 {
                Some(digits_value(d) as u16)
            } else {
                None
            }),
            d == w@.subrange(start as int, w@.len() as int),
            forall|k: int| start <= k < i ==> 48 <= #[trigger] w@[k] && w@[k] <= 57,
            acc as nat == if digits_value(w@.subrange(start as int, i as int)) <= 65536 {
                digits_value(w@.subrange(start as int, i as int))
            } else {
                65536
            },
        decreases w@.len() - i,
    {
        let c = w[i];
        if c < 48 || c > 57 {
            assert(d[i - start] == c);
            assert(!all_digits(d));
            return None;
        }
        let ghost pre = w@.subrange(start as int, i as int);
        assert(w@.subrange(start as int, i + 1).drop_last() =~= pre);
        assert(w@.subrange(start as int, i + 1).last() == c);
        let next: u32 = acc * 10 + (c - 48) as u32;
        acc = if next > 65536 {
            65536
        } else {
            next
        };
        i += 1;
    }
    assert(w@.subrange(start as int, w@.len() as int) =~= d);
    assert(all_digits(d)) by {
        assert forall|k: int| 0 <= k < d.len() implies 48 <= #[trigger] d[k] && d[k] <= 57 by {
            assert(d[k] == w@[start + k]);
        }
    }
    if acc > 65535 {
        None
    } else {
        Some(acc as u16)
    }
}

/// Number of trailing ASCII whitespace bytes.
pub open spec fn trailing_space(s: Seq<u8>) -> int
    decreases s.len(),
{
    if s.len() == 0 || !is_ascii_space(s.last()) {
        0
    } else {
        1 + trailing_space(s.drop_last())
    }
}

/// `s` without ASCII whitespace at either end.
pub open spec fn trim_spec(s: Seq<u8>) -> Seq<u8> {
    let r = after(s, leading_space(s));
    r.subrange(0, r.len() - trailing_space(r))
}

pub proof fn lemma_trailing_space(s: Seq<u8>, j: int)
    requires
        0 <= j <= s.len(),
        forall|k: int| s.len() - j <= k < s.len() ==> is_ascii_space(#[trigger] s[k]),
        j == s.len() || !is_ascii_space(s[s.len() - j - 1]),
    ensures
        trailing_space(s) == j,
    decreases j,
{
    if j > 0 {
        let t = s.drop_last();
        assert forall|k: int| t.len() - (j - 1) <= k < t.len() implies is_ascii_space(#[trigger] t[k]) by {
            assert(t[k] == s[k]);
        }
        if j < s.len() {
            assert(t[t.len() - (j - 1) - 1] == s[s.len() - j - 1]);
        }
        lemma_trailing_space(t, j - 1);
    }
}

/// Copies `t[from..to]` without ASCII whitespace at either end.
fn trimmed(t: &[u8], from: usize, to: usize) -> (r: Vec<u8>)
    requires
        from <= to <= t@.len(),
    ensures
        r@ == trim_spec(t@.subrange(from as int, to as int)),
{
    let ghost s = t@.subrange(from as int, to as int);
    let mut a: usize = from;
    while a < to && (t[a] == 0x20 || t[a] == 0x09 || t[a] == 0x0a || t[a] == 0x0b || t[a] == 0x0c
        || t[a] == 0x0d)
        invariant
            from <= a <= to,
            to <= t@.len(),
            forall|k: int| from <= k < a ==> is_ascii_space(#[trigger] t@[k]),
        decreases to - a,
    {
        a += 1;
    }
    proof {
        assert forall|k: int| 0 <= k < a - from implies is_ascii_space(#[trigger] s[k]) by {
            assert(s[k] == t@[from + k]);
        }
        if a < to {
            assert(s[a - from] == t@[a as int]);
        }
        lemma_leading_space(s, a - from);
    }
    let mut b: usize = to;
    while b > a && (t[b - 1] == 0x20 || t[b - 1] == 0x09 || t[b - 1] == 0x0a || t[b - 1] == 0x0b
        || t[b - 1] == 0x0c || t[b - 1] == 0x0d)
        invariant
            a <= b <= to,
            to <= t@.len(),
            forall|k: int| b <= k < to ==> is_ascii_space(#[trigger] t@[k]),
        decreases b - a,
    {
        b -= 1;
    }
    proof {
        let r = after(s, a - from);
        assert(r =~= t@.subrange(a as int, to as int));
        assert forall|k: int| r.len() - (to - b) <= k < r.len() implies is_ascii_space(#[trigger] r[k]) by {
            assert(r[k] == t@[a + k]);
        }
        if b > a {
            assert(r[r.len() - (to - b) - 1] == t@[b - 1]);
        }
        lemma_trailing_space(r, (to - b) as int);
        assert(r.subrange(0, r.len() - (to - b)) =~= t@.subrange(a as int, b as int));
    }
    slice_bytes(t, a, b)
}

/// Header fields from the header lines of a response: `name: value`
/// lines, trimmed; Content-Length and what `http` refuses are dropped; a
/// repeated name keeps its last value, as `HeaderMap::insert` does.
pub open spec fn curl_headers(ls: Seq<Seq<u8>>) -> Seq<FieldV>
    decreases ls.len(),
{
    if ls.len() == 0 {
        Seq::empty()
    } else {
        let acc = curl_headers(ls.drop_last());
        let l = ls.last();
        let c = first_of(l, 58);
        if c >= l.len() || c < 0 {
            acc
        } else {
            let name = trim_spec(l.subrange(0, c));
            let value = trim_spec(l.subrange(c + 1, l.len() as int));
            if lower(name) == lit("content-length"@) {
                acc
            } else {
                match header_name_of(name) {
                    Some(n) => if header_value_ok(value) {
                        set_header(acc, n, value)
                    } else {
                        acc
                    },
                    None => acc,
                }
            }
        }
    }
}

/// Index of the first empty line.
pub open spec fn blank_line(ls: Seq<Seq<u8>>) -> Option<int>
    decreases ls.len(),
{
    if ls.len() == 0 {
        None
    } else {
        match blank_line(ls.drop_last()) {
            Some(i) => Some(i),
            None => if ls.last().len() == 0 {
                Some(ls.len() - 1)
            } else {
                None
            },
        }
    }
}

/// Why curl's output is not a usable response.
#[derive(Debug, Clone, Copy, PartialEq, Eq, Structural)]
pub enum CurlError {
    /// Nothing was printed.
    Empty,
    /// The first line has no second word.
    BadStatusLine,
    /// The status is not a number from 100 to 999.
    BadStatus,
    /// No empty line ends the headers.
    NoBlankLine,
}

/// The response that curl printed with `-i`.
pub open spec fn curl_parse_spec(t: Seq<u8>) -> Result<ResponseV, CurlError> {
    let ls = split_lines(t);
    if ls.len() == 0 {
        Err(CurlError::Empty)
    } else {
        match second_word(ls[0]) {
            None => Err(CurlError::BadStatusLine),
            Some(w) => match u16_of(w) {
                None => Err(CurlError::BadStatus),
                Some(code) => if code < 100 || code > 999 {
                    Err(CurlError::BadStatus)
                } else {
                    match blank_line(ls) {
                        None => Err(CurlError::NoBlankLine),
                        Some(e) => Ok(
                            ResponseV {
                                status: code,
                                version: HttpVersion::Http11,
                                headers: curl_headers(ls.subrange(1, e)),
                                body: join(lit("\n"@), ls.subrange(e + 1, ls.len() as int)),
                            },
                        ),
                    }
                },
            },
        }
    }
}

proof fn lemma_blank_line_bounds(ls: Seq<Seq<u8>>)
    ensures
        match blank_line(ls) {
            Some(i) => 0 <= i < ls.len() && ls[i].len() == 0 && forall|j: int|
                0 <= j < i ==> #[trigger] ls[j].len() != 0,
            None => forall|j: int| 0 <= j < ls.len() ==> #[trigger] ls[j].len() != 0,
        },
    decreases ls.len(),
{
    if ls.len() > 0 {
        lemma_blank_line_bounds(ls.drop_last());
        assert forall|j: int| 0 <= j < ls.len() - 1 implies ls[j] == ls.drop_last()[j] by {}
    }
}

/// Parses the output of `curl -s -i`.
pub fn parse_curl_response(response_text: &str) -> (r: Result<ResponseParts, CurlError>)
    ensures
        match r {
            Ok(res) => curl_parse_spec(response_text.spec_bytes()) == Ok::<ResponseV, CurlError>(res@),
            Err(e) => curl_parse_spec(response_text.spec_bytes()) == Err::<ResponseV, CurlError>(e),
        },
{
    proof {
        reveal_strlit("content-length");
        reveal_strlit("\n");
    }
    let t = response_text.as_bytes();
    let lines = lines_of(t);
    let ghost ls = lines@.map_values(|l: Vec<u8>| l@);
    if lines.len() == 0 {
        return Err(CurlError::Empty);
    }
    assert(lines@[0]@ == ls[0]);
    let word = match second_word_of(lines[0].as_slice()) {
        Some(w) => w,
        None => {
            return Err(CurlError::BadStatusLine);
        },
    };
    let code = match parse_u16(word.as_slice()) {
        Some(c) => c,
        None => {
            return Err(CurlError::BadStatus);
        },
    };
    if code < 100 || code > 999 {
        return Err(CurlError::BadStatus);
    }
    let n = lines.len();
    let mut e: usize = 0;
    while e < n && lines[e].len() != 0
        invariant
            e <= n,
            n == ls.len(),
            ls == lines@.map_values(|l: Vec<u8>| l@),
            forall|j: int| 0 <= j < e ==> #[trigger] ls[j].len() != 0,
        decreases n - e,
    {
        e += 1;
    }
    proof {
        lemma_blank_line_bounds(ls);
    }
    if e == n {
        proof {
            if let Some(i) = blank_line(ls) {
                assert(ls[i].len() != 0);
            }
        }
        return Err(CurlError::NoBlankLine);
    }
    proof {
        match blank_line(ls) {
            Some(i) => {
                if i < e {
                    assert(ls[i].len() != 0);
                } else if i > e {
                    assert(ls[e as int].len() != 0);
                }
            },
            None => {
                assert(ls[e as int].len() != 0);
            },
        }
        assert(second_word(ls[0]) is Some);
        assert(e >= 1) by {
            if e == 0 {
                assert(ls[0].len() == 0);
                assert(after(ls[0], 0).len() == 0);
            }
        }
    }
    let cl = ascii_bytes("content-length");
    proof {
        lemma_lower_id(cl@);
    }
    let mut headers = Headers::new();
    let mut i: usize = 1;
    while i < e
        invariant
            1 <= i <= e,
            e < n,
            n == ls.len(),
            ls == lines@.map_values(|l: Vec<u8>| l@),
            cl@ == lit("content-length"@),
            lower(cl@) == cl@,
            headers@ == curl_headers(ls.subrange(1, i as int)),
        decreases e - i,
    {
        let line = lines[i].as_slice();
        assert(line@ == ls[i as int]);
        assert(ls.subrange(1, i + 1).drop_last() =~= ls.subrange(1, i as int));
        assert(ls.subrange(1, i + 1).last() == ls[i as int]);
        let c = find_byte(line, 58, 0);
        assert(line@.subrange(0, line@.len() as int) =~= line@);
        if c < line.len() {
            let name = trimmed(line, 0, c);
            let value = trimmed(line, c + 1, line.len());
            if !eq_ignore_case(name.as_slice(), cl) {
                if let Some(hn) = parse_header_name(name.as_slice()) {
                    if is_valid_header_value(value.as_slice()) {
                        headers.insert(hn, value);
                    }
                }
            }
        }
        i += 1;
    }
    let mut body: Vec<u8> = Vec::new();
    let mut k: usize = e + 1;
    assert(lit("\n"@) =~= seq![10u8]);
    let ghost tail_start = e + 1;
    assert(ls.subrange(tail_start as int, tail_start as int) =~= Seq::<Seq<u8>>::empty());
    while k < n
        invariant
            e + 1 <= k <= n,
            tail_start == e + 1,
            lit("\n"@) == seq![10u8],
            n == ls.len(),
            ls == lines@.map_values(|l: Vec<u8>| l@),
            body@ == join(lit("\n"@), ls.subrange(tail_start as int, k as int)),
        decreases n - k,
    {
        let ghost vals = ls.subrange(tail_start as int, k + 1);
        assert(vals.drop_last() =~= ls.subrange(tail_start as int, k as int));
        assert(vals.last() == ls[k as int]);
        if k > e + 1 {
            body.push(10u8);
        }
        append_bytes(&mut body, lines[k].as_slice());
        proof {
            if vals.len() == 1 {
                assert(body@ =~= vals[0]);
            } else {
                assert(body@ =~= join(lit("\n"@), vals.drop_last()) + lit("\n"@) + vals.last());
            }
        }
        k += 1;
    }
    Ok(ResponseParts { status: code, version: HttpVersion::Http11, headers, body })
}

} // verus!
