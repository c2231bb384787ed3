//! An ordered list of header fields with the lookup, insert and remove
//! semantics of an HTTP header map (names compared without ASCII case).
use crate::text::{copy_bytes, eq_ignore_case, lower, to_lower};
use vstd::prelude::*;

verus! {

/// One header field as raw bytes.
pub struct HeaderField {
    pub name: Vec<u8>,
    pub value: Vec<u8>,
}

/// The header fields of a request or response, in wire order.
pub struct Headers {
    pub fields: Vec<HeaderField>,
}

/// A header field as a pair of byte strings.
pub type FieldV = (Seq<u8>, Seq<u8>);

impl View for HeaderField {
    type V = FieldV;

    open spec fn view(&self) -> FieldV {
        (self.name@, self.value@)
    }
}

impl View for Headers {
    type V = Seq<FieldV>;

    open spec fn view(&self) -> Seq<FieldV> {
        field_views(self.fields@)
    }
}

pub open spec fn field_views(fs: Seq<HeaderField>) -> Seq<FieldV> {
    Seq::new(fs.len(), |i: int| fs[i]@)
}

/// A field name designates `name` when both agree up to ASCII case.
pub open spec fn named(field_name: Seq<u8>, name: Seq<u8>) -> bool {
    lower(field_name) == lower(name)
}

/// Index of the first field that `name` designates.
pub open spec fn first_index(hs: Seq<FieldV>, name: Seq<u8>) -> Option<int>
    decreases hs.len(),
{
    if hs.len() == 0 {
        None
    } else {
        match first_index(hs.drop_last(), name) {
            Some(i) => Some(i),
            None => if named(hs.last().0, name) {
                Some(hs.len() - 1)
            } else {
                None
            },
        }
    }
}

/// Value of the first field that `name` designates.
pub open spec fn header_get(hs: Seq<FieldV>, name: Seq<u8>) -> Option<Seq<u8>> {
    match first_index(hs, name) {
        Some(i) => Some(hs[i].1),
        None => None,
    }
}

/// All values that `name` designates, in order.
pub open spec fn values_of(hs: Seq<FieldV>, name: Seq<u8>) -> Seq<Seq<u8>>
    decreases hs.len(),
{
    if hs.len() == 0 {
        Seq::empty()
    } else if named(hs.last().0, name) {
        values_of(hs.drop_last(), name).push(hs.last().1)
    } else {
        values_of(hs.drop_last(), name)
    }
}

/// The fields that `name` does not designate.
pub open spec fn without(hs: Seq<FieldV>, name: Seq<u8>) -> Seq<FieldV>
    decreases hs.len(),
{
    if hs.len() == 0 {
        hs
    } else if named(hs.last().0, name) {
        without(hs.drop_last(), name)
    } else {
        without(hs.drop_last(), name).push(hs.last())
    }
}

/// Header-map insert: the first field that `name` designates takes `value` and
/// keeps its place, the later ones are dropped; with none, a field is appended.
pub open spec fn set_header(hs: Seq<FieldV>, name: Seq<u8>, value: Seq<u8>) -> Seq<FieldV> {
    match first_index(hs, name) {
        Some(i) => hs.subrange(0, i).push((hs[i].0, value)) + without(
            hs.subrange(i + 1, hs.len() as int),
            name,
        ),
        None => hs.push((name, value)),
    }
}

pub proof fn lemma_first_index_bounds(hs: Seq<FieldV>, name: Seq<u8>)
    ensures
        match first_index(hs, name) {
            Some(i) => 0 <= i < hs.len() && named(hs[i].0, name) && forall|j: int|
                0 <= j < i ==> !named(#[trigger] hs[j].0, name),
            None => forall|j: int| 0 <= j < hs.len() ==> !named(#[trigger] hs[j].0, name),
        },
    decreases hs.len(),
{
    if hs.len() > 0 {
        lemma_first_index_bounds(hs.drop_last(), name);
        assert forall|j: int| 0 <= j < hs.len() - 1 implies hs[j] == hs.drop_last()[j] by {}
    }
}

pub proof fn lemma_first_index_of(hs: Seq<FieldV>, name: Seq<u8>, i: int)
    requires
        0 <= i < hs.len(),
        named(hs[i].0, name),
        forall|j: int| 0 <= j < i ==> !named(#[trigger] hs[j].0, name),
    ensures
        first_index(hs, name) == Some(i),
{
    lemma_first_index_bounds(hs, name);
    match first_index(hs, name) {
        Some(k) => {
            if k < i {
                assert(!named(hs[k].0, name));
            } else if k > i {
                assert(!named(hs[i].0, name));
            }
        },
        None => {
            assert(!named(hs[i].0, name));
        },
    }
}

pub proof fn lemma_no_first_index(hs: Seq<FieldV>, name: Seq<u8>)
    requires
        forall|j: int| 0 <= j < hs.len() ==> !named(#[trigger] hs[j].0, name),
    ensures
        first_index(hs, name) is None,
{
    lemma_first_index_bounds(hs, name);
    if let Some(k) = first_index(hs, name) {
        assert(!named(hs[k].0, name));
    }
}

pub proof fn lemma_values_of_add(a: Seq<FieldV>, b: Seq<FieldV>, name: Seq<u8>)
    ensures
        values_of(a + b, name) == values_of(a, name) + values_of(b, name),
    decreases b.len(),
{
    if b.len() == 0 {
        assert(a + b =~= a);
        assert(values_of(a, name) + values_of(b, name) =~= values_of(a, name));
    } else {
        assert((a + b).drop_last() =~= a + b.drop_last());
        assert((a + b).last() == b.last());
        lemma_values_of_add(a, b.drop_last(), name);
        if named(b.last().0, name) {
            assert(values_of(a, name) + values_of(b, name) =~= (values_of(a, name) + values_of(
                b.drop_last(),
                name,
            )).push(b.last().1));
        }
    }
}

pub proof fn lemma_values_of_without(hs: Seq<FieldV>, a: Seq<u8>, b: Seq<u8>)
    ensures
        values_of(without(hs, a), b) == if lower(a) == lower(b) {
            Seq::<Seq<u8>>::empty()
        } else {
            values_of(hs, b)
        },
    decreases hs.len(),
{
    if hs.len() > 0 {
        lemma_values_of_without(hs.drop_last(), a, b);
        if !named(hs.last().0, a) {
            let w = without(hs.drop_last(), a);
            assert(w.push(hs.last()).drop_last() =~= w);
        }
    }
}

pub proof fn lemma_values_of_none(hs: Seq<FieldV>, name: Seq<u8>)
    requires
        forall|j: int| 0 <= j < hs.len() ==> !named(#[trigger] hs[j].0, name),
    ensures
        values_of(hs, name) == Seq::<Seq<u8>>::empty(),
    decreases hs.len(),
{
    if hs.len() > 0 {
        assert forall|j: int| 0 <= j < hs.drop_last().len() implies !named(
            #[trigger] hs.drop_last()[j].0,
            name,
        ) by {
            assert(hs.drop_last()[j] == hs[j]);
        }
        lemma_values_of_none(hs.drop_last(), name);
        assert(!named(hs[hs.len() - 1].0, name));
    }
}

/// After an insert exactly one field carries `name`, with the new value.
pub proof fn lemma_values_of_set_header(hs: Seq<FieldV>, name: Seq<u8>, value: Seq<u8>)
    ensures
        values_of(set_header(hs, name, value), name) == seq![value],
{
    lemma_first_index_bounds(hs, name);
    match first_index(hs, name) {
        Some(i) => {
            let pre = hs.subrange(0, i);
            let rest = hs.subrange(i + 1, hs.len() as int);
            assert forall|j: int| 0 <= j < pre.len() implies !named(#[trigger] pre[j].0, name) by {
                assert(pre[j] == hs[j]);
            }
            lemma_values_of_none(pre, name);
            lemma_values_of_add(pre.push((hs[i].0, value)), without(rest, name), name);
            lemma_values_of_without(rest, name, name);
            assert(pre.push((hs[i].0, value)).drop_last() =~= pre);
            assert(values_of(pre.push((hs[i].0, value)), name) =~= seq![value]);
            assert(seq![value] + Seq::<Seq<u8>>::empty() =~= seq![value]);
        },
        None => {
            lemma_values_of_none(hs, name);
            assert(hs.push((name, value)).drop_last() =~= hs);
            assert(Seq::<Seq<u8>>::empty().push(value) =~= seq![value]);
        },
    }
}

/// A byte that `http` accepts in a header name: a letter, a digit, or one
/// of ``!#$%&'*+-.^_`|~``.
pub open spec fn token_byte(b: u8) -> bool {
    (48 <= b && b <= 57) || (65 <= b && b <= 90) || (97 <= b && b <= 122) || b == 33 || b == 35
        || b == 36 || b == 37 || b == 38 || b == 39 || b == 42 || b == 43 || b == 45 || b == 46
        || b == 94 || b == 95 || b == 96 || b == 124 || b == 126
}

/// What `http::HeaderName::from_bytes` makes of `s`: the lower-cased name
/// where it has 1 to 65535 bytes, all of them token bytes; `None` otherwise.
pub open spec fn header_name_of(s: Seq<u8>) -> Option<Seq<u8>> {
    if 1 <= s.len() <= 65535 && forall|i: int| 0 <= i < s.len() ==> token_byte(#[trigger] s[i]) {
        Some(lower(s))
    } else {
        None
    }
}

/// Validates and normalises a header name as `http::HeaderName::from_bytes`
/// does.
pub fn parse_header_name(s: &[u8]) -> (r: Option<Vec<u8>>)
    ensures
        match r {
            Some(n) => header_name_of(s@) == Some(n@),
            None => header_name_of(s@) is None,
        },
{
    if s.len() == 0 || s.len() > 65535 {
        return None;
    }
    let mut i: usize = 0;
    while i < s.len()
        invariant
            i <= s@.len(),
            forall|j: int| 0 <= j < i ==> token_byte(#[trigger] s@[j]),
        decreases s@.len() - i,
    {
        let b = s[i];
        if !((48 <= b && b <= 57) || (65 <= b && b <= 90) || (97 <= b && b <= 122) || b == 33 || b
            == 35 || b == 36 || b == 37 || b == 38 || b == 39 || b == 42 || b == 43 || b == 45 || b
            == 46 || b == 94 || b == 95 || b == 96 || b == 124 || b == 126) {
            return None;
        }
        i += 1;
    }
    Some(to_lower(s))
}

/// A byte that `http::HeaderValue::from_bytes` accepts.
pub open spec fn value_byte_ok(b: u8) -> bool {
    (32 <= b && b != 127) || b == 9
}

pub open spec fn header_value_ok(s: Seq<u8>) -> bool {
    forall|i: int| 0 <= i < s.len() ==> value_byte_ok(#[trigger] s[i])
}

pub fn is_valid_header_value(s: &[u8]) -> (r: bool)
    ensures
        r == header_value_ok(s@),
{
    let mut i: usize = 0;
    while i < s.len()
        invariant
            i <= s@.len(),
            forall|j: int| 0 <= j < i ==> value_byte_ok(#[trigger] s@[j]),
        decreases s@.len() - i,
    {
        let b = s[i];
        if !((32 <= b && b != 127) || b == 9) {
            return false;
        }
        i += 1;
    }
    true
}

impl HeaderField {
    pub fn new(name: Vec<u8>, value: Vec<u8>) -> (r: HeaderField)
        ensures
            r@ == (name@, value@),
    {
        HeaderField { name, value }
    }

    pub fn clone_field(&self) -> (r: HeaderField)
        ensures
            r@ == self@,
    {
        HeaderField { name: copy_bytes(self.name.as_slice()), value: copy_bytes(self.value.as_slice()) }
    }
}

impl Headers {
    pub fn new() -> (r: Headers)
        ensures
            r@ == Seq::<FieldV>::empty(),
    {
        let r = Headers { fields: Vec::new() };
        assert(r@ =~= Seq::<FieldV>::empty());
        r
    }

    pub fn len(&self) -> (r: usize)
        ensures
            r == self@.len(),
    {
        self.fields.len()
    }

    /// Appends a field, as `HeaderMap::append` does.
    pub fn append(&mut self, name: Vec<u8>, value: Vec<u8>)
        ensures
            final(self)@ == old(self)@.push((name@, value@)),
    {
        self.fields.push(HeaderField { name, value });
        assert(self@ =~= old(self)@.push((name@, value@)));
    }

    pub fn clone_headers(&self) -> (r: Headers)
        ensures
            r@ == self@,
    {
        let mut out: Vec<HeaderField> = Vec::with_capacity(self.fields.len());
        let mut i: usize = 0;
        while i < self.fields.len()
            invariant
                i <= self.fields@.len(),
                field_views(out@) == self@.subrange(0, i as int),
            decreases self.fields@.len() - i,
        {
            let f = self.fields[i].clone_field();
            assert(f@ == self@[i as int]);
            let ghost prev = field_views(out@);
            out.push(f);
            assert(field_views(out@) =~= prev.push(f@));
            assert(self@.subrange(0, i + 1) =~= self@.subrange(0, i as int).push(self@[i as int]));
            i += 1;
            assert(field_views(out@) =~= self@.subrange(0, i as int));
        }
        assert(self@.subrange(0, self@.len() as int) =~= self@);
        Headers { fields: out }
    }

    /// Index of the first field that `name` designates.
    pub fn position(&self, name: &[u8]) -> (r: Option<usize>)
        ensures
            match r {
                Some(i) => first_index(self@, name@) == Some(i as int) && i < self.fields@.len(),
                None => first_index(self@, name@) is None,
            },
    {
        let mut i: usize = 0;
        while i < self.fields.len()
            invariant
                i <= self@.len(),
                self@.len() == self.fields@.len(),
                forall|j: int| 0 <= j < i ==> !named(#[trigger] self@[j].0, name@),
            decreases self.fields@.len() - i,
        {
            if eq_ignore_case(self.fields[i].name.as_slice(), name) {
                proof {
                    lemma_first_index_of(self@, name@, i as int);
                }
                assert(i < self.fields@.len());
                return Some(i);
            }
            i += 1;
        }
        proof {
            lemma_no_first_index(self@, name@);
        }
        None
    }

    /// Value of the first field that `name` designates.
    pub fn get(&self, name: &[u8]) -> (r: Option<&Vec<u8>>)
        ensures
            match r {
                Some(v) => header_get(self@, name@) == Some(v@),
                None => header_get(self@, name@) is None,
            },
    {
        match self.position(name) {
            Some(i) => Some(&self.fields[i].value),
            None => None,
        }
    }

    pub fn contains_key(&self, name: &[u8]) -> (r: bool)
        ensures
            r == (header_get(self@, name@) is Some),
    {
        self.position(name).is_some()
    }

    /// Removes every field that `name` designates.
    pub fn remove(&mut self, name: &[u8])
        ensures
            final(self)@ == without(old(self)@, name@),
    {
        let ghost hs = old(self)@;
        let mut out: Vec<HeaderField> = Vec::new();
        let mut i: usize = 0;
        let n = self.fields.len();
        while i < n
            invariant
                n == hs.len(),
                self@ == hs,
                self.fields@.len() == n,
                i <= n,
                field_views(out@) == without(hs.subrange(0, i as int), name@),
            decreases n - i,
        {
            let f = self.fields[i].clone_field();
            assert(f@ == hs[i as int]);
            let ghost pre = hs.subrange(0, i as int);
            assert(hs.subrange(0, i + 1).drop_last() =~= pre);
            assert(hs.subrange(0, i + 1).last() == hs[i as int]);
            if !eq_ignore_case(f.name.as_slice(), name) {
                out.push(f);
                assert(field_views(out@) =~= without(pre, name@).push(
                    hs[i as int],
                ));
            }
            i += 1;
        }
        assert(hs.subrange(0, n as int) =~= hs);
        self.fields = out;
    }

    /// Sets `name` to `value` with the semantics of `HeaderMap::insert`.
    pub fn insert(&mut self, name: Vec<u8>, value: Vec<u8>)
        ensures
            final(self)@ == set_header(old(self)@, name@, value@),
    {
        let ghost hs = old(self)@;
        match self.position(name.as_slice()) {
            None => {
                self.append(name, value);
            },
            Some(i) => {
                proof {
                    lemma_first_index_bounds(hs, name@);
                }
                let n = self.fields.len();
                assert(i < n);
                let tail = self.fields.split_off(i + 1);
                let mut t = Headers { fields: tail };
                proof {
                    assert(t@ =~= hs.subrange(i + 1, hs.len() as int));
                }
                t.remove(name.as_slice());
                self.fields.set(i, HeaderField { name: copy_bytes(self.fields[i].name.as_slice()), value });
                let ghost mid = self@;
                let ghost tv = t@;
                assert(mid =~= hs.subrange(0, i as int).push((hs[i as int].0, value@)));
                self.fields.append(&mut t.fields);
                assert(self@ =~= mid + tv);
            },
        }
    }
}

} // verus!
