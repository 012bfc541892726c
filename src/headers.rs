use vstd::prelude::*;
use vstd::slice::slice_to_vec;
use vstd::string::*;
use vstd::utf8::*;

use crate::error::HttpError;

verus! {

pub const DEFAULT_INTO_BUFFER_CAPACITY: usize = 65536;

/// Bytes that a serialized field adds to its name and value: `": "` and `"\r\n"`.
const HEADER_EXTRA_BYTES: usize = 4;

/// A header field as the contracts see it: the name as written, and the raw value.
pub type FieldView = (Seq<char>, Seq<u8>);

/// What `str::to_lowercase` makes of a name: its Unicode lowercase form.
pub uninterp spec fn lower_of(s: Seq<char>) -> Seq<char>;

/// The normalized key of a header name: its lowercase form.
pub open spec fn key_of(name: Seq<char>) -> Seq<char> {
    lower_of(name)
}

pub open spec fn host_key() -> Seq<char> {
    "host"@
}

pub open spec fn content_length_key() -> Seq<char> {
    "content-length"@
}

/// Value of the earliest field whose key is `k`.
pub open spec fn lookup(fs: Seq<FieldView>, k: Seq<char>) -> Option<Seq<u8>>
    decreases fs.len(),
{
    if fs.len() == 0 {
        None
    } else {
        match lookup(fs.drop_last(), k) {
            Some(v) => Some(v),
            None => if key_of(fs.last().0) == k {
                Some(fs.last().1)
            } else {
                None
            },
        }
    }
}

/// Number of fields whose key is `k`.
pub open spec fn count_key(fs: Seq<FieldView>, k: Seq<char>) -> nat
    decreases fs.len(),
{
    if fs.len() == 0 {
        0
    } else {
        count_key(fs.drop_last(), k) + if key_of(fs.last().0) == k {
            1nat
        } else {
            0nat
        }
    }
}

/// At most one `Host` field and at most one `Content-Length` field.
pub open spec fn fields_valid(fs: Seq<FieldView>) -> bool {
    count_key(fs, host_key()) <= 1 && count_key(fs, content_length_key()) <= 1
}

pub open spec fn values_utf8(fs: Seq<FieldView>) -> bool {
    forall|i: int| 0 <= i < fs.len() ==> valid_utf8(#[trigger] fs[i].1)
}

/// The error that building a store from `fs` gives, if any: a value that is
/// not UTF-8 is found while inserting, duplicates only afterwards.
pub open spec fn fields_error(fs: Seq<FieldView>) -> Option<HttpError> {
    if !values_utf8(fs) {
        Some(HttpError::InvalidUtf8HeaderValue)
    } else if !fields_valid(fs) {
        Some(HttpError::DuplicateHeader)
    } else {
        None
    }
}

/// The fields that a tokenized header list names, in its order.
pub open spec fn raw_fields(raw: Seq<(&str, &[u8])>) -> Seq<FieldView> {
    Seq::new(raw.len(), |i: int| (raw[i].0@, raw[i].1@))
}

/// `name: value\r\n`
pub open spec fn field_line(f: FieldView) -> Seq<u8> {
    encode_utf8(f.0) + seq![58u8, 32u8] + f.1 + seq![13u8, 10u8]
}

pub open spec fn field_lines(fs: Seq<FieldView>) -> Seq<u8>
    decreases fs.len(),
{
    if fs.len() == 0 {
        Seq::empty()
    } else {
        field_lines(fs.drop_last()) + field_line(fs.last())
    }
}

/// The header block on the wire: every field in order, then an empty line.
pub open spec fn header_block(fs: Seq<FieldView>) -> Seq<u8> {
    field_lines(fs) + seq![13u8, 10u8]
}

/// The precomputed size of a field's line.
pub open spec fn length_hint_of(f: FieldView) -> int {
    encode_utf8(f.0).len() + f.1.len() + 4int
}

pub open spec fn fields_fit(fs: Seq<FieldView>) -> bool {
    forall|i: int| 0 <= i < fs.len() ==> length_hint_of(#[trigger] fs[i]) <= usize::MAX
}

pub open spec fn is_digit(b: u8) -> bool {
    48 <= b && b <= 57
}

/// Value of a string of decimal digits.
pub open spec fn digits_value(s: Seq<u8>) -> nat
    decreases s.len(),
{
    if s.len() == 0 {
        0
    } else {
        digits_value(s.drop_last()) * 10 + (s.last() - 48) as nat
    }
}

/// The digits of an unsigned number: one leading `+` is allowed.
pub open spec fn unsigned_digits(v: Seq<u8>) -> Seq<u8> {
    if v.len() > 0 && v[0] == 43 {
        v.drop_first()
    } else {
        v
    }
}

/// The unsigned integer that `v` writes in decimal, where it fits a `usize`.
pub open spec fn decimal_of(v: Seq<u8>) -> Option<nat> {
    let d = unsigned_digits(v);
    if d.len() > 0 && (forall|i: int| 0 <= i < d.len() ==> is_digit(#[trigger] d[i]))
        && digits_value(d) <= usize::MAX {
        Some(digits_value(d))
    } else {
        None
    }
}

proof fn lemma_digits_prefix(s: Seq<u8>, j: int)
    requires
        0 <= j <= s.len(),
        forall|i: int| 0 <= i < s.len() ==> is_digit(#[trigger] s[i]),
    ensures
        digits_value(s.take(j)) <= digits_value(s),
    decreases s.len() - j,
{
    if j < s.len() {
        assert(s.take(j + 1).drop_last() =~= s.take(j));
        lemma_digits_prefix(s, j + 1);
    } else {
        assert(s.take(j) =~= s);
    }
}

/// Reads an unsigned decimal integer, as `usize::from_str` does.
pub fn parse_decimal(v: &[u8]) -> (r: Option<usize>)
    ensures
        match decimal_of(v@) {
            Some(n) => r == Some(n as usize),
            None => r is None,
        },
{
    let start: usize = if v.len() > 0 && v[0] == 43 { 1 } else { 0 };
    let ghost d = unsigned_digits(v@);
    assert(d =~= v@.subrange(start as int, v@.len() as int));
    if start >= v.len() {
        return None;
    }
    let mut acc: usize = 0;
    let mut i: usize = start;
    while i < v.len()
        invariant
            start <= i <= v@.len(),
            d == unsigned_digits(v@),
            d == v@.subrange(start as int, v@.len() as int),
            forall|j: int| 0 <= j < i - start ==> is_digit(#[trigger] d[j]),
            acc == digits_value(d.take(i - start)),
        decreases v@.len() - i,
    {
        let c = v[i];
        if c < 48 || c > 57 {
            assert(!is_digit(d[i - start]));
            return None;
        }
        assert(d.take(i - start + 1).drop_last() =~= d.take(i - start));
        let step = match acc.checked_mul(10) {
            Some(m) => m.checked_add((c - 48) as usize),
            None => None,
        };
        match step {
            Some(next) => {
                acc = next;
            },
            None => {
                proof {
                    let k = (i - start) as int;
                    assert(d[k] == c);
                    assert(d.take(k + 1).last() == c);
                    assert(digits_value(d.take(k + 1)) == acc * 10 + (c - 48) as nat);
                    assert(digits_value(d.take(k + 1)) > usize::MAX) by (nonlinear_arith)
                        requires
                            digits_value(d.take(k + 1)) == acc * 10 + (c - 48) as nat,
                            acc * 10 > usize::MAX || acc * 10 + (c - 48) as nat > usize::MAX,
                    ;
                    if forall|j: int| 0 <= j < d.len() ==> is_digit(#[trigger] d[j]) {
                        lemma_digits_prefix(d, k + 1);
                    }
                }
                return None;
            },
        }
        i = i + 1;
    }
    assert(d.take(i - start) =~= d);
    Some(acc)
}

/// Relies on std::str::from_utf8: it succeeds exactly on valid UTF-8, and the
/// characters of the result are the decoding of the bytes.
#[verifier::external_body]
fn utf8_text(b: &[u8]) -> (r: Option<String>)
    ensures
        r is Some <==> valid_utf8(b@),
        r matches Some(s) ==> s@ == decode_utf8(b@),
{
    std::str::from_utf8(b).ok().map(|s| s.to_string())
}

/// Relies on str::to_lowercase: the result depends on the characters alone.
#[verifier::external_body]
fn lowercase(s: &str) -> (r: String)
    ensures
        r@ == lower_of(s@),
{
    s.to_lowercase()
}

/// Appends `b` to `out`.
pub(crate) fn push_bytes(out: &mut Vec<u8>, b: &[u8])
    ensures
        final(out)@ == old(out)@ + b@,
{
    let mut i: usize = 0;
    while i < b.len()
        invariant
            i <= b@.len(),
            out@ == old(out)@ + b@.take(i as int),
        decreases b@.len() - i,
    {
        out.push(b[i]);
        i = i + 1;
        assert(out@ =~= old(out)@ + b@.take(i as int));
    }
    assert(b@.take(i as int) =~= b@);
}


/// One header field: the name with its case intact, its normalized key, the
/// raw value and its text, its position in the block, and the size of its line.
#[derive(Debug)]
pub struct OctopusHeader {
    original_name: String,
    key: String,
    value: Vec<u8>,
    value_str: String,
    order: usize,
    length_hint: usize,
}

impl View for OctopusHeader {
    type V = FieldView;

    closed spec fn view(&self) -> FieldView {
        (self.original_name@, self.value@)
    }
}

impl OctopusHeader {
    pub closed spec fn wf(&self) -> bool {
        &&& self.key@ == key_of(self.original_name@)
        &&& valid_utf8(self.value@)
        &&& self.value_str@ == decode_utf8(self.value@)
        &&& self.length_hint == length_hint_of(self@)
    }

    pub closed spec fn spec_order(&self) -> usize {
        self.order
    }

    /// Builds the field at position `order`; fails where the value is not UTF-8.
    pub fn new(original: String, contents: &Vec<u8>, order: usize) -> (r: Result<
        OctopusHeader,
        HttpError,
    >)
        requires
            length_hint_of((original@, contents@)) <= usize::MAX,
        ensures
            valid_utf8(contents@) ==> (r matches Ok(h) && h.wf() && h@ == (original@, contents@)
                && h.spec_order() == order),
            !valid_utf8(contents@) ==> r == Err::<OctopusHeader, HttpError>(
                HttpError::InvalidUtf8HeaderValue,
            ),
    {
        let name_bytes = original.as_str().as_bytes();
        let length_hint = name_bytes.len() + contents.len() + HEADER_EXTRA_BYTES;
        let key = lowercase(original.as_str());
        match utf8_text(contents.as_slice()) {
            Some(value_str) => Ok(
                OctopusHeader {
                    original_name: original,
                    key,
                    value: contents.clone(),
                    value_str,
                    order,
                    length_hint,
                },
            ),
            None => Err(HttpError::InvalidUtf8HeaderValue),
        }
    }

    pub fn value(&self) -> (r: &Vec<u8>)
        ensures
            r@ == self@.1,
    {
        &self.value
    }

    pub fn value_str(&self) -> (r: &String)
        requires
            self.wf(),
        ensures
            valid_utf8(self@.1),
            r@ == decode_utf8(self@.1),
    {
        &self.value_str
    }

    pub fn original_name(&self) -> (r: &String)
        ensures
            r@ == self@.0,
    {
        &self.original_name
    }

    pub fn order(&self) -> (r: usize)
        ensures
            r == self.spec_order(),
    {
        self.order
    }

    pub fn length_hint(&self) -> (r: usize)
        requires
            self.wf(),
        ensures
            r == length_hint_of(self@),
    {
        self.length_hint
    }
}


impl Clone for OctopusHeader {
    /// An independent copy with the same name, value, order and hint.
    fn clone(&self) -> (r: Self)
        ensures
            r@ == self@,
            r.spec_order() == self.spec_order(),
            self.wf() ==> r.wf(),
    {
        let r = OctopusHeader {
            original_name: self.original_name.clone(),
            key: self.key.clone(),
            value: self.value.clone(),
            value_str: self.value_str.clone(),
            order: self.order,
            length_hint: self.length_hint,
        };
        assert(r.value@ =~= self.value@);
        r
    }
}

/// The earliest match found in a prefix stays the earliest match of the whole.
pub(crate) proof fn lemma_lookup_prefix(fs: Seq<FieldView>, j: int, k: Seq<char>)
    requires
        0 <= j <= fs.len(),
        lookup(fs.take(j), k) is Some,
    ensures
        lookup(fs, k) == lookup(fs.take(j), k),
    decreases fs.len() - j,
{
    if j < fs.len() {
        assert(fs.take(j + 1).drop_last() =~= fs.take(j));
        lemma_lookup_prefix(fs, j + 1, k);
    } else {
        assert(fs.take(j) =~= fs);
    }
}

/// A prefix's lines are no longer than the lines of the whole.
proof fn lemma_lines_prefix_len(fs: Seq<FieldView>, j: int)
    requires
        0 <= j <= fs.len(),
    ensures
        field_lines(fs.take(j)).len() <= field_lines(fs).len(),
    decreases fs.len() - j,
{
    if j < fs.len() {
        assert(fs.take(j + 1).drop_last() =~= fs.take(j));
        lemma_lines_prefix_len(fs, j + 1);
    } else {
        assert(fs.take(j) =~= fs);
    }
}

/// An ordered, case-insensitive, duplicate-keeping store of header fields.
/// The fields stand in insertion order, so the position of each is its order.
#[derive(Debug)]
pub struct Headers {
    fields: Vec<OctopusHeader>,
    total_count: usize,
}

impl View for Headers {
    type V = Seq<FieldView>;

    closed spec fn view(&self) -> Seq<FieldView> {
        self.fields@.map_values(|f: OctopusHeader| f@)
    }
}

impl Headers {
    pub closed spec fn wf(&self) -> bool {
        &&& self.total_count == self.fields@.len()
        &&& forall|i: int|
            0 <= i < self.fields@.len() ==> (#[trigger] self.fields@[i]).wf()
                && self.fields@[i].spec_order() == i
    }

    pub fn new() -> (r: Headers)
        ensures
            r.wf(),
            r@ == Seq::<FieldView>::empty(),
    {
        let r = Headers { fields: Vec::new(), total_count: 0 };
        assert(r@ =~= Seq::<FieldView>::empty());
        r
    }

    /// Number of fields in the store.
    pub fn len(&self) -> (r: usize)
        requires
            self.wf(),
        ensures
            r == self@.len(),
    {
        self.total_count
    }

    /// Appends a field under `name`, whatever fields already share its key.
    /// Fails, leaving the store as it was, where the value is not UTF-8.
    pub fn insert(&mut self, name: &str, value: &Vec<u8>) -> (r: Result<(), HttpError>)
        requires
            old(self).wf(),
            old(self)@.len() < usize::MAX,
            length_hint_of((name@, value@)) <= usize::MAX,
        ensures
            final(self).wf(),
            valid_utf8(value@) ==> r is Ok && final(self)@ == old(self)@.push((name@, value@)),
            !valid_utf8(value@) ==> r == Err::<(), HttpError>(HttpError::InvalidUtf8HeaderValue)
                && final(self)@ == old(self)@,
    {
        let name_string = name.to_owned();
        match OctopusHeader::new(name_string, value, self.total_count) {
            Ok(item) => {
                self.fields.push(item);
                self.total_count = self.total_count + 1;
                assert(self@ =~= old(self)@.push((name@, value@)));
                Ok(())
            },
            Err(e) => Err(e),
        }
    }

    /// Position of the earliest field whose key is `k`.
    fn find_key(&self, k: &String) -> (r: Option<usize>)
        requires
            self.wf(),
        ensures
            r is None <==> lookup(self@, k@) is None,
            r matches Some(i) ==> i < self@.len() && lookup(self@, k@) == Some(self@[i as int].1),
    {
        let mut i: usize = 0;
        while i < self.fields.len()
            invariant
                self.wf(),
                i <= self@.len(),
                lookup(self@.take(i as int), k@) is None,
            decreases self@.len() - i,
        {
            let hit = self.fields[i].key == *k;
            proof {
                assert(self@.take(i as int + 1).drop_last() =~= self@.take(i as int));
                assert(self.fields@[i as int].wf());
            }
            if hit {
                proof {
                    lemma_lookup_prefix(self@, i as int + 1, k@);
                }
                return Some(i);
            }
            i = i + 1;
        }
        assert(self@.take(i as int) =~= self@);
        None
    }

    /// Value of the earliest field whose name has the same lowercase form
    /// as `name`.
    pub fn get(&self, name: &str) -> (r: Option<&Vec<u8>>)
        requires
            self.wf(),
        ensures
            match lookup(self@, key_of(name@)) {
                None => r is None,
                Some(v) => r matches Some(x) && x@ == v,
            },
    {
        let k = lowercase(name);
        match self.find_key(&k) {
            Some(i) => Some(self.fields[i].value()),
            None => None,
        }
    }

    /// Text of the earliest field whose key is `k`.
    pub(crate) fn get_text(&self, k: &String) -> (r: Option<&String>)
        requires
            self.wf(),
        ensures
            match lookup(self@, k@) {
                None => r is None,
                Some(v) => r matches Some(x) && x@ == decode_utf8(v),
            },
    {
        match self.find_key(k) {
            Some(i) => {
                assert(self.fields@[i as int].wf());
                Some(self.fields[i].value_str())
            },
            None => None,
        }
    }

    /// Number of fields whose key is `k`.
    fn count_key(&self, k: &String) -> (r: usize)
        requires
            self.wf(),
        ensures
            r == count_key(self@, k@),
    {
        let mut n: usize = 0;
        let mut i: usize = 0;
        while i < self.fields.len()
            invariant
                self.wf(),
                i <= self@.len(),
                n == count_key(self@.take(i as int), k@),
                n <= i,
            decreases self@.len() - i,
        {
            let hit = self.fields[i].key == *k;
            proof {
                assert(self@.take(i as int + 1).drop_last() =~= self@.take(i as int));
                assert(self.fields@[i as int].wf());
            }
            if hit {
                n = n + 1;
            }
            i = i + 1;
        }
        assert(self@.take(i as int) =~= self@);
        n
    }

    /// At most one `Host` field and at most one `Content-Length` field.
    pub fn validate(&self) -> (r: bool)
        requires
            self.wf(),
        ensures
            r == fields_valid(self@),
    {
        let host = String::from_str("host");
        let length = String::from_str("content-length");
        let host_ok = self.count_key(&host) <= 1;
        let length_ok = self.count_key(&length) <= 1;
        host_ok && length_ok
    }

    /// The value of the earliest `Content-Length` field, read as an unsigned
    /// integer; `None` where there is no such field.
    pub fn content_length(&self) -> (r: Result<Option<usize>, HttpError>)
        requires
            self.wf(),
        ensures
            match lookup(self@, content_length_key()) {
                None => r == Ok::<Option<usize>, HttpError>(None),
                Some(v) => match decimal_of(v) {
                    Some(n) => r == Ok::<Option<usize>, HttpError>(Some(n as usize)),
                    None => r == Err::<Option<usize>, HttpError>(HttpError::ContentLengthParse),
                },
            },
    {
        let length = String::from_str("content-length");
        match self.find_key(&length) {
            Some(i) => match parse_decimal(self.fields[i].value().as_slice()) {
                Some(n) => Ok(Some(n)),
                None => Err(HttpError::ContentLengthParse),
            },
            None => Ok(None),
        }
    }

    /// The header block as it stood on the wire: each field as
    /// `name: value\r\n` in insertion order, then `\r\n`.
    pub fn to_utf8(&self) -> (r: Vec<u8>)
        requires
            self.wf(),
            header_block(self@).len() <= usize::MAX,
        ensures
            r@ == header_block(self@),
    {
        let mut bytes: usize = 2;
        let mut i: usize = 0;
        while i < self.fields.len()
            invariant
                self.wf(),
                i <= self@.len(),
                header_block(self@).len() <= usize::MAX,
                bytes == field_lines(self@.take(i as int)).len() + 2,
            decreases self@.len() - i,
        {
            proof {
                assert(self@.take(i as int + 1).drop_last() =~= self@.take(i as int));
                assert(self.fields@[i as int].wf());
                lemma_lines_prefix_len(self@, i as int + 1);
            }
            bytes = bytes + self.fields[i].length_hint();
            i = i + 1;
        }
        let mut out: Vec<u8> = Vec::with_capacity(bytes);
        let mut i: usize = 0;
        while i < self.fields.len()
            invariant
                self.wf(),
                i <= self@.len(),
                out@ == field_lines(self@.take(i as int)),
            decreases self@.len() - i,
        {
            let field = &self.fields[i];
            push_bytes(&mut out, field.original_name().as_str().as_bytes());
            out.push(58u8);
            out.push(32u8);
            push_bytes(&mut out, field.value().as_slice());
            out.push(13u8);
            out.push(10u8);
            proof {
                assert(self@.take(i as int + 1).drop_last() =~= self@.take(i as int));
                assert(self@[i as int] == field@);
                assert(out@ =~= field_lines(self@.take(i as int + 1)));
            }
            i = i + 1;
        }
        assert(self@.take(i as int) =~= self@);
        out.push(13u8);
        out.push(10u8);
        assert(out@ =~= header_block(self@));
        out
    }

    /// Builds a store from a tokenized header list, in its order, and
    /// validates it.
    pub fn from_raw(raw: &[(&str, &[u8])]) -> (r: Result<Headers, HttpError>)
        requires
            fields_fit(raw_fields(raw@)),
        ensures
            match fields_error(raw_fields(raw@)) {
                None => r matches Ok(h) && h.wf() && h@ == raw_fields(raw@),
                Some(e) => r == Err::<Headers, HttpError>(e),
            },
    {
        let ghost fs = raw_fields(raw@);
        let mut headers = Headers::new();
        let mut i: usize = 0;
        while i < raw.len()
            invariant
                fs == raw_fields(raw@),
                fields_fit(fs),
                i <= fs.len(),
                headers.wf(),
                headers@ == fs.take(i as int),
                values_utf8(fs.take(i as int)),
            decreases fs.len() - i,
        {
            let (name, value) = raw[i];
            let value_vec = slice_to_vec(value);
            assert(fs[i as int] == (name@, value_vec@));
            match headers.insert(name, &value_vec) {
                Ok(()) => {},
                Err(e) => {
                    assert(!valid_utf8(fs[i as int].1));
                    return Err(e);
                },
            }
            assert(fs.take(i as int + 1) =~= fs.take(i as int).push(fs[i as int]));
            i = i + 1;
        }
        assert(fs.take(i as int) =~= fs);
        if headers.validate() {
            Ok(headers)
        } else {
            Err(HttpError::DuplicateHeader)
        }
    }
}


impl Clone for Headers {
    /// An independent copy holding the same fields in the same order.
    fn clone(&self) -> (r: Self)
        ensures
            r@ == self@,
            self.wf() ==> r.wf(),
    {
        let mut fields: Vec<OctopusHeader> = Vec::with_capacity(self.fields.len());
        let mut i: usize = 0;
        while i < self.fields.len()
            invariant
                i <= self.fields@.len(),
                fields@.len() == i,
                forall|j: int|
                    0 <= j < i ==> (#[trigger] fields@[j])@ == self.fields@[j]@
                        && fields@[j].spec_order() == self.fields@[j].spec_order() && (
                        self.fields@[j].wf() ==> fields@[j].wf()),
            decreases self.fields@.len() - i,
        {
            fields.push(self.fields[i].clone());
            i = i + 1;
        }
        let r = Headers { fields, total_count: self.total_count };
        assert(r@ =~= self@);
        r
    }
}

} // verus!
