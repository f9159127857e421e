//! The dynamic value type, its string size classes, equality, identity and
//! hash.
use std::hash::Hasher;
use std::collections::hash_map::DefaultHasher;
use std::rc::Rc;
use vstd::prelude::*;
use vstd::slice::{slice_subrange, slice_to_vec};
use vstd::std_specs::hash::DefaultHasherAdditionalSpecFns;
use vstd::string::StringSliceAdditionalSpecFns;
use vstd::utf8::{decode_utf8, valid_utf8};
use crate::ieee::{float_as_exact_int, float_eq, float_equal, float_to_int, int_float_eq};

verus! {

/// Longest string held inline in the value itself.
pub const SHORT_STR_MAX: usize = 14;

/// Longest string held in a shared fixed-capacity buffer.
pub const MID_STR_MAX: usize = 47;

/// A value of the runtime.
///
/// `Float` holds the IEEE-754 bit pattern of a binary64 number. `Table` holds
/// the handle of a table in a [`crate::table::Tables`] arena, and `Function`
/// the identity token of a native callback registered with the host.
pub enum Value {
    Nil,
    Boolean(bool),
    Integer(i64),
    Float(u64),
    ShortStr(u8, [u8; SHORT_STR_MAX]),
    MidStr(Rc<(u8, [u8; MID_STR_MAX])>),
    LongStr(Rc<Vec<u8>>),
    Table(usize),
    Function(u64),
}

/// Failures of the extraction surface.
#[derive(PartialEq, Eq, Structural, Debug, Clone, Copy)]
pub enum ValueError {
    /// Bytes were asked of a value that is not a string.
    InvalidStringAccess,
    /// The string's bytes are not valid UTF-8.
    InvalidEncoding,
}

/// Relies on `std::str::from_utf8`: it succeeds exactly on valid UTF-8 and
/// then yields the text those bytes encode.
#[verifier::external_body]
fn utf8_to_string(b: &[u8]) -> (r: Option<String>)
    ensures
        r is Some <==> valid_utf8(b@),
        r matches Some(s) ==> s@ == decode_utf8(b@),
{
    match std::str::from_utf8(b) {
        Ok(s) => Some(s.to_string()),
        Err(_) => None,
    }
}

/// The text that `String::from_utf8_lossy` makes of `b`: each invalid
/// sequence becomes U+FFFD.
pub uninterp spec fn lossy_text_of(b: Seq<u8>) -> Seq<char>;

/// Relies on `String::from_utf8_lossy`: valid UTF-8 decodes unchanged, and
/// otherwise the result depends on the bytes alone.
#[verifier::external_body]
fn utf8_lossy(b: &[u8]) -> (r: String)
    ensures
        r@ == lossy_text_of(b@),
        valid_utf8(b@) ==> r@ == decode_utf8(b@),
{
    String::from_utf8_lossy(b).into_owned()
}

/// Relies on `Rc::clone`: the new handle points at the same contents.
#[verifier::external_body]
fn share<T>(r: &Rc<T>) -> (s: Rc<T>)
    ensures
        s == *r,
{
    Rc::clone(r)
}

/// Number of bytes a string of `len` bytes stores in a buffer of `cap`
/// bytes: a length beyond the capacity is read as the capacity.
pub open spec fn clamp_len(len: u8, cap: usize) -> int {
    if (len as int) <= cap as int {
        len as int
    } else {
        cap as int
    }
}

impl Value {
    /// Whether the value is one of the three string size classes.
    pub open spec fn is_string(self) -> bool {
        self is ShortStr || self is MidStr || self is LongStr
    }

    /// The byte content of a string value.
    pub open spec fn str_bytes(self) -> Seq<u8> {
        match self {
            Value::ShortStr(len, buf) => buf@.subrange(0, clamp_len(len, SHORT_STR_MAX)),
            Value::MidStr(s) => s.1@.subrange(0, clamp_len(s.0, MID_STR_MAX)),
            Value::LongStr(v) => v@,
            _ => Seq::empty(),
        }
    }

    /// A string's stored length fits its buffer.
    pub open spec fn wf(self) -> bool {
        match self {
            Value::ShortStr(len, _) => len as int <= SHORT_STR_MAX as int,
            Value::MidStr(s) => s.0 as int <= MID_STR_MAX as int,
            _ => true,
        }
    }

    /// The buffer bytes past a short or mid string's length are zero.
    pub open spec fn zero_padded(self) -> bool {
        match self {
            Value::ShortStr(len, buf) => forall|i: int| len <= i < SHORT_STR_MAX ==> buf@[i] == 0,
            Value::MidStr(s) => forall|i: int| s.0 <= i < MID_STR_MAX ==> s.1@[i] == 0,
            _ => true,
        }
    }

    /// The size class that a string of `len` bytes is built in.
    pub open spec fn size_class_fits(self, len: int) -> bool {
        if len <= SHORT_STR_MAX as int {
            self is ShortStr
        } else if len <= MID_STR_MAX as int {
            self is MidStr
        } else {
            self is LongStr
        }
    }

    /// Whether two values carry the same variant tag.
    pub open spec fn tag_matches(self, other: Value) -> bool {
        match (self, other) {
            (Value::Nil, Value::Nil) => true,
            (Value::Boolean(_), Value::Boolean(_)) => true,
            (Value::Integer(_), Value::Integer(_)) => true,
            (Value::Float(_), Value::Float(_)) => true,
            (Value::ShortStr(_, _), Value::ShortStr(_, _)) => true,
            (Value::MidStr(_), Value::MidStr(_)) => true,
            (Value::LongStr(_), Value::LongStr(_)) => true,
            (Value::Table(_), Value::Table(_)) => true,
            (Value::Function(_), Value::Function(_)) => true,
            _ => false,
        }
    }
}

/// Value equality: numbers compare across Integer and Float by exact
/// round trip, strings by content whatever their size class, tables and
/// functions by identity, and values of different kinds are unequal.
pub open spec fn equals(a: Value, b: Value) -> bool {
    match (a, b) {
        (Value::Nil, Value::Nil) => true,
        (Value::Boolean(x), Value::Boolean(y)) => x == y,
        (Value::Integer(x), Value::Integer(y)) => x == y,
        (Value::Integer(i), Value::Float(f)) => int_float_eq(i, f),
        (Value::Float(f), Value::Integer(i)) => int_float_eq(i, f),
        (Value::Float(x), Value::Float(y)) => float_eq(x, y),
        (Value::Table(x), Value::Table(y)) => x == y,
        (Value::Function(x), Value::Function(y)) => x == y,
        _ => a.is_string() && b.is_string() && a.str_bytes() == b.str_bytes(),
    }
}

/// Strict identity: the same variant tag and equal.
pub open spec fn same(a: Value, b: Value) -> bool {
    a.tag_matches(b) && equals(a, b)
}

/// The eight bytes of `x`, least significant first.
pub open spec fn le_bytes(x: u64) -> Seq<u8> {
    seq![
        x as u8,
        (x >> 8u64) as u8,
        (x >> 16u64) as u8,
        (x >> 24u64) as u8,
        (x >> 32u64) as u8,
        (x >> 40u64) as u8,
        (x >> 48u64) as u8,
        (x >> 56u64) as u8,
    ]
}

/// What a value writes into the hasher. A float that stands exactly for an
/// integer writes that integer, so equal numbers write equal input.
pub open spec fn hash_input(v: Value) -> Seq<Seq<u8>> {
    match v {
        Value::Nil => seq![],
        Value::Boolean(b) => seq![seq![if b { 1u8 } else { 0u8 }]],
        Value::Integer(i) => seq![le_bytes(#[verifier::truncate] (i as u64))],
        Value::Float(f) => match float_as_exact_int(f) {
            Some(i) => seq![le_bytes(#[verifier::truncate] (i as u64))],
            None => seq![le_bytes(f)],
        },
        Value::Table(h) => seq![le_bytes(h as u64)],
        Value::Function(id) => seq![le_bytes(id)],
        _ => seq![v.str_bytes()],
    }
}

/// The hash code of a value.
pub open spec fn hash_of(v: Value) -> u64 {
    DefaultHasher::spec_finish(hash_input(v))
}

fn le_vec(x: u64) -> (r: Vec<u8>)
    ensures
        r@ == le_bytes(x),
{
    let r = vec![
        x as u8,
        (x >> 8u64) as u8,
        (x >> 16u64) as u8,
        (x >> 24u64) as u8,
        (x >> 32u64) as u8,
        (x >> 40u64) as u8,
        (x >> 48u64) as u8,
        (x >> 56u64) as u8,
    ];
    assert(r@ =~= le_bytes(x));
    r
}

/// Whether two byte slices hold the same bytes.
fn bytes_equal(a: &[u8], b: &[u8]) -> (r: bool)
    ensures
        r == (a@ == b@),
{
    if a.len() != b.len() {
        return false;
    }
    let mut i: usize = 0;
    while i < a.len()
        invariant
            a@.len() == b@.len(),
            i <= a@.len(),
            a@.subrange(0, i as int) == b@.subrange(0, i as int),
        decreases a@.len() - i,
    {
        if a[i] != b[i] {
            assert(a@[i as int] != b@[i as int]);
            return false;
        }
        assert(a@.subrange(0, i + 1) =~= a@.subrange(0, i as int).push(a@[i as int]));
        assert(b@.subrange(0, i + 1) =~= b@.subrange(0, i as int).push(b@[i as int]));
        i = i + 1;
    }
    assert(a@ =~= a@.subrange(0, i as int));
    assert(b@ =~= b@.subrange(0, i as int));
    true
}

impl Value {
    /// Builds a string value in the size class that its length selects:
    /// up to 14 bytes inline, up to 47 in a shared fixed buffer, longer ones
    /// in a shared growable buffer.
    pub fn from_bytes(v: &[u8]) -> (r: Value)
        ensures
            r.wf(),
            r.zero_padded(),
            r.is_string(),
            r.str_bytes() == v@,
            r.size_class_fits(v@.len() as int),
    {
        let len = v.len();
        if len <= SHORT_STR_MAX {
            let mut buf = [0u8; SHORT_STR_MAX];
            let mut i: usize = 0;
            while i < len
                invariant
                    len == v@.len(),
                    len <= SHORT_STR_MAX,
                    i <= len,
                    buf@.len() == SHORT_STR_MAX,
                    buf@.subrange(0, i as int) == v@.subrange(0, i as int),
                    forall|j: int| i <= j < SHORT_STR_MAX ==> buf@[j] == 0,
                decreases len - i,
            {
                buf[i] = v[i];
                assert(buf@.subrange(0, i + 1) =~= v@.subrange(0, i + 1));
                i = i + 1;
            }
            assert(v@ =~= v@.subrange(0, len as int));
            Value::ShortStr(len as u8, buf)
        } else if len <= MID_STR_MAX {
            let mut buf = [0u8; MID_STR_MAX];
            let mut i: usize = 0;
            while i < len
                invariant
                    len == v@.len(),
                    len <= MID_STR_MAX,
                    i <= len,
                    buf@.len() == MID_STR_MAX,
                    buf@.subrange(0, i as int) == v@.subrange(0, i as int),
                    forall|j: int| i <= j < MID_STR_MAX ==> buf@[j] == 0,
                decreases len - i,
            {
                buf[i] = v[i];
                assert(buf@.subrange(0, i + 1) =~= v@.subrange(0, i + 1));
                i = i + 1;
            }
            assert(v@ =~= v@.subrange(0, len as int));
            Value::MidStr(Rc::new((len as u8, buf)))
        } else {
            Value::LongStr(Rc::new(slice_to_vec(v)))
        }
    }

    /// Builds a string value from text, by its UTF-8 bytes.
    pub fn from_str(s: &str) -> (r: Value)
        ensures
            r.wf(),
            r.zero_padded(),
            r.is_string(),
            r.str_bytes() == s.spec_bytes(),
            r.size_class_fits(s.spec_bytes().len() as int),
    {
        Value::from_bytes(s.as_bytes())
    }

    /// Builds a string value that takes over a byte vector.
    pub fn from_vec(v: Vec<u8>) -> (r: Value)
        ensures
            r.wf(),
            r.zero_padded(),
            r.is_string(),
            r.str_bytes() == v@,
            r.size_class_fits(v@.len() as int),
    {
        if v.len() <= MID_STR_MAX {
            Value::from_bytes(v.as_slice())
        } else {
            Value::LongStr(Rc::new(v))
        }
    }

    /// The byte content of a string value, `None` for any other value.
    pub(crate) fn string_bytes(&self) -> (r: Option<&[u8]>)
        ensures
            self.is_string() ==> (r matches Some(b) && b@ == self.str_bytes()),
            !self.is_string() ==> r is None,
    {
        match self {
            Value::ShortStr(len, buf) => {
                let n: usize = if (*len as usize) <= SHORT_STR_MAX {
                    *len as usize
                } else {
                    SHORT_STR_MAX
                };
                Some(slice_subrange(buf.as_slice(), 0, n))
            },
            Value::MidStr(s) => {
                let n: usize = if (s.0 as usize) <= MID_STR_MAX {
                    s.0 as usize
                } else {
                    MID_STR_MAX
                };
                Some(slice_subrange(s.1.as_slice(), 0, n))
            },
            Value::LongStr(v) => Some(v.as_slice()),
            _ => None,
        }
    }

    /// The byte content of a string value. Extraction is only for strings;
    /// called on another value anyway, it returns `InvalidStringAccess`
    /// rather than panicking.
    pub fn as_bytes(&self) -> (r: Result<&[u8], ValueError>)
        requires
            self.is_string(),
        ensures
            r matches Ok(b) && b@ == self.str_bytes(),
    {
        match self.string_bytes() {
            Some(b) => Ok(b),
            None => Err(ValueError::InvalidStringAccess),
        }
    }

    /// The text of a string value, decoded strictly as UTF-8:
    /// `InvalidEncoding` where its bytes are not valid UTF-8. Extraction is
    /// only for strings; called on another value anyway, it returns
    /// `InvalidStringAccess` rather than panicking.
    pub fn as_text(&self) -> (r: Result<String, ValueError>)
        requires
            self.is_string(),
        ensures
            valid_utf8(self.str_bytes()) ==> (r matches Ok(s) && s@ == decode_utf8(self.str_bytes())),
            !valid_utf8(self.str_bytes()) ==> r == Err::<String, ValueError>(ValueError::InvalidEncoding),
    {
        match self.string_bytes() {
            Some(b) => match utf8_to_string(b) {
                Some(s) => Ok(s),
                None => Err(ValueError::InvalidEncoding),
            },
            None => Err(ValueError::InvalidStringAccess),
        }
    }

    /// The text of a string value, with each invalid UTF-8 sequence replaced
    /// by U+FFFD. Extraction is only for strings; called on another value
    /// anyway, it returns `InvalidStringAccess` rather than panicking.
    pub fn as_lossy_text(&self) -> (r: Result<String, ValueError>)
        requires
            self.is_string(),
        ensures
            r matches Ok(s) && s@ == lossy_text_of(self.str_bytes()),
            valid_utf8(self.str_bytes()) ==> (r matches Ok(s) && s@ == decode_utf8(self.str_bytes())),
    {
        match self.string_bytes() {
            Some(b) => Ok(utf8_lossy(b)),
            None => Err(ValueError::InvalidStringAccess),
        }
    }

    /// Value equality, see [`equals`].
    pub fn equals(&self, other: &Value) -> (r: bool)
        ensures
            r == equals(*self, *other),
    {
        match (self, other) {
            (Value::Nil, Value::Nil) => true,
            (Value::Boolean(x), Value::Boolean(y)) => *x == *y,
            (Value::Integer(x), Value::Integer(y)) => *x == *y,
            (Value::Integer(i), Value::Float(f)) => float_to_int(*f) == Some(*i),
            (Value::Float(f), Value::Integer(i)) => float_to_int(*f) == Some(*i),
            (Value::Float(x), Value::Float(y)) => float_equal(*x, *y),
            (Value::Table(x), Value::Table(y)) => *x == *y,
            (Value::Function(x), Value::Function(y)) => *x == *y,
            _ => match (self.string_bytes(), other.string_bytes()) {
                (Some(a), Some(b)) => bytes_equal(a, b),
                _ => false,
            },
        }
    }

    /// Whether the two values carry the same variant tag.
    pub fn same_tag(&self, other: &Value) -> (r: bool)
        ensures
            r == self.tag_matches(*other),
    {
        match (self, other) {
            (Value::Nil, Value::Nil) => true,
            (Value::Boolean(_), Value::Boolean(_)) => true,
            (Value::Integer(_), Value::Integer(_)) => true,
            (Value::Float(_), Value::Float(_)) => true,
            (Value::ShortStr(_, _), Value::ShortStr(_, _)) => true,
            (Value::MidStr(_), Value::MidStr(_)) => true,
            (Value::LongStr(_), Value::LongStr(_)) => true,
            (Value::Table(_), Value::Table(_)) => true,
            (Value::Function(_), Value::Function(_)) => true,
            _ => false,
        }
    }

    /// Strict identity: no coercion between Integer and Float.
    pub fn same(&self, other: &Value) -> (r: bool)
        ensures
            r == same(*self, *other),
    {
        self.same_tag(other) && self.equals(other)
    }

    /// The hash code of the value, consistent with [`equals`].
    pub fn hash(&self) -> (r: u64)
        ensures
            r == hash_of(*self),
    {
        let mut h = DefaultHasher::new();
        match self {
            Value::Nil => {},
            Value::Boolean(b) => {
                let v: Vec<u8> = if *b { vec![1u8] } else { vec![0u8] };
                assert(v@ =~= seq![if *b { 1u8 } else { 0u8 }]);
                h.write(v.as_slice());
            },
            Value::Integer(i) => {
                let v = le_vec(#[verifier::truncate] (*i as u64));
                h.write(v.as_slice());
            },
            Value::Float(f) => {
                let v = match float_to_int(*f) {
                    Some(i) => le_vec(#[verifier::truncate] (i as u64)),
                    None => le_vec(*f),
                };
                h.write(v.as_slice());
            },
            Value::Table(t) => {
                let v = le_vec(*t as u64);
                h.write(v.as_slice());
            },
            Value::Function(id) => {
                let v = le_vec(*id);
                h.write(v.as_slice());
            },
            _ => {
                if let Some(b) = self.string_bytes() {
                    h.write(b);
                }
            },
        }
        assert(h@ =~= hash_input(*self));
        h.finish()
    }
}

impl Clone for Value {
    /// Copies inline payloads and shares the buffer of a mid or long string.
    fn clone(&self) -> (r: Value)
        ensures
            r == *self,
    {
        match self {
            Value::Nil => Value::Nil,
            Value::Boolean(b) => Value::Boolean(*b),
            Value::Integer(i) => Value::Integer(*i),
            Value::Float(f) => Value::Float(*f),
            Value::ShortStr(len, buf) => Value::ShortStr(*len, *buf),
            Value::MidStr(s) => Value::MidStr(share(s)),
            Value::LongStr(s) => Value::LongStr(share(s)),
            Value::Table(t) => Value::Table(*t),
            Value::Function(id) => Value::Function(*id),
        }
    }
}

impl PartialEq for Value {
    fn eq(&self, other: &Value) -> (r: bool) {
        self.equals(other)
    }
}

impl vstd::std_specs::cmp::PartialEqSpecImpl for Value {
    open spec fn obeys_eq_spec() -> bool {
        true
    }

    open spec fn eq_spec(&self, other: &Value) -> bool {
        equals(*self, *other)
    }
}

impl From<bool> for Value {
    fn from(b: bool) -> (r: Value) {
        Value::Boolean(b)
    }
}

impl vstd::std_specs::convert::FromSpecImpl<bool> for Value {
    open spec fn obeys_from_spec() -> bool {
        true
    }

    open spec fn from_spec(b: bool) -> Value {
        Value::Boolean(b)
    }
}

impl From<i64> for Value {
    fn from(i: i64) -> (r: Value) {
        Value::Integer(i)
    }
}

impl vstd::std_specs::convert::FromSpecImpl<i64> for Value {
    open spec fn obeys_from_spec() -> bool {
        true
    }

    open spec fn from_spec(i: i64) -> Value {
        Value::Integer(i)
    }
}

impl From<()> for Value {
    fn from(u: ()) -> (r: Value) {
        Value::Nil
    }
}

impl vstd::std_specs::convert::FromSpecImpl<()> for Value {
    open spec fn obeys_from_spec() -> bool {
        true
    }

    open spec fn from_spec(u: ()) -> Value {
        Value::Nil
    }
}

} // verus!
