//! The values that a listing compares: what a column of a record holds,
//! and the order among such values.

use vstd::prelude::*;
use vstd::utf8::encode_utf8;

verus! {

/// What a column of one record holds.
#[derive(Debug, PartialEq, Eq)]
pub enum Value {
    /// An identifier.
    Id(u128),
    /// A time, in microseconds since the start of 1970, UTC.
    Time(i64),
    /// A text.
    Text(String),
    /// Nothing.
    Null,
}

/// A `Value` as mathematics.
pub enum ValueView {
    Id(u128),
    Time(i64),
    Text(Seq<char>),
    Null,
}

impl View for Value {
    type V = ValueView;

    open spec fn view(&self) -> ValueView {
        match self {
            Value::Id(n) => ValueView::Id(*n),
            Value::Time(t) => ValueView::Time(*t),
            Value::Text(s) => ValueView::Text(s@),
            Value::Null => ValueView::Null,
        }
    }
}

impl Clone for Value {
    fn clone(&self) -> (copy: Self)
        ensures
            copy@ == self@,
    {
        match self {
            Value::Id(n) => Value::Id(*n),
            Value::Time(t) => Value::Time(*t),
            Value::Text(s) => Value::Text(s.clone()),
            Value::Null => Value::Null,
        }
    }
}

/// The order of byte strings as in a dictionary: by the first byte in
/// which they differ, and a string before each that it begins.
pub open spec fn bytes_le(a: Seq<u8>, b: Seq<u8>) -> bool
    decreases a.len(),
{
    if a.len() == 0 {
        true
    } else if b.len() == 0 {
        false
    } else if a[0] != b[0] {
        a[0] < b[0]
    } else {
        bytes_le(a.drop_first(), b.drop_first())
    }
}

/// The order of texts: that of their UTF-8 bytes, which is that of their
/// characters' code points.
pub open spec fn text_le(a: Seq<char>, b: Seq<char>) -> bool {
    bytes_le(encode_utf8(a), encode_utf8(b))
}

/// Where a kind of value stands among the others: identifiers first, then
/// times, then texts, and nothing last.
pub open spec fn rank(v: ValueView) -> int {
    match v {
        ValueView::Id(_) => 0,
        ValueView::Time(_) => 1,
        ValueView::Text(_) => 2,
        ValueView::Null => 3,
    }
}

/// The order of values: by kind, and within a kind by number, by time or
/// as texts. A missing value comes after every other.
pub open spec fn value_le(a: ValueView, b: ValueView) -> bool {
    match (a, b) {
        (ValueView::Id(x), ValueView::Id(y)) => x <= y,
        (ValueView::Time(x), ValueView::Time(y)) => x <= y,
        (ValueView::Text(x), ValueView::Text(y)) => text_le(x, y),
        _ => rank(a) <= rank(b),
    }
}

/// Of any two byte strings one is before the other or they are equal.
pub proof fn lemma_bytes_le_total(a: Seq<u8>, b: Seq<u8>)
    ensures
        bytes_le(a, b) || bytes_le(b, a),
    decreases a.len(),
{
    if a.len() > 0 && b.len() > 0 && a[0] == b[0] {
        lemma_bytes_le_total(a.drop_first(), b.drop_first());
    }
}

/// The order of byte strings carries over a middle one.
pub proof fn lemma_bytes_le_transitive(a: Seq<u8>, b: Seq<u8>, c: Seq<u8>)
    requires
        bytes_le(a, b),
        bytes_le(b, c),
    ensures
        bytes_le(a, c),
    decreases a.len(),
{
    if a.len() > 0 && b.len() > 0 && c.len() > 0 && a[0] == b[0] && b[0] == c[0] {
        lemma_bytes_le_transitive(a.drop_first(), b.drop_first(), c.drop_first());
    }
}

/// Of any two values one is before the other or they are level.
pub proof fn lemma_value_le_total(a: ValueView, b: ValueView)
    ensures
        value_le(a, b) || value_le(b, a),
{
    match (a, b) {
        (ValueView::Text(x), ValueView::Text(y)) => {
            lemma_bytes_le_total(encode_utf8(x), encode_utf8(y));
        },
        _ => {},
    }
}

/// The order of values carries over a middle one.
pub proof fn lemma_value_le_transitive(a: ValueView, b: ValueView, c: ValueView)
    requires
        value_le(a, b),
        value_le(b, c),
    ensures
        value_le(a, c),
{
    match (a, b, c) {
        (ValueView::Text(x), ValueView::Text(y), ValueView::Text(z)) => {
            lemma_bytes_le_transitive(encode_utf8(x), encode_utf8(y), encode_utf8(z));
        },
        _ => {},
    }
}

/// Whether `a` is before `b` or equal to it, as byte strings.
pub fn bytes_before_or_equal(a: &[u8], b: &[u8]) -> (le: bool)
    ensures
        le == bytes_le(a@, b@),
{
    let mut i: usize = 0;
    assert(a@.skip(0) =~= a@ && b@.skip(0) =~= b@);
    while i < a.len() && i < b.len()
        invariant
            i <= a.len(),
            i <= b.len(),
            bytes_le(a@, b@) == bytes_le(a@.skip(i as int), b@.skip(i as int)),
        decreases a.len() - i,
    {
        let ghost ra = a@.skip(i as int);
        let ghost rb = b@.skip(i as int);
        assert(ra[0] == a@[i as int] && rb[0] == b@[i as int]);
        if a[i] != b[i] {
            return a[i] < b[i];
        }
        assert(ra.drop_first() =~= a@.skip(i + 1));
        assert(rb.drop_first() =~= b@.skip(i + 1));
        i += 1;
    }
    i == a.len()
}

/// Whether `a` is before `b` in the order of values, or level with it.
pub fn before_or_equal(a: &Value, b: &Value) -> (le: bool)
    ensures
        le == value_le(a@, b@),
{
    match (a, b) {
        (Value::Id(x), Value::Id(y)) => *x <= *y,
        (Value::Time(x), Value::Time(y)) => *x <= *y,
        (Value::Text(x), Value::Text(y)) => bytes_before_or_equal(x.as_str().as_bytes(), y.as_str().as_bytes()),
        (Value::Id(_), _) => true,
        (Value::Time(_), Value::Id(_)) => false,
        (Value::Time(_), _) => true,
        (Value::Text(_), Value::Null) => true,
        (Value::Text(_), _) => false,
        (Value::Null, Value::Null) => true,
        (Value::Null, _) => false,
    }
}

} // verus!
