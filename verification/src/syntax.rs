//! JSON syntax trees.
//!
//! A [`JsonValue`] is a plain JSON document: the leaves are null, booleans,
//! lexical numbers and strings; the branches are arrays and objects. An
//! object is a sequence of key/value entries; a well-formed object never
//! holds two entries with the same key.

use vstd::prelude::*;

verus! {

/// A lexical JSON number: the number exactly as written in the document,
/// for example `42`, `-1.5` or `2e10`.
///
/// Two numbers are the same number exactly when their lexical
/// representations are the same, following the source format's own
/// numeric literal semantics.
#[derive(Clone, Debug, PartialEq, Eq, Hash)]
pub struct Number {
    pub repr: String,
}

impl View for Number {
    type V = Seq<char>;

    open spec fn view(&self) -> Seq<char> {
        self.repr@
    }
}

impl Number {
    /// Wraps a lexical representation as a number.
    pub fn new(repr: String) -> (n: Number)
        ensures
            n@ == repr@,
    {
        Number { repr }
    }

    /// The lexical representation of the number.
    pub fn as_str(&self) -> (s: &str)
        ensures
            s@ == self@,
    {
        self.repr.as_str()
    }
}

/// A JSON syntax value.
///
/// Object entries are `(key, value)` pairs kept in document order; a
/// well-formed object has pairwise distinct keys (see [`JsonValue::wf`]).
#[derive(Debug, PartialEq, Eq, Hash)]
pub enum JsonValue {
    Null,
    Boolean(bool),
    Number(Number),
    String(String),
    Array(Vec<JsonValue>),
    Object(Vec<(String, JsonValue)>),
}

/// Pairwise distinct keys.
pub open spec fn unique_keys(entries: Seq<(String, JsonValue)>) -> bool {
    forall|i: int, j: int|
        0 <= i < j < entries.len() ==> (#[trigger] entries[i].0@) != (#[trigger] entries[j].0@)
}

impl JsonValue {
    /// Well-formedness: every object in the tree has pairwise distinct keys.
    pub open spec fn wf(self) -> bool
        decreases self,
    {
        match self {
            JsonValue::Array(items) => forall|i: int|
                0 <= i < items@.len() ==> (#[trigger] items@[i]).wf(),
            JsonValue::Object(entries) => unique_keys(entries@) && forall|i: int|
                0 <= i < entries@.len() ==> (#[trigger] entries@[i]).1.wf(),
            _ => true,
        }
    }
}

/// Deep structural equality between two syntax values, stated over the
/// character sequences the values hold. Unlike the comparison engine's
/// equivalence this is order-significant everywhere.
pub open spec fn same_json(a: JsonValue, b: JsonValue) -> bool
    decreases a,
{
    match (a, b) {
        (JsonValue::Null, JsonValue::Null) => true,
        (JsonValue::Boolean(x), JsonValue::Boolean(y)) => x == y,
        (JsonValue::Number(x), JsonValue::Number(y)) => x@ == y@,
        (JsonValue::String(x), JsonValue::String(y)) => x@ == y@,
        (JsonValue::Array(x), JsonValue::Array(y)) => x@.len() == y@.len() && forall|i: int|
            0 <= i < x@.len() ==> same_json(#[trigger] x@[i], y@[i]),
        (JsonValue::Object(x), JsonValue::Object(y)) => x@.len() == y@.len() && forall|i: int|
            0 <= i < x@.len() ==> (#[trigger] x@[i]).0@ == y@[i].0@ && same_json(x@[i].1, y@[i].1),
        _ => false,
    }
}

/// A deep copy of a syntax value.
pub fn clone_json(v: &JsonValue) -> (r: JsonValue)
    ensures
        same_json(r, *v),
    decreases *v,
{
    match v {
        JsonValue::Null => JsonValue::Null,
        JsonValue::Boolean(b) => JsonValue::Boolean(*b),
        JsonValue::Number(n) => JsonValue::Number(Number { repr: n.repr.clone() }),
        JsonValue::String(s) => JsonValue::String(s.clone()),
        JsonValue::Array(items) => {
            let mut out: Vec<JsonValue> = Vec::new();
            let mut i: usize = 0;
            while i < items.len()
                invariant
                    *v == JsonValue::Array(*items),
                    i <= items@.len(),
                    out@.len() == i,
                    forall|k: int| 0 <= k < i ==> same_json(#[trigger] out@[k], items@[k]),
                decreases items@.len() - i,
            {
                proof {
                    assert(decreases_to!(*v => (*v)->Array_0));
                    assert((*v)->Array_0 == *items);
                    assert(decreases_to!(*items => items@));
                    assert(decreases_to!(items@ => items@[i as int]));
                }
                let c = clone_json(&items[i]);
                out.push(c);
                i = i + 1;
            }
            proof {
                assert(same_json(JsonValue::Array(out), *v));
            }
            JsonValue::Array(out)
        },
        JsonValue::Object(entries) => {
            let mut out: Vec<(String, JsonValue)> = Vec::new();
            let mut i: usize = 0;
            while i < entries.len()
                invariant
                    *v == JsonValue::Object(*entries),
                    i <= entries@.len(),
                    out@.len() == i,
                    forall|k: int| 0 <= k < i ==> (#[trigger] out@[k]).0@ == entries@[k].0@
                        && same_json(out@[k].1, entries@[k].1),
                decreases entries@.len() - i,
            {
                proof {
                    assert(decreases_to!(*v => (*v)->Object_0));
                    assert((*v)->Object_0 == *entries);
                    assert(decreases_to!(*entries => entries@));
                    assert(decreases_to!(entries@ => entries@[i as int]));
                    assert(decreases_to!(entries@[i as int] => entries@[i as int].1));
                }
                let key = entries[i].0.clone();
                let val = clone_json(&entries[i].1);
                out.push((key, val));
                i = i + 1;
            }
            proof {
                assert(same_json(JsonValue::Object(out), *v));
            }
            JsonValue::Object(out)
        },
    }
}

} // verus!
