//! Structural equivalence engine.
//!
//! [`compare`](Compare::compare) decides whether two documents are
//! semantically equal under the JSON-LD data-model rules: array order is
//! insignificant, object key order is insignificant, but key sets and
//! values must match exactly.
//!
//! Array matching is a greedy, earliest-available binding: for each element
//! of the left array, in order, the first not-yet-consumed element of the
//! right array that compares equal is consumed. This is not an exhaustive
//! maximum-matching search; it can reject a valid correspondence when
//! several structurally-equal-but-distinct candidates are interleaved.
//! [`equiv`] states exactly this greedy semantics.

use vstd::prelude::*;
use vstd::pervasive::VecAdditionalExecFns;
use crate::syntax::JsonValue;
use crate::syntax::unique_keys;

verus! {

/// Equivalence of two syntax values under the comparison engine's rules:
/// primitive values compare by value (numbers by their lexical form),
/// arrays by greedy order-insensitive matching, objects by key lookup.
pub open spec fn equiv(a: JsonValue, b: JsonValue) -> bool
    decreases a, 0int, 0int,
{
    match (a, b) {
        (JsonValue::Null, JsonValue::Null) => true,
        (JsonValue::Boolean(x), JsonValue::Boolean(y)) => x == y,
        (JsonValue::Number(x), JsonValue::Number(y)) => x@ == y@,
        (JsonValue::String(x), JsonValue::String(y)) => x@ == y@,
        (JsonValue::Array(x), JsonValue::Array(y)) => x@.len() == y@.len()
            && array_equiv_from(x@, y@, Seq::new(y@.len(), |k: int| false), 0),
        (JsonValue::Object(x), JsonValue::Object(y)) => x@.len() == y@.len()
            && forall|i: int| 0 <= i < x@.len() ==> entry_matches(#[trigger] x@[i], y@),
        _ => false,
    }
}

/// Greedy matching of the elements `a[i..]` against the elements of `b`
/// that are not yet marked in `used`: each element of `a`, in order, binds
/// the first available equivalent element of `b`.
pub open spec fn array_equiv_from(
    a: Seq<JsonValue>,
    b: Seq<JsonValue>,
    used: Seq<bool>,
    i: int,
) -> bool
    decreases a, a.len() - i + 1, 0int,
{
    if i < 0 || i >= a.len() {
        true
    } else {
        let j = first_match(a, b, used, i, 0);
        if j < 0 {
            false
        } else {
            array_equiv_from(a, b, used.update(j, true), i + 1)
        }
    }
}

/// Index of the first element of `b`, from position `from` on, that is not
/// yet marked in `used` and is equivalent to `a[i]`; `-1` when none is.
pub open spec fn first_match(
    a: Seq<JsonValue>,
    b: Seq<JsonValue>,
    used: Seq<bool>,
    i: int,
    from: int,
) -> int
    decreases a, a.len() - i, b.len() - from + 1,
{
    if i < 0 || i >= a.len() || from < 0 || from >= b.len() {
        -1
    } else if !used[from] && equiv(a[i], b[from]) {
        from
    } else {
        first_match(a, b, used, i, from + 1)
    }
}

/// The entry `e` of the left object has a match in the right object `b`:
/// `b` holds `e`'s key (first occurrence decides) with an equivalent value.
pub open spec fn entry_matches(e: (String, JsonValue), b: Seq<(String, JsonValue)>) -> bool
    decreases e.1, 1int, 0int,
{
    let j = find_key(b, e.0@, 0);
    0 <= j < b.len() && equiv(e.1, b[j].1)
}

/// Index of the first entry of `entries`, from position `from` on, whose
/// key is `key`; `-1` when none is.
pub open spec fn find_key(entries: Seq<(String, JsonValue)>, key: Seq<char>, from: int) -> int
    decreases entries.len() - from + 1,
{
    if from < 0 || from >= entries.len() {
        -1
    } else if entries[from].0@ == key {
        from
    } else {
        find_key(entries, key, from + 1)
    }
}

proof fn lemma_first_match(
    a: Seq<JsonValue>,
    b: Seq<JsonValue>,
    used: Seq<bool>,
    i: int,
    from: int,
    j: int,
)
    requires
        0 <= i < a.len(),
        0 <= from <= j <= b.len(),
        forall|k: int| from <= k < j ==> !(!used[k] && equiv(a[i], #[trigger] b[k])),
        j < b.len() ==> !used[j] && equiv(a[i], b[j]),
    ensures
        first_match(a, b, used, i, from) == if j < b.len() {
            j
        } else {
            -1
        },
    decreases j - from,
{
    if from < j {
        lemma_first_match(a, b, used, i, from + 1, j);
    }
}

proof fn lemma_find_key(entries: Seq<(String, JsonValue)>, key: Seq<char>, from: int, j: int)
    requires
        0 <= from <= j <= entries.len(),
        forall|k: int| from <= k < j ==> (#[trigger] entries[k]).0@ != key,
        j < entries.len() ==> entries[j].0@ == key,
    ensures
        find_key(entries, key, from) == if j < entries.len() {
            j
        } else {
            -1
        },
    decreases j - from,
{
    if from < j {
        lemma_find_key(entries, key, from + 1, j);
    }
}

/// First entry of `entries` holding `key`, by linear scan.
fn lookup(entries: &Vec<(String, JsonValue)>, key: &String) -> (r: Option<usize>)
    ensures
        match r {
            Some(j) => j < entries@.len() && find_key(entries@, key@, 0) == j
                && entries@[j as int].0@ == key@,
            None => find_key(entries@, key@, 0) == -1,
        },
{
    let mut j: usize = 0;
    while j < entries.len()
        invariant
            j <= entries@.len(),
            forall|k: int| 0 <= k < j ==> (#[trigger] entries@[k]).0@ != key@,
        decreases entries@.len() - j,
    {
        if entries[j].0.eq(key) {
            proof {
                lemma_find_key(entries@, key@, 0, j as int);
            }
            return Some(j);
        }
        j = j + 1;
    }
    proof {
        lemma_find_key(entries@, key@, 0, entries@.len() as int);
    }
    None
}

/// Decides [`equiv`] on two well-formed syntax values.
pub fn compare_values(a: &JsonValue, b: &JsonValue) -> (r: bool)
    requires
        a.wf(),
        b.wf(),
    ensures
        r == equiv(*a, *b),
    decreases *a, 0int,
{
    match (a, b) {
        (JsonValue::Null, JsonValue::Null) => true,
        (JsonValue::Boolean(x), JsonValue::Boolean(y)) => *x == *y,
        (JsonValue::Number(x), JsonValue::Number(y)) => x.repr.eq(&y.repr),
        (JsonValue::String(x), JsonValue::String(y)) => x.eq(y),
        (JsonValue::Array(x), JsonValue::Array(y)) => {
            proof {
                assert(decreases_to!(*a => (*a)->Array_0));
                assert((*a)->Array_0 == *x);
                assert(decreases_to!(*x => x@));
            }
            compare_arrays(x, y)
        },
        (JsonValue::Object(x), JsonValue::Object(y)) => {
            proof {
                assert(decreases_to!(*a => (*a)->Object_0));
                assert((*a)->Object_0 == *x);
                assert(decreases_to!(*x => x@));
            }
            compare_objects(x, y)
        },
        _ => false,
    }
}

fn compare_arrays(x: &Vec<JsonValue>, y: &Vec<JsonValue>) -> (r: bool)
    requires
        forall|k: int| 0 <= k < x@.len() ==> (#[trigger] x@[k]).wf(),
        forall|k: int| 0 <= k < y@.len() ==> (#[trigger] y@[k]).wf(),
    ensures
        r == (x@.len() == y@.len() && array_equiv_from(
            x@,
            y@,
            Seq::new(y@.len(), |k: int| false),
            0,
        )),
    decreases x@, 1int,
{
    if x.len() != y.len() {
        return false;
    }
    let mut used: Vec<bool> = Vec::new();
    let mut t: usize = 0;
    while t < y.len()
        invariant
            t <= y@.len(),
            used@.len() == t,
            forall|k: int| 0 <= k < t ==> !(#[trigger] used@[k]),
        decreases y@.len() - t,
    {
        used.push(false);
        t = t + 1;
    }
    proof {
        assert(used@ =~= Seq::new(y@.len(), |k: int| false));
    }
    let ghost used0 = used@;
    let mut i: usize = 0;
    while i < x.len()
        invariant
            x@.len() == y@.len(),
            used@.len() == y@.len(),
            i <= x@.len(),
            forall|k: int| 0 <= k < x@.len() ==> (#[trigger] x@[k]).wf(),
            forall|k: int| 0 <= k < y@.len() ==> (#[trigger] y@[k]).wf(),
            array_equiv_from(x@, y@, used0, 0) == array_equiv_from(x@, y@, used@, i as int),
            used0 == Seq::new(y@.len(), |k: int| false),
        decreases x@.len() - i,
    {
        let mut j: usize = 0;
        let mut found: bool = false;
        while !found && j < y.len()
            invariant
                x@.len() == y@.len(),
                used@.len() == y@.len(),
                i < x@.len(),
                j <= y@.len(),
                forall|k: int| 0 <= k < x@.len() ==> (#[trigger] x@[k]).wf(),
                forall|k: int| 0 <= k < y@.len() ==> (#[trigger] y@[k]).wf(),
                forall|k: int| 0 <= k < j ==> !(!used@[k] && equiv(x@[i as int], #[trigger] y@[k])),
                found ==> j < y@.len() && !used@[j as int] && equiv(x@[i as int], y@[j as int]),
            decreases (if found { 0int } else { 1int }), y@.len() - j,
        {
            if !used[j] && compare_values(&x[i], &y[j]) {
                found = true;
            } else {
                j = j + 1;
            }
        }
        if found {
            proof {
                lemma_first_match(x@, y@, used@, i as int, 0, j as int);
            }
            used.set(j, true);
            i = i + 1;
        } else {
            proof {
                lemma_first_match(x@, y@, used@, i as int, 0, y@.len() as int);
                assert(!array_equiv_from(x@, y@, used@, i as int));
            }
            return false;
        }
    }
    true
}

fn compare_objects(x: &Vec<(String, JsonValue)>, y: &Vec<(String, JsonValue)>) -> (r: bool)
    requires
        unique_keys(x@),
        unique_keys(y@),
        forall|k: int| 0 <= k < x@.len() ==> (#[trigger] x@[k]).1.wf(),
        forall|k: int| 0 <= k < y@.len() ==> (#[trigger] y@[k]).1.wf(),
    ensures
        r == (x@.len() == y@.len() && forall|i: int|
            0 <= i < x@.len() ==> entry_matches(#[trigger] x@[i], y@)),
    decreases x@, 1int,
{
    if x.len() != y.len() {
        return false;
    }
    let mut i: usize = 0;
    while i < x.len()
        invariant
            x@.len() == y@.len(),
            i <= x@.len(),
            unique_keys(x@),
            unique_keys(y@),
            forall|k: int| 0 <= k < x@.len() ==> (#[trigger] x@[k]).1.wf(),
            forall|k: int| 0 <= k < y@.len() ==> (#[trigger] y@[k]).1.wf(),
            forall|k: int| 0 <= k < i ==> entry_matches(#[trigger] x@[k], y@),
        decreases x@.len() - i,
    {
        match lookup(y, &x[i].0) {
            None => {
                proof {
                    assert(!entry_matches(x@[i as int], y@));
                }
                return false;
            },
            Some(j) => {
                proof {
                    assert(decreases_to!(x@ => x@[i as int]));
                    assert(decreases_to!(x@[i as int] => x@[i as int].1));
                }
                if compare_values(&x[i].1, &y[j].1) {
                    proof {
                        assert(entry_matches(x@[i as int], y@));
                    }
                    i = i + 1;
                } else {
                    proof {
                        assert(!entry_matches(x@[i as int], y@));
                    }
                    return false;
                }
            },
        }
    }
    true
}

/// JSON-LD comparison.
pub trait Compare {
    /// The inputs on which comparison is defined: upstream construction
    /// must hand the engine structurally valid documents.
    spec fn cmp_wf(&self) -> bool;

    /// The equivalence that `compare` decides.
    spec fn equivalent(&self, other: &Self) -> bool;

    /// Decides whether `self` and `other` are semantically equal.
    fn compare(&self, other: &Self) -> (r: bool)
        requires
            self.cmp_wf(),
            other.cmp_wf(),
        ensures
            r == self.equivalent(other),
    ;
}

impl Compare for JsonValue {
    open spec fn cmp_wf(&self) -> bool {
        self.wf()
    }

    open spec fn equivalent(&self, other: &Self) -> bool {
        equiv(*self, *other)
    }

    fn compare(&self, other: &Self) -> (r: bool) {
        compare_values(self, other)
    }
}

/// Comparison is reflexive: every well-formed syntax value, however deeply
/// nested, is equivalent to itself.
pub proof fn lemma_compare_reflexive(x: JsonValue)
    requires
        x.wf(),
    ensures
        equiv(x, x),
    decreases x,
{
    match x {
        JsonValue::Array(items) => {
            assert forall|k: int| 0 <= k < items@.len() implies equiv(
                #[trigger] items@[k],
                items@[k],
            ) by {
                assert(decreases_to!(x => x->Array_0));
                assert(x->Array_0 == items);
                assert(decreases_to!(items => items@));
                lemma_compare_reflexive(items@[k]);
            }
            lemma_array_reflexive_step(items@, 0);
            assert(Seq::new(items@.len(), |k: int| k < 0) =~= Seq::new(
                items@.len(),
                |k: int| false,
            ));
        },
        JsonValue::Object(entries) => {
            assert forall|i: int| 0 <= i < entries@.len() implies entry_matches(
                #[trigger] entries@[i],
                entries@,
            ) by {
                lemma_find_key(entries@, entries@[i].0@, 0, i);
                assert(decreases_to!(x => x->Object_0));
                assert(x->Object_0 == entries);
                assert(decreases_to!(entries => entries@));
                lemma_compare_reflexive(entries@[i].1);
            }
        },
        _ => {},
    }
}

proof fn lemma_array_reflexive_step(a: Seq<JsonValue>, i: int)
    requires
        0 <= i <= a.len(),
        forall|k: int| 0 <= k < a.len() ==> equiv(#[trigger] a[k], a[k]),
    ensures
        array_equiv_from(a, a, Seq::new(a.len(), |k: int| k < i), i),
    decreases a.len() - i,
{
    if i < a.len() {
        let used = Seq::new(a.len(), |k: int| k < i);
        lemma_first_match(a, a, used, i, 0, i);
        lemma_array_reflexive_step(a, i + 1);
        assert(used.update(i, true) =~= Seq::new(a.len(), |k: int| k < i + 1));
    }
}

} // verus!
