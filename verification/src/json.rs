//! JSON values as the library reads them.
//!
//! A `JsonValue` holds what a `serde_json::Value` holds: numbers keep the
//! representation serde_json gives them (non-negative integer, negative integer,
//! or binary64), objects are lists of entries.
use crate::float_bits::FloatBits;
use vstd::prelude::*;

verus! {

/// A JSON number: a non-negative integer, a negative integer, or a binary64
/// value (as its bit pattern).
#[derive(Clone, Copy, Debug, PartialEq, Eq, Structural)]
pub enum JsonNumber {
    PosInt(u64),
    NegInt(i64),
    Float(FloatBits),
}

/// A JSON value. (The derived `==` compares numbers by representation and
/// bit pattern; `json_equal` compares as serde_json does.)
#[derive(Debug, PartialEq)]
pub enum JsonValue {
    Null,
    Bool(bool),
    Number(JsonNumber),
    String(String),
    Array(Vec<JsonValue>),
    Object(Vec<(String, JsonValue)>),
}

/// Equality of numbers as serde_json compares them: same representation, and
/// for binary64 values numeric equality.
pub open spec fn number_eq(a: JsonNumber, b: JsonNumber) -> bool {
    match (a, b) {
        (JsonNumber::PosInt(x), JsonNumber::PosInt(y)) => x == y,
        (JsonNumber::NegInt(x), JsonNumber::NegInt(y)) => x == y,
        (JsonNumber::Float(x), JsonNumber::Float(y)) => x.spec_num_eq(y),
        _ => false,
    }
}

/// The first entry of `entries` with key `k`.
pub open spec fn first_entry(entries: Seq<(String, JsonValue)>, k: Seq<char>) -> Option<JsonValue> {
    if exists|j: int| 0 <= j < entries.len() && #[trigger] entries[j].0@ == k {
        let j = choose|j: int|
            0 <= j < entries.len() && #[trigger] entries[j].0@ == k && forall|l: int|
                0 <= l < j ==> #[trigger] entries[l].0@ != k;
        Some(entries[j].1)
    } else {
        None
    }
}

/// Equality of JSON values as `serde_json::Value` compares them. Objects are
/// equal when they have as many entries and each entry of the first has an
/// equal value under the same key in the second (for objects with distinct
/// keys, as serde_json's are, this is map equality).
pub open spec fn json_eq(a: JsonValue, b: JsonValue) -> bool
    decreases a,
{
    match a {
        JsonValue::Null => b is Null,
        JsonValue::Bool(x) => b matches JsonValue::Bool(y) && x == y,
        JsonValue::Number(x) => b matches JsonValue::Number(y) && number_eq(x, y),
        JsonValue::String(x) => b matches JsonValue::String(y) && x@ == y@,
        JsonValue::Array(xs) => match b {
            JsonValue::Array(ys) => xs@.len() == ys@.len() && forall|i: int|
                0 <= i < xs@.len() ==> json_eq(#[trigger] xs@[i], ys@[i]),
            _ => false,
        },
        JsonValue::Object(xs) => match b {
            JsonValue::Object(ys) => xs@.len() == ys@.len() && forall|i: int|
                0 <= i < xs@.len() ==> match first_entry(ys@, #[trigger] xs@[i].0@) {
                    Some(v) => json_eq(xs@[i].1, v),
                    None => false,
                },
            _ => false,
        },
    }
}

/// `b` is an exact copy of `a`: same shape, same texts, same numbers.
pub open spec fn json_same(a: JsonValue, b: JsonValue) -> bool
    decreases a,
{
    match a {
        JsonValue::Null => b is Null,
        JsonValue::Bool(x) => b matches JsonValue::Bool(y) && x == y,
        JsonValue::Number(x) => b matches JsonValue::Number(y) && x == y,
        JsonValue::String(x) => b matches JsonValue::String(y) && x@ == y@,
        JsonValue::Array(xs) => match b {
            JsonValue::Array(ys) => xs@.len() == ys@.len() && forall|i: int|
                0 <= i < xs@.len() ==> json_same(#[trigger] xs@[i], ys@[i]),
            _ => false,
        },
        JsonValue::Object(xs) => match b {
            JsonValue::Object(ys) => xs@.len() == ys@.len() && forall|i: int|
                #![trigger xs@[i]]
                0 <= i < xs@.len() ==> xs@[i].0@ == ys@[i].0@ && json_same(xs@[i].1, ys@[i].1),
            _ => false,
        },
    }
}

/// The first entry with key `k`, found by a scan.
fn find_entry<'a>(entries: &'a Vec<(String, JsonValue)>, k: &String) -> (r: Option<&'a JsonValue>)
    ensures
        r matches Some(v) ==> first_entry(entries@, k@) == Some(*v),
        r is None ==> first_entry(entries@, k@) is None,
{
    let n = entries.len();
    let mut j: usize = 0;
    while j < n
        invariant
            n == entries@.len(),
            j <= n,
            forall|l: int| 0 <= l < j ==> #[trigger] entries@[l].0@ != k@,
        decreases n - j,
    {
        if entries[j].0 == *k {
            proof {
                let jj = j as int;
                assert(0 <= jj < entries@.len() && entries@[jj].0@ == k@);
                let c = choose|c: int|
                    0 <= c < entries@.len() && #[trigger] entries@[c].0@ == k@ && forall|l: int|
                        0 <= l < c ==> #[trigger] entries@[l].0@ != k@;
                if c < jj {
                    assert(entries@[c].0@ != k@);
                }
                if c > jj {
                    assert(entries@[jj].0@ != k@);
                }
            }
            return Some(&entries[j].1);
        }
        j = j + 1;
    }
    None
}

fn number_equal(a: &JsonNumber, b: &JsonNumber) -> (r: bool)
    ensures
        r == number_eq(*a, *b),
{
    match (a, b) {
        (JsonNumber::PosInt(x), JsonNumber::PosInt(y)) => *x == *y,
        (JsonNumber::NegInt(x), JsonNumber::NegInt(y)) => *x == *y,
        (JsonNumber::Float(x), JsonNumber::Float(y)) => x.num_eq(y),
        _ => false,
    }
}

/// Whether two values are equal as `serde_json::Value`s (`==`).
pub fn json_equal(a: &JsonValue, b: &JsonValue) -> (r: bool)
    ensures
        r == json_eq(*a, *b),
    decreases a,
{
    match a {
        JsonValue::Null => matches!(b, JsonValue::Null),
        JsonValue::Bool(x) => match b {
            JsonValue::Bool(y) => *x == *y,
            _ => false,
        },
        JsonValue::Number(x) => match b {
            JsonValue::Number(y) => number_equal(x, y),
            _ => false,
        },
        JsonValue::String(x) => match b {
            JsonValue::String(y) => *x == *y,
            _ => false,
        },
        JsonValue::Array(xs) => match b {
            JsonValue::Array(ys) => {
                if xs.len() != ys.len() {
                    return false;
                }
                let n = xs.len();
                let mut i: usize = 0;
                proof {
                    assert forall|j: int| 0 <= j < xs@.len() implies decreases_to!(*a => #[trigger] xs@[j]) by {
                        assert(decreases_to!(*a => *xs));
                        assert(decreases_to!(*xs => xs@[j]));
                    }
                }
                while i < n
                    invariant
                        forall|j: int| 0 <= j < xs@.len() ==> decreases_to!(*a => #[trigger] xs@[j]),
                        *a == JsonValue::Array(*xs),
                        *b == JsonValue::Array(*ys),
                        n == xs@.len(),
                        n == ys@.len(),
                        i <= n,
                        forall|j: int| 0 <= j < i ==> json_eq(#[trigger] xs@[j], ys@[j]),
                    decreases n - i,
                {
                    if !json_equal(&xs[i], &ys[i]) {
                        return false;
                    }
                    i = i + 1;
                }
                true
            },
            _ => false,
        },
        JsonValue::Object(xs) => match b {
            JsonValue::Object(ys) => {
                if xs.len() != ys.len() {
                    return false;
                }
                let n = xs.len();
                let mut i: usize = 0;
                proof {
                    assert forall|j: int| 0 <= j < xs@.len() implies decreases_to!(*a => #[trigger] xs@[j].1) by {
                        assert(decreases_to!(*a => *xs));
                        assert(decreases_to!(*xs => xs@[j]));
                        assert(decreases_to!(xs@[j] => xs@[j].1));
                    }
                }
                while i < n
                    invariant
                        forall|j: int| 0 <= j < xs@.len() ==> decreases_to!(*a => #[trigger] xs@[j].1),
                        *a == JsonValue::Object(*xs),
                        *b == JsonValue::Object(*ys),
                        n == xs@.len(),
                        n == ys@.len(),
                        i <= n,
                        forall|j: int|
                            0 <= j < i ==> match first_entry(ys@, #[trigger] xs@[j].0@) {
                                Some(v) => json_eq(xs@[j].1, v),
                                None => false,
                            },
                    decreases n - i,
                {
                    match find_entry(ys, &xs[i].0) {
                        None => {
                            return false;
                        },
                        Some(v) => {
                            if !json_equal(&xs[i].1, v) {
                                return false;
                            }
                        },
                    }
                    i = i + 1;
                }
                true
            },
            _ => false,
        },
    }
}

impl Clone for JsonValue {
    /// An exact copy (see `deep_copy`).
    fn clone(&self) -> (r: Self)
        ensures
            json_same(*self, r),
    {
        self.deep_copy()
    }
}

impl JsonValue {
    /// An exact copy of the value.
    pub fn deep_copy(&self) -> (r: JsonValue)
        ensures
            json_same(*self, r),
        decreases self,
    {
        match self {
            JsonValue::Null => JsonValue::Null,
            JsonValue::Bool(x) => {
                let r = JsonValue::Bool(*x);
                assert(json_same(*self, r));
                r
            },
            JsonValue::Number(x) => {
                let r = JsonValue::Number(*x);
                assert(json_same(*self, r));
                r
            },
            JsonValue::String(x) => {
                let r = JsonValue::String(x.clone());
                assert(json_same(*self, r));
                r
            },
            JsonValue::Array(xs) => {
                let n = xs.len();
                let mut ys: Vec<JsonValue> = Vec::new();
                let mut i: usize = 0;
                proof {
                    assert forall|j: int| 0 <= j < xs@.len() implies decreases_to!(*self => #[trigger] xs@[j]) by {
                        assert(decreases_to!(*self => *xs));
                        assert(decreases_to!(*xs => xs@[j]));
                    }
                }
                while i < n
                    invariant
                        forall|j: int| 0 <= j < xs@.len() ==> decreases_to!(*self => #[trigger] xs@[j]),
                        *self == JsonValue::Array(*xs),
                        n == xs@.len(),
                        i <= n,
                        ys@.len() == i,
                        forall|j: int| 0 <= j < i ==> json_same(#[trigger] xs@[j], ys@[j]),
                    decreases n - i,
                {
                    ys.push(xs[i].deep_copy());
                    i = i + 1;
                }
                let r = JsonValue::Array(ys);
                assert(json_same(*self, r));
                r
            },
            JsonValue::Object(xs) => {
                let n = xs.len();
                let mut ys: Vec<(String, JsonValue)> = Vec::new();
                let mut i: usize = 0;
                proof {
                    assert forall|j: int| 0 <= j < xs@.len() implies decreases_to!(*self => #[trigger] xs@[j].1) by {
                        assert(decreases_to!(*self => *xs));
                        assert(decreases_to!(*xs => xs@[j]));
                        assert(decreases_to!(xs@[j] => xs@[j].1));
                    }
                }
                while i < n
                    invariant
                        forall|j: int| 0 <= j < xs@.len() ==> decreases_to!(*self => #[trigger] xs@[j].1),
                        *self == JsonValue::Object(*xs),
                        n == xs@.len(),
                        i <= n,
                        ys@.len() == i,
                        forall|j: int|
                            #![trigger xs@[j]]
                            0 <= j < i ==> xs@[j].0@ == ys@[j].0@ && json_same(xs@[j].1, ys@[j].1),
                    decreases n - i,
                {
                    let v = xs[i].1.deep_copy();
                    ys.push((xs[i].0.clone(), v));
                    i = i + 1;
                }
                let r = JsonValue::Object(ys);
                assert(json_same(*self, r));
                r
            },
        }
    }

    /// A string value.
    pub fn text(s: &str) -> (r: JsonValue)
        ensures
            r matches JsonValue::String(t) && t@ == s@,
    {
        JsonValue::String(String::from_str(s))
    }
}

/// A value as serde_json builds them: no NaN among its numbers, and no key
/// twice in any of its objects.
pub open spec fn json_wf(v: JsonValue) -> bool
    decreases v,
{
    match v {
        JsonValue::Number(JsonNumber::Float(f)) => !f.spec_is_nan(),
        JsonValue::Array(xs) => forall|i: int| 0 <= i < xs@.len() ==> json_wf(#[trigger] xs@[i]),
        JsonValue::Object(xs) => (forall|i: int, j: int|
            0 <= i < j < xs@.len() ==> (#[trigger] xs@[i]).0@ != (#[trigger] xs@[j]).0@) && forall|
            i: int,
        |
            #![trigger xs@[i]]
            0 <= i < xs@.len() ==> json_wf(xs@[i].1),
        _ => true,
    }
}

/// Every well-formed value equals itself.
pub proof fn law_json_eq_reflexive(v: JsonValue)
    requires
        json_wf(v),
    ensures
        json_eq(v, v),
    decreases v,
{
    match v {
        JsonValue::Array(xs) => {
            assert forall|i: int| 0 <= i < xs@.len() implies json_eq(#[trigger] xs@[i], xs@[i]) by {
                assert(decreases_to!(v => v->Array_0));
                assert(decreases_to!(v->Array_0 => xs@[i]));
                law_json_eq_reflexive(xs@[i]);
            }
        },
        JsonValue::Object(xs) => {
            assert forall|i: int| 0 <= i < xs@.len() implies match first_entry(
                xs@,
                #[trigger] xs@[i].0@,
            ) {
                Some(w) => json_eq(xs@[i].1, w),
                None => false,
            } by {
                let k = xs@[i].0@;
                assert(xs@[i].0@ == k);
                let c = choose|c: int|
                    0 <= c < xs@.len() && #[trigger] xs@[c].0@ == k && forall|l: int|
                        0 <= l < c ==> #[trigger] xs@[l].0@ != k;
                if c != i {
                    if c < i {
                        assert(xs@[c].0@ != xs@[i].0@);
                    } else {
                        assert(xs@[i].0@ != k);
                    }
                }
                assert(decreases_to!(v => v->Object_0));
                assert(decreases_to!(v->Object_0 => xs@[i]));
                assert(decreases_to!(xs@[i] => xs@[i].1));
                law_json_eq_reflexive(xs@[i].1);
            }
        },
        JsonValue::Number(n) => {
            if let JsonNumber::Float(f) = n {
                assert(f.spec_num_eq(f));
            }
        },
        _ => {},
    }
}

/// Scalars are equal exactly when they hold the same value: booleans and
/// strings by value, integers by value within the same representation,
/// binary64 numbers numerically; values of different kinds never are.
pub proof fn law_json_eq_scalars(
    x: bool,
    y: bool,
    a: String,
    b: String,
    i: u64,
    j: u64,
    p: i64,
    q: i64,
    f: FloatBits,
    g: FloatBits,
    v: JsonValue,
    w: JsonValue,
)
    ensures
        json_eq(JsonValue::Bool(x), JsonValue::Bool(y)) <==> x == y,
        json_eq(JsonValue::String(a), JsonValue::String(b)) <==> a@ == b@,
        json_eq(JsonValue::Null, w) <==> w is Null,
        json_eq(JsonValue::Number(JsonNumber::PosInt(i)), JsonValue::Number(JsonNumber::PosInt(j)))
            <==> i == j,
        json_eq(JsonValue::Number(JsonNumber::NegInt(p)), JsonValue::Number(JsonNumber::NegInt(q)))
            <==> p == q,
        json_eq(JsonValue::Number(JsonNumber::Float(f)), JsonValue::Number(JsonNumber::Float(g)))
            <==> f.spec_num_eq(g),
        !json_eq(JsonValue::Number(JsonNumber::PosInt(i)), JsonValue::Number(JsonNumber::Float(g))),
        !json_eq(JsonValue::Number(JsonNumber::PosInt(i)), JsonValue::Number(JsonNumber::NegInt(q))),
        json_eq(v, w) ==> (v is Null <==> w is Null) && (v is Bool <==> w is Bool) && (v is Number
            <==> w is Number) && (v is String <==> w is String) && (v is Array <==> w is Array) && (
        v is Object <==> w is Object),
{
}

/// Two one-entry objects are equal exactly when they have the same key and
/// equal values; arrays of different lengths never are.
pub proof fn law_json_eq_small_containers(
    a: Vec<(String, JsonValue)>,
    b: Vec<(String, JsonValue)>,
    xs: Vec<JsonValue>,
    ys: Vec<JsonValue>,
)
    ensures
        a@.len() == 1 && b@.len() == 1 ==> (json_eq(JsonValue::Object(a), JsonValue::Object(b))
            <==> a@[0].0@ == b@[0].0@ && json_eq(a@[0].1, b@[0].1)),
        a@.len() != b@.len() ==> !json_eq(JsonValue::Object(a), JsonValue::Object(b)),
        xs@.len() != ys@.len() ==> !json_eq(JsonValue::Array(xs), JsonValue::Array(ys)),
{
    if a@.len() == 1 && b@.len() == 1 {
        let k = a@[0].0@;
        if b@[0].0@ == k {
            assert(first_entry(b@, k) == Some(b@[0].1));
        } else {
            assert(first_entry(b@, k) is None);
        }
    }
}

} // verus!
