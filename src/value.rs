//! Scalar values and the JSON model that rows and client payloads are made of.

use vstd::prelude::*;

verus! {

/// Bit pattern of the negative zero double, which is also the sign bit.
pub const SIGN_BIT: u64 = 0x8000_0000_0000_0000;

/// A JSON number: an integer, or a finite double held by its IEEE-754 bits.
#[derive(Debug, Clone, Copy, PartialEq, Eq, Structural)]
pub enum Number {
    Int(i64),
    Float(u64),
}

/// Key under which finite doubles compare as numbers do: both zeros map to
/// the same key, and the order of keys is the numeric order.
pub open spec fn float_key(bits: u64) -> u64 {
    if bits == SIGN_BIT {
        SIGN_BIT
    } else if bits > SIGN_BIT {
        (u64::MAX - bits) as u64
    } else {
        (bits + SIGN_BIT) as u64
    }
}

pub fn float_order_key(bits: u64) -> (r: u64)
    ensures
        r == float_key(bits),
{
    if bits == SIGN_BIT {
        SIGN_BIT
    } else if bits > SIGN_BIT {
        u64::MAX - bits
    } else {
        bits + SIGN_BIT
    }
}

/// A JSON value.
#[derive(Debug)]
pub enum JsonValue {
    Null,
    Bool(bool),
    Number(Number),
    String(String),
    Array(Vec<JsonValue>),
    Object(JsonObject),
}

/// A JSON object: its entries in order.
#[derive(Debug)]
pub struct JsonObject {
    pub entries: Vec<(String, JsonValue)>,
}

} // verus!

verus! {

/// A value that can be bound to a SQL parameter.
#[derive(Debug, Clone)]
pub enum FinalType {
    Number(Number),
    String(String),
    Bool(bool),
    Null,
}

/// The right operand of a constraint: one scalar, or a list for `in`.
#[derive(Debug, Clone)]
pub enum ConstraintValue {
    Final(FinalType),
    List(Vec<FinalType>),
}

/// Conversion failures between JSON values and the library's types.
#[derive(Debug)]
pub enum DeserializeError {
    /// The JSON value cannot stand for a scalar.
    IncompatibleValue(JsonValue),
    /// The JSON value was expected to be an object.
    IncompatibleMap(JsonValue),
}

/// The scalar a JSON value stands for; arrays and objects stand for none.
pub open spec fn scalar_of(v: JsonValue) -> Option<FinalType> {
    match v {
        JsonValue::Null => Some(FinalType::Null),
        JsonValue::Bool(b) => Some(FinalType::Bool(b)),
        JsonValue::Number(n) => Some(FinalType::Number(n)),
        JsonValue::String(s) => Some(FinalType::String(s)),
        _ => None,
    }
}

/// Strict lexicographic order on character sequences, from position `i` on.
pub open spec fn lex_less_from(a: Seq<char>, b: Seq<char>, i: int) -> bool
    decreases a.len() - i,
{
    if i < 0 || i >= a.len() {
        0 <= i < b.len()
    } else if i >= b.len() {
        false
    } else if a[i] != b[i] {
        (a[i] as u32) < (b[i] as u32)
    } else {
        lex_less_from(a, b, i + 1)
    }
}

/// Strict lexicographic order on strings, by code point.
pub open spec fn lex_less(a: Seq<char>, b: Seq<char>) -> bool {
    lex_less_from(a, b, 0)
}

/// `a = b` on scalars: same kind and same value; numbers of different kinds
/// are unequal, and `Null` equals `Null`.
pub open spec fn scalar_eq(a: FinalType, b: FinalType) -> bool {
    match (a, b) {
        (FinalType::Number(Number::Int(x)), FinalType::Number(Number::Int(y))) => x == y,
        (FinalType::Number(Number::Float(x)), FinalType::Number(Number::Float(y))) => float_key(x)
            == float_key(y),
        (FinalType::String(s), FinalType::String(t)) => s@ == t@,
        (FinalType::Bool(x), FinalType::Bool(y)) => x == y,
        (FinalType::Null, FinalType::Null) => true,
        _ => false,
    }
}

/// `a < b` on scalars of the same kind; values of different kinds, and
/// nulls, are not ordered.
pub open spec fn scalar_lt(a: FinalType, b: FinalType) -> bool {
    match (a, b) {
        (FinalType::Number(Number::Int(x)), FinalType::Number(Number::Int(y))) => x < y,
        (FinalType::Number(Number::Float(x)), FinalType::Number(Number::Float(y))) => float_key(x)
            < float_key(y),
        (FinalType::String(s), FinalType::String(t)) => lex_less(s@, t@),
        (FinalType::Bool(x), FinalType::Bool(y)) => !x && y,
        _ => false,
    }
}

/// Whether `a` comes strictly before `b` in lexicographic order.
pub fn string_less(a: &String, b: &String) -> (r: bool)
    ensures
        r == lex_less(a@, b@),
{
    let x = crate::text::chars_of(a.as_str());
    let y = crate::text::chars_of(b.as_str());
    let mut i: usize = 0;
    while i < x.len() && i < y.len() && x[i] == y[i]
        invariant
            x@ == a@,
            y@ == b@,
            i <= x.len(),
            i <= y.len(),
            lex_less(a@, b@) == lex_less_from(a@, b@, i as int),
        decreases x.len() - i,
    {
        i = i + 1;
    }
    if i >= x.len() {
        i < y.len()
    } else if i >= y.len() {
        false
    } else {
        (x[i] as u32) < (y[i] as u32)
    }
}

impl FinalType {
    /// A copy of this scalar.
    pub fn duplicate(&self) -> (r: FinalType)
        ensures
            r == *self,
    {
        match self {
            FinalType::Number(n) => FinalType::Number(*n),
            FinalType::String(s) => FinalType::String(s.clone()),
            FinalType::Bool(b) => FinalType::Bool(*b),
            FinalType::Null => FinalType::Null,
        }
    }

    /// The scalar a JSON value stands for: numbers, strings, booleans and
    /// null convert; arrays and objects are refused.
    pub fn try_from(value: JsonValue) -> (r: Result<FinalType, DeserializeError>)
        ensures
            match scalar_of(value) {
                Some(s) => r == Ok::<FinalType, DeserializeError>(s),
                None => r == Err::<FinalType, DeserializeError>(
                    DeserializeError::IncompatibleValue(value),
                ),
            },
    {
        match value {
            JsonValue::Null => Ok(FinalType::Null),
            JsonValue::Bool(b) => Ok(FinalType::Bool(b)),
            JsonValue::Number(n) => Ok(FinalType::Number(n)),
            JsonValue::String(s) => Ok(FinalType::String(s)),
            value => Err(DeserializeError::IncompatibleValue(value)),
        }
    }

    /// Like `try_from`, reading the JSON value in place.
    pub fn from_json_ref(value: &JsonValue) -> (r: Option<FinalType>)
        ensures
            r == scalar_of(*value),
    {
        match value {
            JsonValue::Null => Some(FinalType::Null),
            JsonValue::Bool(b) => Some(FinalType::Bool(*b)),
            JsonValue::Number(n) => Some(FinalType::Number(*n)),
            JsonValue::String(s) => Some(FinalType::String(s.clone())),
            _ => None,
        }
    }

    /// `self = other`.
    pub fn equals(&self, other: &FinalType) -> (r: bool)
        ensures
            r == scalar_eq(*self, *other),
    {
        match (self, other) {
            (FinalType::Number(Number::Int(x)), FinalType::Number(Number::Int(y))) => *x == *y,
            (FinalType::Number(Number::Float(x)), FinalType::Number(Number::Float(y))) => {
                float_order_key(*x) == float_order_key(*y)
            },
            (FinalType::String(s), FinalType::String(t)) => s.eq(t),
            (FinalType::Bool(x), FinalType::Bool(y)) => *x == *y,
            (FinalType::Null, FinalType::Null) => true,
            _ => false,
        }
    }

    /// `self < other`.
    pub fn less_than(&self, other: &FinalType) -> (r: bool)
        ensures
            r == scalar_lt(*self, *other),
    {
        match (self, other) {
            (FinalType::Number(Number::Int(x)), FinalType::Number(Number::Int(y))) => *x < *y,
            (FinalType::Number(Number::Float(x)), FinalType::Number(Number::Float(y))) => {
                float_order_key(*x) < float_order_key(*y)
            },
            (FinalType::String(s), FinalType::String(t)) => string_less(s, t),
            (FinalType::Bool(x), FinalType::Bool(y)) => !*x && *y,
            _ => false,
        }
    }

    /// `self > other`.
    pub fn greater_than(&self, other: &FinalType) -> (r: bool)
        ensures
            r == scalar_lt(*other, *self),
    {
        other.less_than(self)
    }

    /// `self <= other`.
    pub fn less_than_or_equal(&self, other: &FinalType) -> (r: bool)
        ensures
            r == (scalar_lt(*self, *other) || scalar_eq(*self, *other)),
    {
        self.less_than(other) || self.equals(other)
    }

    /// `self >= other`.
    pub fn greater_than_or_equal(&self, other: &FinalType) -> (r: bool)
        ensures
            r == (scalar_lt(*other, *self) || scalar_eq(*self, *other)),
    {
        self.greater_than(other) || self.equals(other)
    }
}

/// The object a JSON value holds.
pub fn object_from_value(value: JsonValue) -> (r: Result<JsonObject, DeserializeError>)
    ensures
        match value {
            JsonValue::Object(o) => r == Ok::<JsonObject, DeserializeError>(o),
            _ => r == Err::<JsonObject, DeserializeError>(DeserializeError::IncompatibleMap(value)),
        },
{
    match value {
        JsonValue::Object(o) => Ok(o),
        value => Err(DeserializeError::IncompatibleMap(value)),
    }
}

/// The objects of a JSON array, in order. A value that is not an array is an
/// incompatible value; the first element that is not an object is reported.
pub fn object_array_from_value(value: JsonValue) -> (r: Result<Vec<JsonObject>, DeserializeError>)
    ensures
        match value {
            JsonValue::Array(items) => {
                &&& (r is Ok <==> forall|i: int|
                    0 <= i < items@.len() ==> (#[trigger] items@[i]) is Object)
                &&& r is Ok ==> {
                    &&& r->Ok_0@.len() == items@.len()
                    &&& forall|i: int|
                        0 <= i < items@.len() ==> JsonValue::Object(#[trigger] r->Ok_0@[i])
                            == items@[i]
                }
                &&& r is Err ==> exists|k: int|
                    {
                        &&& 0 <= k < items@.len()
                        &&& !(#[trigger] items@[k] is Object)
                        &&& forall|i: int| 0 <= i < k ==> (#[trigger] items@[i]) is Object
                        &&& r == Err::<Vec<JsonObject>, DeserializeError>(
                            DeserializeError::IncompatibleMap(items@[k]),
                        )
                    }
            },
            _ => r == Err::<Vec<JsonObject>, DeserializeError>(
                DeserializeError::IncompatibleValue(value),
            ),
        },
{
    let ghost input = value;
    match value {
        JsonValue::Array(items) => {
            let ghost all = items@;
            let mut rest = items;
            let mut objects: Vec<JsonObject> = Vec::new();
            while rest.len() > 0
                invariant
                    input == value,
                    input is Array,
                    input->Array_0@ == all,
                    objects@.len() + rest@.len() == all.len(),
                    rest@ == all.subrange(objects@.len() as int, all.len() as int),
                    forall|i: int|
                        0 <= i < objects@.len() ==> JsonValue::Object(#[trigger] objects@[i])
                            == all[i],
                decreases rest.len(),
            {
                let ghost k = objects@.len() as int;
                let item = rest.remove(0);
                assert(item == all[k]);
                match item {
                    JsonValue::Object(o) => {
                        objects.push(o);
                    },
                    other => {
                        assert(!(all[k] is Object));
                        assert(forall|i: int| 0 <= i < k ==> (#[trigger] all[i]) is Object) by {
                            assert forall|i: int| 0 <= i < k implies (#[trigger] all[i]) is Object by {
                                assert(JsonValue::Object(objects@[i]) == all[i]);
                            }
                        }
                        let r = Err(DeserializeError::IncompatibleMap(other));
                        assert(0 <= k < all.len() && !(all[k] is Object) && (forall|i: int|
                            0 <= i < k ==> (#[trigger] all[i]) is Object) && r == Err::<
                            Vec<JsonObject>,
                            DeserializeError,
                        >(DeserializeError::IncompatibleMap(all[k])));
                        assert(!(forall|i: int| 0 <= i < all.len() ==> (#[trigger] all[i]) is Object));
                        return r;
                    },
                }
                assert(rest@ =~= all.subrange(objects@.len() as int, all.len() as int));
            }
            assert(forall|i: int| 0 <= i < all.len() ==> (#[trigger] all[i]) is Object) by {
                assert forall|i: int| 0 <= i < all.len() implies (#[trigger] all[i]) is Object by {
                    assert(JsonValue::Object(objects@[i]) == all[i]);
                }
            }
            Ok(objects)
        },
        value => Err(DeserializeError::IncompatibleValue(value)),
    }
}

} // verus!

verus! {

/// The value stored under `key` in `entries`, searching from position `i`;
/// the first entry with that key wins.
pub open spec fn lookup_from(entries: Seq<(String, JsonValue)>, key: Seq<char>, i: int) -> Option<
    JsonValue,
>
    decreases entries.len() - i,
{
    if i < 0 || i >= entries.len() {
        None
    } else if entries[i].0@ == key {
        Some(entries[i].1)
    } else {
        lookup_from(entries, key, i + 1)
    }
}

impl JsonObject {
    /// The value stored under `key`, if any.
    pub open spec fn lookup(self, key: Seq<char>) -> Option<JsonValue> {
        lookup_from(self.entries@, key, 0)
    }

    /// The value stored under `key`, if any.
    pub fn get(&self, key: &String) -> (r: Option<&JsonValue>)
        ensures
            match r {
                Some(v) => self.lookup(key@) == Some(*v),
                None => self.lookup(key@) is None,
            },
    {
        let mut i: usize = 0;
        while i < self.entries.len()
            invariant
                i <= self.entries@.len(),
                self.lookup(key@) == lookup_from(self.entries@, key@, i as int),
            decreases self.entries.len() - i,
        {
            if self.entries[i].0.eq(key) {
                return Some(&self.entries[i].1);
            }
            i = i + 1;
        }
        None
    }
}

} // verus!

verus! {

/// The JSON value a scalar is written as.
pub open spec fn json_of(s: FinalType) -> JsonValue {
    match s {
        FinalType::Number(n) => JsonValue::Number(n),
        FinalType::String(t) => JsonValue::String(t),
        FinalType::Bool(b) => JsonValue::Bool(b),
        FinalType::Null => JsonValue::Null,
    }
}

impl FinalType {
    /// The JSON value this scalar is written as.
    pub fn into_json(self) -> (r: JsonValue)
        ensures
            r == json_of(self),
    {
        match self {
            FinalType::Number(n) => JsonValue::Number(n),
            FinalType::String(t) => JsonValue::String(t),
            FinalType::Bool(b) => JsonValue::Bool(b),
            FinalType::Null => JsonValue::Null,
        }
    }
}

/// Writing a scalar as JSON and reading it back gives the same scalar, and a
/// JSON value that reads as a scalar is written back unchanged.
pub proof fn lemma_scalar_round_trip(s: FinalType, v: JsonValue)
    ensures
        scalar_of(json_of(s)) == Some(s),
        scalar_of(v) matches Some(t) ==> json_of(t) == v,
{
}

} // verus!
