use vstd::prelude::*;

verus! {

/// A JSON document. Numbers are held as the bit pattern of their IEEE-754
/// binary64 value; an object keeps its members in order, and a lookup by key
/// takes the first member with that key.
#[derive(Debug, PartialEq)]
pub enum Json {
    Null,
    Bool(bool),
    Number(u64),
    Str(String),
    Array(Vec<Json>),
    Object(Vec<(String, Json)>),
}

/// A typed literal of a predicate. `Num` holds the bit pattern of a binary64
/// value; `Unknown` stands for an unrecognised type tag and never matches.
#[derive(Debug)]
pub enum Value {
    Num(u64),
    Str(String),
    Bool(bool),
    Unknown,
}

/// What a literal denotes: strings as character sequences.
pub enum LiteralView {
    Num(u64),
    Str(Seq<char>),
    Bool(bool),
    Unknown,
}

impl View for Value {
    type V = LiteralView;

    open spec fn view(&self) -> LiteralView {
        match self {
            Value::Num(n) => LiteralView::Num(*n),
            Value::Str(s) => LiteralView::Str(s@),
            Value::Bool(b) => LiteralView::Bool(*b),
            Value::Unknown => LiteralView::Unknown,
        }
    }
}

pub open spec fn is_nan(bits: u64) -> bool {
    (bits >> 52u64) & 0x7ffu64 == 0x7ffu64 && bits & 0xf_ffff_ffff_ffffu64 != 0
}

pub open spec fn is_zero(bits: u64) -> bool {
    bits & 0x7fff_ffff_ffff_ffffu64 == 0
}

/// Equality of two binary64 values given by their bit patterns: NaN equals
/// nothing, and the two zeros are equal.
pub open spec fn num_eq(a: u64, b: u64) -> bool {
    !is_nan(a) && !is_nan(b) && (a == b || (is_zero(a) && is_zero(b)))
}

/// Equality of binary64 values, as `==` on `f64` decides it.
pub fn num_equal(a: u64, b: u64) -> (r: bool)
    ensures
        r == num_eq(a, b),
{
    let a_nan = (a >> 52u64) & 0x7ffu64 == 0x7ffu64 && a & 0xf_ffff_ffff_ffffu64 != 0;
    let b_nan = (b >> 52u64) & 0x7ffu64 == 0x7ffu64 && b & 0xf_ffff_ffff_ffffu64 != 0;
    let zeros = a & 0x7fff_ffff_ffff_ffffu64 == 0 && b & 0x7fff_ffff_ffff_ffffu64 == 0;
    !a_nan && !b_nan && (a == b || zeros)
}

/// Equality of two literals of the same type; literals of different types,
/// and the `Unknown` literal, are never equal.
pub open spec fn value_eq(a: Value, b: Value) -> bool {
    match (a, b) {
        (Value::Num(x), Value::Num(y)) => num_eq(x, y),
        (Value::Str(x), Value::Str(y)) => x@ == y@,
        (Value::Bool(x), Value::Bool(y)) => x == y,
        _ => false,
    }
}

impl PartialEq for Value {
    fn eq(&self, other: &Value) -> (r: bool) {
        match (self, other) {
            (Value::Num(x), Value::Num(y)) => num_equal(*x, *y),
            (Value::Str(x), Value::Str(y)) => (*x).eq(y),
            (Value::Bool(x), Value::Bool(y)) => *x == *y,
            _ => false,
        }
    }
}

impl vstd::std_specs::cmp::PartialEqSpecImpl for Value {
    open spec fn obeys_eq_spec() -> bool {
        true
    }

    open spec fn eq_spec(&self, other: &Value) -> bool {
        value_eq(*self, *other)
    }
}

/// The scalar that a JSON value holds, as a literal of its type; `Unknown` for
/// null, arrays and objects.
pub open spec fn scalar_of(j: Json) -> Value {
    match j {
        Json::Str(s) => Value::Str(s),
        Json::Number(n) => Value::Num(n),
        Json::Bool(b) => Value::Bool(b),
        _ => Value::Unknown,
    }
}

/// The JSON value and the literal are a string, a number or a boolean both.
pub open spec fn same_kind(j: Json, v: Value) -> bool {
    match (j, v) {
        (Json::Str(_), Value::Str(_)) => true,
        (Json::Number(_), Value::Num(_)) => true,
        (Json::Bool(_), Value::Bool(_)) => true,
        _ => false,
    }
}

impl Json {
    /// The scalar that this value holds, if it is a string, a number or a boolean.
    pub fn scalar(&self) -> (r: Value)
        ensures
            r == scalar_of(*self),
    {
        match self {
            Json::Str(s) => Value::Str(s.clone()),
            Json::Number(n) => Value::Num(*n),
            Json::Bool(b) => Value::Bool(*b),
            _ => Value::Unknown,
        }
    }
}

} // verus!
