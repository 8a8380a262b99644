use vstd::prelude::*;
use vstd::std_specs::cmp::PartialEqSpec;
use crate::operators::{deny, eq, ne};
use crate::parsers::Predicate;
use crate::path::{cast_path, cast_path_spec, owned};
use crate::text::str_eq;
use crate::value::{same_kind, scalar_of, value_eq, Json, Value};

verus! {

/// What an operator token makes of the equality of two values: `==` keeps
/// it, `!=` negates it, any other token yields `false`.
pub open spec fn op_spec(operator: Seq<char>, equal: bool) -> bool {
    if operator == seq!['=', '='] {
        equal
    } else if operator == seq!['!', '='] {
        !equal
    } else {
        false
    }
}

/// Applies an operator token to two values of one type.
pub fn compare<T: PartialEq>(a: T, b: T, operator: &str) -> (r: bool)
    ensures
        T::obeys_eq_spec() ==> r == op_spec(operator@, a.eq_spec(&b)),
{
    proof {
        reveal_strlit("==");
        reveal_strlit("!=");
        assert("=="@ =~= seq!['=', '=']);
        assert("!="@ =~= seq!['!', '=']);
    }
    if str_eq(operator, "==") {
        eq(a, b)
    } else if str_eq(operator, "!=") {
        ne(a, b)
    } else {
        deny(a, b)
    }
}

/// The JSON value is a string, a number or a boolean, as the literal is.
pub fn same_type(j: &Json, v: &Value) -> (r: bool)
    ensures
        r == same_kind(*j, *v),
{
    match (j, v) {
        (Json::Str(_), Value::Str(_)) => true,
        (Json::Number(_), Value::Num(_)) => true,
        (Json::Bool(_), Value::Bool(_)) => true,
        _ => false,
    }
}

/// An element matches a predicate when its path resolves to a value of the
/// literal's type and the operator holds between that value and the literal.
pub open spec fn matches_spec(elt: Json, p: Predicate) -> bool {
    match cast_path_spec(elt, p.path@) {
        Some(v) => same_kind(v, p.value) && op_spec(p.operator@, value_eq(scalar_of(v), p.value)),
        None => false,
    }
}

/// Tests one element against a predicate.
pub fn element_matches(elt: &Json, p: &Predicate) -> (r: bool)
    ensures
        r == matches_spec(*elt, *p),
{
    match cast_path(elt, p.path.as_str()) {
        Some(v) => {
            if same_type(v, &p.value) {
                let s = v.scalar();
                compare(&s, &p.value, p.operator.as_str())
            } else {
                false
            }
        },
        None => false,
    }
}

/// The elements that match, in their order.
pub open spec fn filter_spec(s: Seq<Json>, p: Predicate) -> Seq<Json>
    decreases s.len(),
{
    if s.len() == 0 {
        Seq::empty()
    } else if matches_spec(s.last(), p) {
        filter_spec(s.drop_last(), p).push(s.last())
    } else {
        filter_spec(s.drop_last(), p)
    }
}

/// The first element that matches.
pub open spec fn find_spec(s: Seq<Json>, p: Predicate) -> Option<Json>
    decreases s.len(),
{
    if s.len() == 0 {
        None
    } else {
        match find_spec(s.drop_last(), p) {
            Some(e) => Some(e),
            None => if matches_spec(s.last(), p) {
                Some(s.last())
            } else {
                None
            },
        }
    }
}

pub open spec fn some_spec(s: Seq<Json>, p: Predicate) -> bool {
    exists|i: int| 0 <= i < s.len() && matches_spec(#[trigger] s[i], p)
}

pub open spec fn every_spec(s: Seq<Json>, p: Predicate) -> bool {
    forall|i: int| 0 <= i < s.len() ==> matches_spec(#[trigger] s[i], p)
}

/// The elements that match the predicate, in their original order.
pub fn filter<'a>(v: &'a Vec<Json>, p: &Predicate) -> (r: Vec<&'a Json>)
    ensures
        r@.len() == filter_spec(v@, *p).len(),
        forall|k: int| 0 <= k < r@.len() ==> *#[trigger] r@[k] == filter_spec(v@, *p)[k],
{
    let mut out: Vec<&'a Json> = Vec::new();
    let mut i: usize = 0;
    while i < v.len()
        invariant
            i <= v@.len(),
            out@.len() == filter_spec(v@.take(i as int), *p).len(),
            forall|k: int|
                0 <= k < out@.len() ==> *#[trigger] out@[k] == filter_spec(
                    v@.take(i as int),
                    *p,
                )[k],
        decreases v@.len() - i,
    {
        proof {
            assert(v@.take(i + 1).drop_last() =~= v@.take(i as int));
            assert(v@.take(i + 1).last() == v@[i as int]);
        }
        if element_matches(&v[i], p) {
            out.push(&v[i]);
        }
        i = i + 1;
    }
    assert(v@.take(i as int) =~= v@);
    out
}

/// Whether at least one element matches; stops at the first match.
pub fn some(v: &Vec<Json>, p: &Predicate) -> (r: bool)
    ensures
        r == some_spec(v@, *p),
{
    let mut i: usize = 0;
    while i < v.len()
        invariant
            i <= v@.len(),
            forall|k: int| 0 <= k < i ==> !matches_spec(#[trigger] v@[k], *p),
        decreases v@.len() - i,
    {
        if element_matches(&v[i], p) {
            return true;
        }
        i = i + 1;
    }
    false
}

/// Whether every element matches; stops at the first that does not.
pub fn every(v: &Vec<Json>, p: &Predicate) -> (r: bool)
    ensures
        r == every_spec(v@, *p),
{
    let mut i: usize = 0;
    while i < v.len()
        invariant
            i <= v@.len(),
            forall|k: int| 0 <= k < i ==> matches_spec(#[trigger] v@[k], *p),
        decreases v@.len() - i,
    {
        if !element_matches(&v[i], p) {
            return false;
        }
        i = i + 1;
    }
    true
}

/// The first element that matches, if any.
pub fn find<'a>(v: &'a Vec<Json>, p: &Predicate) -> (r: Option<&'a Json>)
    ensures
        owned(r) == find_spec(v@, *p),
{
    let mut i: usize = 0;
    while i < v.len()
        invariant
            i <= v@.len(),
            find_spec(v@.take(i as int), *p) == None::<Json>,
        decreases v@.len() - i,
    {
        proof {
            assert(v@.take(i + 1).drop_last() =~= v@.take(i as int));
            assert(v@.take(i + 1).last() == v@[i as int]);
        }
        if element_matches(&v[i], p) {
            proof {
                crate::laws::lemma_find_extends(v@, *p, i + 1);
            }
            return Some(&v[i]);
        }
        i = i + 1;
    }
    assert(v@.take(i as int) =~= v@);
    None
}

/// The number of elements; the predicate plays no part.
pub fn length(v: &Vec<Json>) -> (r: usize)
    ensures
        r == v@.len(),
{
    v.len()
}

} // verus!
