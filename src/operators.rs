use vstd::prelude::*;
use vstd::std_specs::cmp::PartialEqSpec;

verus! {

/// `true` exactly when the two values are equal.
pub fn eq<T: PartialEq>(a: T, b: T) -> (r: bool)
    ensures
        T::obeys_eq_spec() ==> r == a.eq_spec(&b),
{
    a == b
}

/// `true` exactly when the two values differ.
pub fn ne<T: PartialEq>(a: T, b: T) -> (r: bool)
    ensures
        T::obeys_eq_spec() ==> r == !a.eq_spec(&b),
{
    a != b
}

/// The operator that never holds: used for unknown operator tokens.
pub fn deny<T: PartialEq>(_a: T, _b: T) -> (r: bool)
    ensures
        !r,
{
    false
}

} // verus!
