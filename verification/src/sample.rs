//! The number type that a filter computes in, and what its arithmetic is
//! known to do.
//!
//! The filter is generic over its sample type. Nothing is assumed about how
//! the type rounds, saturates or orders its values: every statement about a
//! computed value is a statement about the outcomes of the type's own
//! operators, applied in a fixed order to fixed operands.
use core::ops::{Add, Div, Mul, Neg, Sub};
use vstd::prelude::*;

verus! {

/// A number type with the four arithmetic operations, negation, and an
/// embedding of the small non-negative integers.
///
/// Every type with these operations is a `Sample`.
pub trait Sample: Copy + From<u8> + Add<Output = Self> + Sub<Output = Self> + Mul<
    Output = Self,
> + Div<Output = Self> + Neg<Output = Self> {

}

impl<T> Sample for T where
    T: Copy + From<u8> + Add<Output = T> + Sub<Output = T> + Mul<Output = T> + Div<
        Output = T,
    > + Neg<Output = T>,
 {

}

/// `r` is an outcome of converting the integer `n` to the sample type.
pub open spec fn is_number<S: Sample>(n: u8, r: S) -> bool {
    call_ensures(S::from, (n,), r)
}

/// `r` is an outcome of `a + b`.
pub open spec fn is_sum<S: Sample>(a: S, b: S, r: S) -> bool {
    call_ensures(S::add, (a, b), r)
}

/// `r` is an outcome of `a - b`.
pub open spec fn is_difference<S: Sample>(a: S, b: S, r: S) -> bool {
    call_ensures(S::sub, (a, b), r)
}

/// `r` is an outcome of `a * b`.
pub open spec fn is_product<S: Sample>(a: S, b: S, r: S) -> bool {
    call_ensures(S::mul, (a, b), r)
}

/// `r` is an outcome of `a / b`.
pub open spec fn is_quotient<S: Sample>(a: S, b: S, r: S) -> bool {
    call_ensures(S::div, (a, b), r)
}

/// `r` is an outcome of `-a`.
pub open spec fn is_opposite<S: Sample>(a: S, r: S) -> bool {
    call_ensures(S::neg, (a,), r)
}

/// The arithmetic of `S` accepts every operand: no operation has a
/// precondition. This is what makes a filter total over its inputs.
pub open spec fn total<S: Sample>() -> bool {
    &&& forall|n: u8| call_requires(S::from, (n,))
    &&& forall|a: S| call_requires(S::neg, (a,))
    &&& forall|a: S, b: S| call_requires(S::add, (a, b))
    &&& forall|a: S, b: S| call_requires(S::sub, (a, b))
    &&& forall|a: S, b: S| call_requires(S::mul, (a, b))
    &&& forall|a: S, b: S| call_requires(S::div, (a, b))
}

/// The arithmetic of `S` is a function of its operands: the same operands
/// always give the same outcome.
pub open spec fn deterministic<S: Sample>() -> bool {
    &&& forall|n: u8, r: S, s: S| is_number(n, r) && is_number(n, s) ==> r == s
    &&& forall|a: S, r: S, s: S| is_opposite(a, r) && is_opposite(a, s) ==> r == s
    &&& forall|a: S, b: S, r: S, s: S| is_sum(a, b, r) && is_sum(a, b, s) ==> r == s
    &&& forall|a: S, b: S, r: S, s: S| is_difference(a, b, r) && is_difference(a, b, s) ==> r == s
    &&& forall|a: S, b: S, r: S, s: S| is_product(a, b, r) && is_product(a, b, s) ==> r == s
    &&& forall|a: S, b: S, r: S, s: S| is_quotient(a, b, r) && is_quotient(a, b, s) ==> r == s
}

} // verus!
