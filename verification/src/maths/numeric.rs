//! The arithmetic capabilities that every container of the library is generic over.

use core::ops::{Add, Div, Mul, Neg, Sub};
use vstd::prelude::*;
use vstd::std_specs::cmp::{PartialEqSpec, PartialOrdSpec};
use vstd::std_specs::ops::{AddSpec, DivSpec, MulSpec, NegSpec, SubSpec};

verus! {

/// A value type with the four arithmetic operators, negation, a partial order
/// and the two identities.
pub trait Numeric: Copy + PartialOrd + Add<Output = Self> + Mul<Output = Self> + Sub<
    Output = Self,
> + Div<Output = Self> + Neg<Output = Self> {
    /// The additive identity.
    spec fn zero_spec() -> Self;

    /// The multiplicative identity.
    spec fn one_spec() -> Self;

    /// The additive identity.
    fn zero() -> (r: Self)
        ensures
            r == Self::zero_spec(),
    ;

    /// The multiplicative identity.
    fn one() -> (r: Self)
        ensures
            r == Self::one_spec(),
    ;
}

/// Marker for the integer elements.
pub trait Integer: Numeric {

}

/// The operators of `T` are defined on all operands, and each result is the
/// value that the operator's specification function gives.
pub open spec fn total_arithmetic<T: Numeric>() -> bool {
    &&& T::obeys_add_spec()
    &&& T::obeys_sub_spec()
    &&& T::obeys_mul_spec()
    &&& T::obeys_div_spec()
    &&& T::obeys_neg_spec()
    &&& T::obeys_eq_spec()
    &&& T::obeys_partial_cmp_spec()
    &&& forall|a: T, b: T| #[trigger] a.add_req(b)
    &&& forall|a: T, b: T| #[trigger] a.sub_req(b)
    &&& forall|a: T, b: T| #[trigger] a.mul_req(b)
    &&& forall|a: T, b: T| #[trigger] a.div_req(b)
    &&& forall|a: T| #[trigger] a.neg_req()
}

/// The floating extension: arithmetic that never faults (a zero divisor gives
/// the element type's own result), a square root, and the two-argument
/// arctangent.
///
/// Everything that the library proves of its containers rests on what an
/// implementation promises here: that its operators and comparisons are
/// defined on all operands, and that each operation is a function of its
/// operands, so that equal operands give equal results.
pub trait Float: Numeric {
    /// The square root that `sqrt` computes.
    spec fn sqrt_spec(self) -> Self;

    /// The angle of the point `(x, y)` that `atan2` computes.
    spec fn atan2_spec(y: Self, x: Self) -> Self;

    /// The square root.
    fn sqrt(self) -> (r: Self)
        ensures
            r == self.sqrt_spec(),
    ;

    /// The angle of the point `(x, y)`.
    fn atan2(y: Self, x: Self) -> (r: Self)
        ensures
            r == Self::atan2_spec(y, x),
    ;

    /// The operators and comparisons are defined on all operands and give
    /// what their specification functions say.
    proof fn arithmetic_is_total()
        ensures
            total_arithmetic::<Self>(),
    ;
}

/// A plain (non-complex) floating element, which also has a cosine and a
/// sine. As with `Float`, an implementation promises that each is a function
/// of its operand.
pub trait Real: Float {
    /// The cosine that `cos` computes.
    spec fn cos_spec(self) -> Self;

    /// The sine that `sin` computes.
    spec fn sin_spec(self) -> Self;

    /// The cosine.
    fn cos(self) -> (r: Self)
        ensures
            r == self.cos_spec(),
    ;

    /// The sine.
    fn sin(self) -> (r: Self)
        ensures
            r == self.sin_spec(),
    ;
}

/// `1 + 1` in `T`.
pub open spec fn two_spec<T: Numeric>() -> T {
    T::one_spec().add_spec(T::one_spec())
}

/// The comparison operators of `T` answer as its order's specification says.
pub open spec fn order_is_specified<T: Numeric>() -> bool {
    T::obeys_partial_cmp_spec()
}

/// `a` is strictly below `b` in the element order.
pub open spec fn is_less<T: Numeric>(a: T, b: T) -> bool {
    a.partial_cmp_spec(&b) == Some(core::cmp::Ordering::Less)
}

/// `a` is strictly above `b` in the element order.
pub open spec fn is_greater<T: Numeric>(a: T, b: T) -> bool {
    a.partial_cmp_spec(&b) == Some(core::cmp::Ordering::Greater)
}

/// `a` and `b` can be compared.
pub open spec fn comparable<T: Numeric>(a: T, b: T) -> bool {
    a.partial_cmp_spec(&b).is_some()
}

impl Numeric for i32 {
    open spec fn zero_spec() -> i32 {
        0
    }

    open spec fn one_spec() -> i32 {
        1
    }

    fn zero() -> i32 {
        0
    }

    fn one() -> i32 {
        1
    }
}

impl Numeric for i64 {
    open spec fn zero_spec() -> i64 {
        0
    }

    open spec fn one_spec() -> i64 {
        1
    }

    fn zero() -> i64 {
        0
    }

    fn one() -> i64 {
        1
    }
}

impl Integer for i32 {

}

impl Integer for i64 {

}

} // verus!
