//! Complex numbers over a floating element.

use crate::maths::numeric::{two_spec, Float, Numeric, Real};
use core::cmp::Ordering;
use core::ops::{Add, AddAssign, Div, DivAssign, Mul, MulAssign, Neg, Sub, SubAssign};
use vstd::prelude::*;
use vstd::std_specs::cmp::{PartialEqSpec, PartialOrdSpec};
use vstd::std_specs::ops::{AddSpec, DivSpec, MulSpec, NegSpec, SubSpec};

verus! {

/// A complex number `real + imaginary * i`.
#[derive(Debug)]
pub struct Complex<T: Float> {
    pub real: T,
    pub imaginary: T,
}

impl<T: Float> Clone for Complex<T> {
    fn clone(&self) -> (r: Self)
        ensures
            r == *self,
    {
        Complex { real: self.real, imaginary: self.imaginary }
    }
}

impl<T: Float> Copy for Complex<T> {

}

impl<T: Float> PartialEq for Complex<T> {
    fn eq(&self, other: &Self) -> (r: bool) {
        proof {
            T::arithmetic_is_total();
        }
        self.real == other.real && self.imaginary == other.imaginary
    }
}

impl<T: Float> vstd::std_specs::cmp::PartialEqSpecImpl for Complex<T> {
    open spec fn obeys_eq_spec() -> bool {
        true
    }

    /// Both parts are equal in the element type's own sense.
    open spec fn eq_spec(&self, other: &Self) -> bool {
        self.real.eq_spec(&other.real) && self.imaginary.eq_spec(&other.imaginary)
    }
}

impl<T: Float> PartialOrd for Complex<T> {
    fn partial_cmp(&self, other: &Self) -> (r: Option<Ordering>) {
        proof {
            T::arithmetic_is_total();
        }
        match self.real.partial_cmp(&other.real) {
            Some(Ordering::Equal) => self.imaginary.partial_cmp(&other.imaginary),
            unequal => unequal,
        }
    }
}

impl<T: Float> vstd::std_specs::cmp::PartialOrdSpecImpl for Complex<T> {
    open spec fn obeys_partial_cmp_spec() -> bool {
        true
    }

    /// Lexicographic: by the real parts, and by the imaginary parts where
    /// the real parts compare equal.
    open spec fn partial_cmp_spec(&self, other: &Self) -> Option<Ordering> {
        match self.real.partial_cmp_spec(&other.real) {
            Some(Ordering::Equal) => self.imaginary.partial_cmp_spec(&other.imaginary),
            unequal => unequal,
        }
    }
}

impl<T: Float> From<T> for Complex<T> {
    fn from(re: T) -> (r: Complex<T>) {
        Complex { real: re, imaginary: T::zero() }
    }
}

impl<T: Float> vstd::std_specs::convert::FromSpecImpl<T> for Complex<T> {
    open spec fn obeys_from_spec() -> bool {
        true
    }

    /// A real number as the complex number with no imaginary part.
    open spec fn from_spec(re: T) -> Complex<T> {
        Complex { real: re, imaginary: T::zero_spec() }
    }
}

impl<T: Float> Complex<T> {
    /// The complex number `re + im * i`.
    pub fn new(re: T, im: T) -> (r: Complex<T>)
        ensures
            r.real == re,
            r.imaginary == im,
    {
        Complex { real: re, imaginary: im }
    }

    /// The conjugate: the imaginary part negated.
    pub open spec fn conjugate_spec(self) -> Complex<T> {
        Complex { real: self.real, imaginary: self.imaginary.neg_spec() }
    }

    /// The squared magnitude, `real * real + imaginary * imaginary`.
    pub open spec fn norm_spec(self) -> T {
        self.real.mul_spec(self.real).add_spec(self.imaginary.mul_spec(self.imaginary))
    }

    /// The magnitude: the square root of the squared magnitude.
    pub open spec fn abs_spec(self) -> T {
        self.norm_spec().sqrt_spec()
    }

    /// The phase: the arctangent of `imaginary / real`, by quadrant.
    pub open spec fn phase_spec(self) -> T {
        T::atan2_spec(self.imaginary, self.real)
    }

    /// The conjugate of this number.
    pub fn get_conjugate(&self) -> (r: Complex<T>)
        ensures
            r == self.conjugate_spec(),
    {
        proof {
            T::arithmetic_is_total();
        }
        Complex { real: self.real, imaginary: self.imaginary.neg() }
    }

    /// Turns this number into its conjugate.
    pub fn conjugate(&mut self)
        ensures
            *final(self) == old(self).conjugate_spec(),
    {
        proof {
            T::arithmetic_is_total();
        }
        self.imaginary = self.imaginary.neg();
    }

    /// The phase of this number.
    pub fn phase(&self) -> (r: T)
        ensures
            r == self.phase_spec(),
    {
        T::atan2(self.imaginary, self.real)
    }

    /// The squared magnitude of this number.
    pub fn norm(&self) -> (r: T)
        ensures
            r == self.norm_spec(),
    {
        proof {
            T::arithmetic_is_total();
        }
        self.real * self.real + self.imaginary * self.imaginary
    }

    /// The squared magnitude of this number, under its other name.
    pub fn norm2(&self) -> (r: T)
        ensures
            r == self.norm_spec(),
    {
        self.norm()
    }

    /// The magnitude of this number.
    pub fn abs(&self) -> (r: T)
        ensures
            r == self.abs_spec(),
    {
        self.norm().sqrt()
    }
}

impl<T: Float> Neg for Complex<T> {
    type Output = Complex<T>;

    fn neg(self) -> (r: Complex<T>) {
        proof {
            T::arithmetic_is_total();
        }
        Complex { real: self.real.neg(), imaginary: self.imaginary.neg() }
    }
}

impl<T: Float> vstd::std_specs::ops::NegSpecImpl for Complex<T> {
    open spec fn obeys_neg_spec() -> bool {
        true
    }

    open spec fn neg_req(self) -> bool {
        true
    }

    open spec fn neg_spec(self) -> Complex<T> {
        Complex { real: self.real.neg_spec(), imaginary: self.imaginary.neg_spec() }
    }
}

impl<T: Float> Add for Complex<T> {
    type Output = Complex<T>;

    fn add(self, other: Complex<T>) -> (r: Complex<T>) {
        proof {
            T::arithmetic_is_total();
        }
        Complex { real: self.real + other.real, imaginary: self.imaginary + other.imaginary }
    }
}

impl<T: Float> vstd::std_specs::ops::AddSpecImpl for Complex<T> {
    open spec fn obeys_add_spec() -> bool {
        true
    }

    open spec fn add_req(self, other: Complex<T>) -> bool {
        true
    }

    open spec fn add_spec(self, other: Complex<T>) -> Complex<T> {
        Complex {
            real: self.real.add_spec(other.real),
            imaginary: self.imaginary.add_spec(other.imaginary),
        }
    }
}

impl<T: Float> Sub for Complex<T> {
    type Output = Complex<T>;

    fn sub(self, other: Complex<T>) -> (r: Complex<T>) {
        proof {
            T::arithmetic_is_total();
        }
        Complex { real: self.real - other.real, imaginary: self.imaginary - other.imaginary }
    }
}

impl<T: Float> vstd::std_specs::ops::SubSpecImpl for Complex<T> {
    open spec fn obeys_sub_spec() -> bool {
        true
    }

    open spec fn sub_req(self, other: Complex<T>) -> bool {
        true
    }

    open spec fn sub_spec(self, other: Complex<T>) -> Complex<T> {
        Complex {
            real: self.real.sub_spec(other.real),
            imaginary: self.imaginary.sub_spec(other.imaginary),
        }
    }
}

impl<T: Float> Mul for Complex<T> {
    type Output = Complex<T>;

    fn mul(self, other: Complex<T>) -> (r: Complex<T>) {
        proof {
            T::arithmetic_is_total();
        }
        Complex {
            real: self.real * other.real - self.imaginary * other.imaginary,
            imaginary: self.real * other.imaginary + self.imaginary * other.real,
        }
    }
}

impl<T: Float> vstd::std_specs::ops::MulSpecImpl for Complex<T> {
    open spec fn obeys_mul_spec() -> bool {
        true
    }

    open spec fn mul_req(self, other: Complex<T>) -> bool {
        true
    }

    open spec fn mul_spec(self, other: Complex<T>) -> Complex<T> {
        Complex {
            real: self.real.mul_spec(other.real).sub_spec(self.imaginary.mul_spec(other.imaginary)),
            imaginary: self.real.mul_spec(other.imaginary).add_spec(
                self.imaginary.mul_spec(other.real),
            ),
        }
    }
}

impl<T: Float> Div for Complex<T> {
    type Output = Complex<T>;

    fn div(self, other: Complex<T>) -> (r: Complex<T>) {
        proof {
            T::arithmetic_is_total();
        }
        let denom = other.real * other.real + other.imaginary * other.imaginary;
        Complex {
            real: (self.real * other.real + self.imaginary * other.imaginary) / denom,
            imaginary: (self.imaginary * other.real - self.real * other.imaginary) / denom,
        }
    }
}

impl<T: Float> vstd::std_specs::ops::DivSpecImpl for Complex<T> {
    open spec fn obeys_div_spec() -> bool {
        true
    }

    open spec fn div_req(self, other: Complex<T>) -> bool {
        true
    }

    open spec fn div_spec(self, other: Complex<T>) -> Complex<T> {
        let denom = other.norm_spec();
        Complex {
            real: self.real.mul_spec(other.real).add_spec(
                self.imaginary.mul_spec(other.imaginary),
            ).div_spec(denom),
            imaginary: self.imaginary.mul_spec(other.real).sub_spec(
                self.real.mul_spec(other.imaginary),
            ).div_spec(denom),
        }
    }
}

impl<T: Float> Add<T> for Complex<T> {
    type Output = Complex<T>;

    fn add(self, other: T) -> (r: Complex<T>) {
        proof {
            T::arithmetic_is_total();
        }
        Complex { real: self.real + other, imaginary: self.imaginary }
    }
}

impl<T: Float> vstd::std_specs::ops::AddSpecImpl<T> for Complex<T> {
    open spec fn obeys_add_spec() -> bool {
        true
    }

    open spec fn add_req(self, other: T) -> bool {
        true
    }

    open spec fn add_spec(self, other: T) -> Complex<T> {
        Complex { real: self.real.add_spec(other), imaginary: self.imaginary }
    }
}

impl<T: Float> Sub<T> for Complex<T> {
    type Output = Complex<T>;

    fn sub(self, other: T) -> (r: Complex<T>) {
        proof {
            T::arithmetic_is_total();
        }
        Complex { real: self.real - other, imaginary: self.imaginary }
    }
}

impl<T: Float> vstd::std_specs::ops::SubSpecImpl<T> for Complex<T> {
    open spec fn obeys_sub_spec() -> bool {
        true
    }

    open spec fn sub_req(self, other: T) -> bool {
        true
    }

    open spec fn sub_spec(self, other: T) -> Complex<T> {
        Complex { real: self.real.sub_spec(other), imaginary: self.imaginary }
    }
}

impl<T: Float> Mul<T> for Complex<T> {
    type Output = Complex<T>;

    fn mul(self, other: T) -> (r: Complex<T>) {
        proof {
            T::arithmetic_is_total();
        }
        Complex { real: self.real * other, imaginary: self.imaginary * other }
    }
}

impl<T: Float> vstd::std_specs::ops::MulSpecImpl<T> for Complex<T> {
    open spec fn obeys_mul_spec() -> bool {
        true
    }

    open spec fn mul_req(self, other: T) -> bool {
        true
    }

    open spec fn mul_spec(self, other: T) -> Complex<T> {
        Complex { real: self.real.mul_spec(other), imaginary: self.imaginary.mul_spec(other) }
    }
}

impl<T: Float> Div<T> for Complex<T> {
    type Output = Complex<T>;

    fn div(self, other: T) -> (r: Complex<T>) {
        proof {
            T::arithmetic_is_total();
        }
        Complex { real: self.real / other, imaginary: self.imaginary / other }
    }
}

impl<T: Float> vstd::std_specs::ops::DivSpecImpl<T> for Complex<T> {
    open spec fn obeys_div_spec() -> bool {
        true
    }

    open spec fn div_req(self, other: T) -> bool {
        true
    }

    open spec fn div_spec(self, other: T) -> Complex<T> {
        Complex { real: self.real.div_spec(other), imaginary: self.imaginary.div_spec(other) }
    }
}

impl<T: Float> AddAssign for Complex<T> {
    fn add_assign(&mut self, other: Complex<T>)
        ensures
            *final(self) == AddSpec::add_spec(*old(self), other),
    {
        *self = *self + other;
    }
}

impl<T: Float> SubAssign for Complex<T> {
    fn sub_assign(&mut self, other: Complex<T>)
        ensures
            *final(self) == SubSpec::sub_spec(*old(self), other),
    {
        *self = *self - other;
    }
}

impl<T: Float> MulAssign for Complex<T> {
    fn mul_assign(&mut self, other: Complex<T>)
        ensures
            *final(self) == MulSpec::mul_spec(*old(self), other),
    {
        *self = *self * other;
    }
}

impl<T: Float> DivAssign for Complex<T> {
    fn div_assign(&mut self, other: Complex<T>)
        ensures
            *final(self) == DivSpec::div_spec(*old(self), other),
    {
        *self = *self / other;
    }
}

impl<T: Float> AddAssign<T> for Complex<T> {
    fn add_assign(&mut self, other: T)
        ensures
            *final(self) == AddSpec::add_spec(*old(self), other),
    {
        *self = *self + other;
    }
}

impl<T: Float> SubAssign<T> for Complex<T> {
    fn sub_assign(&mut self, other: T)
        ensures
            *final(self) == SubSpec::sub_spec(*old(self), other),
    {
        *self = *self - other;
    }
}

impl<T: Float> MulAssign<T> for Complex<T> {
    fn mul_assign(&mut self, other: T)
        ensures
            *final(self) == MulSpec::mul_spec(*old(self), other),
    {
        *self = *self * other;
    }
}

impl<T: Float> DivAssign<T> for Complex<T> {
    fn div_assign(&mut self, other: T)
        ensures
            *final(self) == DivSpec::div_spec(*old(self), other),
    {
        *self = *self / other;
    }
}

impl<T: Float> Numeric for Complex<T> {
    open spec fn zero_spec() -> Complex<T> {
        Complex { real: T::zero_spec(), imaginary: T::zero_spec() }
    }

    open spec fn one_spec() -> Complex<T> {
        Complex { real: T::one_spec(), imaginary: T::zero_spec() }
    }

    fn zero() -> Complex<T> {
        Complex { real: T::zero(), imaginary: T::zero() }
    }

    fn one() -> Complex<T> {
        Complex { real: T::one(), imaginary: T::zero() }
    }
}

impl<T: Real> Float for Complex<T> {
    /// The principal square root in polar form: with `r` the magnitude and
    /// `theta` the phase, `sqrt(r) * (cos(theta / 2) + i * sin(theta / 2))`.
    open spec fn sqrt_spec(self) -> Complex<T> {
        let root = self.abs_spec().sqrt_spec();
        let half = self.phase_spec().div_spec(two_spec::<T>());
        Complex { real: root.mul_spec(half.cos_spec()), imaginary: root.mul_spec(half.sin_spec()) }
    }

    /// The arctangent taken part by part.
    open spec fn atan2_spec(y: Complex<T>, x: Complex<T>) -> Complex<T> {
        Complex {
            real: T::atan2_spec(y.real, x.real),
            imaginary: T::atan2_spec(y.imaginary, x.imaginary),
        }
    }

    fn sqrt(self) -> Complex<T> {
        proof {
            T::arithmetic_is_total();
        }
        let r = self.abs();
        let theta = self.phase();
        let sqrt_r = r.sqrt();
        let sqrt_theta = theta / (T::one() + T::one());
        Complex { real: sqrt_r * sqrt_theta.cos(), imaginary: sqrt_r * sqrt_theta.sin() }
    }

    fn atan2(y: Complex<T>, x: Complex<T>) -> Complex<T> {
        Complex { real: T::atan2(y.real, x.real), imaginary: T::atan2(y.imaginary, x.imaginary) }
    }

    proof fn arithmetic_is_total() {
    }
}

} // verus!
