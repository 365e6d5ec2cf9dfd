//! The numbers the engine computes with, as a trait.

use vstd::prelude::*;

verus! {

/// The numbers the engine computes with.
///
/// Every operation comes as a pair: a model function (`*_spec`) and the
/// executable method whose result the model function names. That is all the
/// engine relies on: an operation is a function of its arguments. No law of
/// arithmetic (associativity, distributivity, an order) is assumed, so the
/// contracts of the engine spell out the exact order in which values are
/// combined, and hold as stated for rounded arithmetic.
///
/// The trait is implemented outside this crate, typically by a thin wrapper
/// around a hardware floating-point type. What the engine proves holds of an
/// implementation whose methods are deterministic: called twice on the same
/// values, a method returns the same value. Nothing in this crate checks
/// that of an implementation.
pub trait Scalar: Sized + Copy {
    /// The scalar that stands for the whole number `n`.
    spec fn count_spec(n: usize) -> Self;

    /// `self + rhs`
    spec fn plus_spec(self, rhs: Self) -> Self;

    /// `self - rhs`
    spec fn minus_spec(self, rhs: Self) -> Self;

    /// `self * rhs`
    spec fn times_spec(self, rhs: Self) -> Self;

    /// `self / rhs`
    spec fn over_spec(self, rhs: Self) -> Self;

    /// `-self`
    spec fn negated_spec(self) -> Self;

    /// `|self|`
    spec fn magnitude_spec(self) -> Self;

    /// `e` raised to `self`
    spec fn exp_spec(self) -> Self;

    /// The natural logarithm of `self`
    spec fn ln_spec(self) -> Self;

    /// The square root of `self`
    spec fn sqrt_spec(self) -> Self;

    /// `self < rhs`
    spec fn below_spec(self, rhs: Self) -> bool;

    fn count(n: usize) -> (r: Self)
        ensures
            r == Self::count_spec(n),
    ;

    fn plus(self, rhs: Self) -> (r: Self)
        ensures
            r == self.plus_spec(rhs),
    ;

    fn minus(self, rhs: Self) -> (r: Self)
        ensures
            r == self.minus_spec(rhs),
    ;

    fn times(self, rhs: Self) -> (r: Self)
        ensures
            r == self.times_spec(rhs),
    ;

    fn over(self, rhs: Self) -> (r: Self)
        ensures
            r == self.over_spec(rhs),
    ;

    fn negated(self) -> (r: Self)
        ensures
            r == self.negated_spec(),
    ;

    fn magnitude(self) -> (r: Self)
        ensures
            r == self.magnitude_spec(),
    ;

    fn exp(self) -> (r: Self)
        ensures
            r == self.exp_spec(),
    ;

    fn ln(self) -> (r: Self)
        ensures
            r == self.ln_spec(),
    ;

    fn sqrt(self) -> (r: Self)
        ensures
            r == self.sqrt_spec(),
    ;

    fn below(self, rhs: Self) -> (r: bool)
        ensures
            r == self.below_spec(rhs),
    ;
}

/// Zero, the value every running sum starts from.
pub open spec fn zero<T: Scalar>() -> T {
    T::count_spec(0)
}

/// The quotient of two whole numbers, which is how the engine writes its
/// fractional constants.
pub open spec fn ratio<T: Scalar>(num: usize, den: usize) -> T {
    T::count_spec(num).over_spec(T::count_spec(den))
}

/// Computes [`ratio`].
pub fn make_ratio<T: Scalar>(num: usize, den: usize) -> (r: T)
    ensures
        r == ratio::<T>(num, den),
{
    T::count(num).over(T::count(den))
}

} // verus!
