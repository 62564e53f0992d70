use vstd::prelude::*;

verus! {

/// A numeric element type in which tensors hold values and gradients are
/// accumulated.
///
/// The library moves elements around and adds them; it asks nothing else of
/// them. In particular addition need not be associative, so every contract
/// that speaks of a sum fixes the order in which the terms are added.
pub trait Dtype: Sized + Copy {
    /// The additive identity.
    spec fn spec_zero() -> Self;

    /// The multiplicative identity, with which a scalar loss seeds its own
    /// gradient.
    spec fn spec_one() -> Self;

    /// The sum of two elements.
    spec fn spec_sum(self, rhs: Self) -> Self;

    /// Gives the additive identity.
    fn zero() -> (r: Self)
        ensures
            r == Self::spec_zero(),
    ;

    /// Gives the multiplicative identity.
    fn one() -> (r: Self)
        ensures
            r == Self::spec_one(),
    ;

    /// Adds two elements.
    fn add(self, rhs: Self) -> (r: Self)
        ensures
            r == self.spec_sum(rhs),
    ;
}

/// Signed integers, added with wrap-around.
impl Dtype for i64 {
    open spec fn spec_zero() -> i64 {
        0i64
    }

    open spec fn spec_one() -> i64 {
        1i64
    }

    open spec fn spec_sum(self, rhs: i64) -> i64 {
        self.wrapping_add(rhs)
    }

    fn zero() -> (r: i64) {
        0i64
    }

    fn one() -> (r: i64) {
        1i64
    }

    fn add(self, rhs: i64) -> (r: i64) {
        self.wrapping_add(rhs)
    }
}

/// Index values, added with wrap-around.
impl Dtype for usize {
    open spec fn spec_zero() -> usize {
        0usize
    }

    open spec fn spec_one() -> usize {
        1usize
    }

    open spec fn spec_sum(self, rhs: usize) -> usize {
        self.wrapping_add(rhs)
    }

    fn zero() -> (r: usize) {
        0usize
    }

    fn one() -> (r: usize) {
        1usize
    }

    fn add(self, rhs: usize) -> (r: usize) {
        self.wrapping_add(rhs)
    }
}

} // verus!
