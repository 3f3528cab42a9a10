//! The arithmetic a matrix cell must offer.
//!
//! Matrices and the network are generic over [`Scalar`]. Every operation is a
//! total, deterministic function of its arguments: the executable method
//! returns exactly what its specification function names. Nothing else is
//! asked of the operations: no associativity, no order axioms. Laws that need
//! more take it as a hypothesis.
//!
//! `i64` implements the trait here, and the verifier holds it to these
//! contracts. A type that implements the trait in code that the verifier
//! does not read is held to them by its author alone: there each
//! specification function is an ordinary function, to be written so that it
//! computes what the method beside it computes.

use crate::chance::draw_between;
use vstd::prelude::*;

verus! {

pub trait Scalar: Copy {
    /// The scalar that stands for the whole number `n`.
    spec fn of_usize(n: usize) -> Self;

    spec fn add_spec(self, rhs: Self) -> Self;

    spec fn sub_spec(self, rhs: Self) -> Self;

    spec fn mul_spec(self, rhs: Self) -> Self;

    spec fn div_spec(self, rhs: Self) -> Self;

    /// Whether `self` is strictly below `rhs`.
    spec fn less_spec(self, rhs: Self) -> bool;

    /// Whether a value can be drawn from the half-open range `low..high`.
    spec fn can_draw(low: Self, high: Self) -> bool;

    fn from_usize(n: usize) -> (r: Self)
        ensures
            r == Self::of_usize(n),
    ;

    fn add(self, rhs: Self) -> (r: Self)
        ensures
            r == self.add_spec(rhs),
    ;

    fn sub(self, rhs: Self) -> (r: Self)
        ensures
            r == self.sub_spec(rhs),
    ;

    fn mul(self, rhs: Self) -> (r: Self)
        ensures
            r == self.mul_spec(rhs),
    ;

    fn div(self, rhs: Self) -> (r: Self)
        ensures
            r == self.div_spec(rhs),
    ;

    fn less(self, rhs: Self) -> (r: bool)
        ensures
            r == self.less_spec(rhs),
    ;

    /// Draws a value from `low..high`. Two calls may differ; every outcome
    /// lies in the range.
    fn uniform(low: Self, high: Self) -> (r: Self)
        requires
            Self::can_draw(low, high),
        ensures
            !r.less_spec(low),
            r.less_spec(high),
    ;
}

pub open spec fn zero<T: Scalar>() -> T {
    T::of_usize(0)
}

pub open spec fn one<T: Scalar>() -> T {
    T::of_usize(1)
}

/// The scalar `0 - 1`.
pub open spec fn minus_one<T: Scalar>() -> T {
    zero::<T>().sub_spec(one::<T>())
}

/// Whether `x` lies in the half-open range `low..high`.
pub open spec fn within<T: Scalar>(x: T, low: T, high: T) -> bool {
    !x.less_spec(low) && x.less_spec(high)
}

/// Signed 64-bit integers as scalars: addition, subtraction and
/// multiplication wrap, division truncates toward zero and yields zero where
/// the quotient is undefined or does not fit.
impl Scalar for i64 {
    open spec fn of_usize(n: usize) -> Self {
        if n <= i64::MAX {
            n as i64
        } else {
            i64::MAX
        }
    }

    open spec fn add_spec(self, rhs: Self) -> Self {
        self.wrapping_add(rhs)
    }

    open spec fn sub_spec(self, rhs: Self) -> Self {
        self.wrapping_sub(rhs)
    }

    open spec fn mul_spec(self, rhs: Self) -> Self {
        self.wrapping_mul(rhs)
    }

    open spec fn div_spec(self, rhs: Self) -> Self {
        match self.checked_div(rhs) {
            Some(q) => q,
            None => 0,
        }
    }

    open spec fn less_spec(self, rhs: Self) -> bool {
        self < rhs
    }

    open spec fn can_draw(low: Self, high: Self) -> bool {
        low < high
    }

    fn from_usize(n: usize) -> (r: Self) {
        let wide: u64 = n as u64;
        if wide <= 0x7fff_ffff_ffff_ffff {
            wide as i64
        } else {
            i64::MAX
        }
    }

    fn add(self, rhs: Self) -> (r: Self) {
        self.wrapping_add(rhs)
    }

    fn sub(self, rhs: Self) -> (r: Self) {
        self.wrapping_sub(rhs)
    }

    fn mul(self, rhs: Self) -> (r: Self) {
        self.wrapping_mul(rhs)
    }

    fn div(self, rhs: Self) -> (r: Self) {
        match self.checked_div(rhs) {
            Some(q) => q,
            None => 0,
        }
    }

    fn less(self, rhs: Self) -> (r: bool) {
        self < rhs
    }

    fn uniform(low: Self, high: Self) -> (r: Self) {
        draw_between(low, high)
    }
}

} // verus!
