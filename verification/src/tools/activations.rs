//! Scalar activation functions and their derivatives.
//!
//! Each is a pure function of one scalar. The exponential that the logistic
//! function needs is no arithmetic operation of [`Scalar`]: the caller hands
//! it in as a function value.

use crate::scalar::{minus_one, one, zero, Scalar};
use vstd::prelude::*;

verus! {

/// `max(x, 0)`: zero below zero, `x` itself elsewhere.
pub open spec fn relu_spec<T: Scalar>(x: T) -> T {
    if x.less_spec(zero::<T>()) {
        zero::<T>()
    } else {
        x
    }
}

/// The slope of `relu` at the pre-activation `x`: zero below zero, one
/// elsewhere, zero itself included.
pub open spec fn drelu_spec<T: Scalar>(x: T) -> T {
    if x.less_spec(zero::<T>()) {
        zero::<T>()
    } else {
        one::<T>()
    }
}

/// `x * (1 - x)`: the slope of the logistic function, given its output `x`.
pub open spec fn dsigmoid_spec<T: Scalar>(x: T) -> T {
    x.mul_spec(one::<T>().sub_spec(x))
}

/// `1 - x * x`: the slope of the hyperbolic tangent, given its output `x`.
pub open spec fn dtanh_spec<T: Scalar>(x: T) -> T {
    one::<T>().sub_spec(x.mul_spec(x))
}

/// The magnitude of `x`: `x` times minus one below zero, `x` itself elsewhere.
pub open spec fn abs_spec<T: Scalar>(x: T) -> T {
    if x.less_spec(zero::<T>()) {
        minus_one::<T>().mul_spec(x)
    } else {
        x
    }
}

/// The logistic function written over `e`, the exponential of its argument:
/// `e / (1 + e)`.
pub open spec fn logistic<T: Scalar>(e: T) -> T {
    e.div_spec(one::<T>().add_spec(e))
}

/// What the function value `f` returns on `x`, where it returns anything.
pub open spec fn outcome<A, B, F: Fn(A) -> B>(f: F, x: A) -> B {
    choose|r: B| call_ensures(f, (x,), r)
}

/// Whether `f` accepts every argument and its result is a function of the
/// argument alone.
pub open spec fn is_pure<A, B, F: Fn(A) -> B>(f: F) -> bool {
    &&& forall|x: A| call_requires(f, (x,))
    &&& forall|x: A, r: B| call_ensures(f, (x,), r) ==> r == outcome(f, x)
}

/// The logistic function of `x` under the pure exponential `exp`.
pub open spec fn sigmoid_spec<T: Scalar, E: Fn(T) -> T>(exp: E, x: T) -> T {
    logistic(outcome(exp, x))
}

pub fn relu<T: Scalar>(x: T) -> (r: T)
    ensures
        r == relu_spec(x),
{
    let nought = T::from_usize(0);
    if x.less(nought) {
        nought
    } else {
        x
    }
}

pub fn drelu<T: Scalar>(x: T) -> (r: T)
    ensures
        r == drelu_spec(x),
        x.less_spec(zero::<T>()) ==> r == zero::<T>(),
        !x.less_spec(zero::<T>()) ==> r == one::<T>(),
{
    if x.less(T::from_usize(0)) {
        T::from_usize(0)
    } else {
        T::from_usize(1)
    }
}

pub fn dsigmoid<T: Scalar>(x: T) -> (r: T)
    ensures
        r == dsigmoid_spec(x),
{
    x.mul(T::from_usize(1).sub(x))
}

pub fn dtanh<T: Scalar>(x: T) -> (r: T)
    ensures
        r == dtanh_spec(x),
{
    T::from_usize(1).sub(x.mul(x))
}

pub fn abs<T: Scalar>(x: T) -> (r: T)
    ensures
        r == abs_spec(x),
{
    let nought = T::from_usize(0);
    if x.less(nought) {
        nought.sub(T::from_usize(1)).mul(x)
    } else {
        x
    }
}

/// The logistic function `exp(x) / (1 + exp(x))`. The exponential is asked
/// once; the result is the logistic form of whatever it returned.
pub fn sigmoid<T: Scalar, E: Fn(T) -> T>(x: T, exp: &E) -> (r: T)
    requires
        call_requires(*exp, (x,)),
    ensures
        exists|e: T| #[trigger] call_ensures(*exp, (x,), e) && r == logistic(e),
        is_pure(*exp) ==> r == sigmoid_spec(*exp, x),
{
    let e = exp(x);
    e.div(T::from_usize(1).add(e))
}

} // verus!
