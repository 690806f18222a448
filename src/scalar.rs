//! The numeric capability that graphs are generic over.

use vstd::prelude::*;

verus! {

/// The numeric capability that a [`crate::graph::Context`] computes with.
///
/// Each operation is named by a spec function, and the executable method returns
/// exactly that name applied to its arguments: an implementation must be a
/// deterministic function of its arguments (IEEE-754 `f64` arithmetic is). Nothing
/// else is assumed of the arithmetic, so the graph's contracts hold for any such
/// implementation, including ones whose results are non-finite.
///
/// The spec functions are opaque to generic code; their default bodies only let an
/// implementation written outside verified code supply the executable methods alone.
pub trait Scalar: Copy + Sized {
    /// The additive identity (`0`).
    closed spec fn spec_zero() -> Self {
        arbitrary()
    }

    /// The multiplicative identity (`1`).
    closed spec fn spec_one() -> Self {
        arbitrary()
    }

    /// Minus one (`-1`).
    closed spec fn spec_minus_one() -> Self {
        arbitrary()
    }

    /// `a + b`.
    closed spec fn spec_add(a: Self, b: Self) -> Self {
        arbitrary()
    }

    /// `a * b`.
    closed spec fn spec_mul(a: Self, b: Self) -> Self {
        arbitrary()
    }

    /// `a` raised to the real power `p`.
    closed spec fn spec_powf(a: Self, p: Self) -> Self {
        arbitrary()
    }

    /// The natural exponential of `a`.
    closed spec fn spec_exp(a: Self) -> Self {
        arbitrary()
    }

    /// Whether `a` is strictly greater than zero.
    closed spec fn spec_is_positive(a: Self) -> bool {
        arbitrary()
    }

    /// Whether `a` is finite (neither infinite nor NaN).
    closed spec fn spec_is_finite(a: Self) -> bool {
        arbitrary()
    }

    /// How `a` is written as a literal.
    closed spec fn spec_text(a: Self) -> Seq<char> {
        arbitrary()
    }

    fn zero() -> (r: Self)
        ensures
            r == Self::spec_zero(),
    ;

    fn one() -> (r: Self)
        ensures
            r == Self::spec_one(),
    ;

    fn minus_one() -> (r: Self)
        ensures
            r == Self::spec_minus_one(),
    ;

    fn add(&self, other: &Self) -> (r: Self)
        ensures
            r == Self::spec_add(*self, *other),
    ;

    fn mul(&self, other: &Self) -> (r: Self)
        ensures
            r == Self::spec_mul(*self, *other),
    ;

    fn powf(&self, p: &Self) -> (r: Self)
        ensures
            r == Self::spec_powf(*self, *p),
    ;

    fn exp(&self) -> (r: Self)
        ensures
            r == Self::spec_exp(*self),
    ;

    fn is_positive(&self) -> (r: bool)
        ensures
            r == Self::spec_is_positive(*self),
    ;

    fn is_finite(&self) -> (r: bool)
        ensures
            r == Self::spec_is_finite(*self),
    ;

    fn to_text(&self) -> (r: String)
        ensures
            r@ == Self::spec_text(*self),
    ;
}

} // verus!
