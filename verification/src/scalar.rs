//! The number type of the simulation.
//!
//! The solver never looks inside a field value: it only combines values
//! through the operations of [`Scalar`]. Every operation is paired with a
//! specification function of the same shape, so that the contract of each
//! solver routine can name, operation by operation, the value it stores in
//! every cell.

use vstd::prelude::*;

verus! {

/// A signed number with the arithmetic the solver needs.
///
/// Each executable operation returns exactly what its `spec_` twin names;
/// nothing else is asked of an implementation. In particular no algebraic
/// law (associativity, exact rounding, ...) is assumed, so the same solver
/// runs on rounding and on saturating number types alike.
///
/// [`crate::fixed::Fixed`] is the implementation that is verified here. A
/// number type defined in code that is compiled without verification sees
/// the `spec_` functions as ordinary methods, and gives each of them the
/// body of its executable twin.
pub trait Scalar: Copy {
    /// The scalar that stands for the whole number `n`.
    spec fn spec_from_usize(n: usize) -> Self;

    /// One full turn, 2π radians.
    spec fn spec_tau() -> Self;

    spec fn spec_plus(self, rhs: Self) -> Self;

    spec fn spec_minus(self, rhs: Self) -> Self;

    spec fn spec_times(self, rhs: Self) -> Self;

    spec fn spec_over(self, rhs: Self) -> Self;

    /// Strict order.
    spec fn spec_less(self, rhs: Self) -> bool;

    /// The largest whole number not above `self`, or 0 where that is negative
    /// or not defined.
    spec fn spec_floor_index(self) -> usize;

    spec fn spec_cos(self) -> Self;

    spec fn spec_sin(self) -> Self;

    fn from_usize(n: usize) -> (r: Self)
        ensures
            r == Self::spec_from_usize(n),
    ;

    fn tau() -> (r: Self)
        ensures
            r == Self::spec_tau(),
    ;

    fn plus(self, rhs: Self) -> (r: Self)
        ensures
            r == self.spec_plus(rhs),
    ;

    fn minus(self, rhs: Self) -> (r: Self)
        ensures
            r == self.spec_minus(rhs),
    ;

    fn times(self, rhs: Self) -> (r: Self)
        ensures
            r == self.spec_times(rhs),
    ;

    fn over(self, rhs: Self) -> (r: Self)
        ensures
            r == self.spec_over(rhs),
    ;

    fn less(self, rhs: Self) -> (r: bool)
        ensures
            r == self.spec_less(rhs),
    ;

    fn floor_index(self) -> (r: usize)
        ensures
            r == self.spec_floor_index(),
    ;

    fn cos(self) -> (r: Self)
        ensures
            r == self.spec_cos(),
    ;

    fn sin(self) -> (r: Self)
        ensures
            r == self.spec_sin(),
    ;
}

pub open spec fn spec_zero<S: Scalar>() -> S {
    S::spec_from_usize(0)
}

pub open spec fn spec_one<S: Scalar>() -> S {
    S::spec_from_usize(1)
}

/// One half, as the quotient of one and two.
pub open spec fn spec_half<S: Scalar>() -> S {
    spec_one::<S>().spec_over(S::spec_from_usize(2))
}

/// Minus one half, as zero less one half.
pub open spec fn spec_neg_half<S: Scalar>() -> S {
    spec_zero::<S>().spec_minus(spec_half::<S>())
}

/// `x` held between `lo` and `hi`: `lo` where `x` is below it, `hi` where `x`
/// is above it, and `x` itself otherwise (also where no order holds).
pub open spec fn spec_clamp<S: Scalar>(x: S, lo: S, hi: S) -> S {
    if x.spec_less(lo) {
        lo
    } else if hi.spec_less(x) {
        hi
    } else {
        x
    }
}

pub fn zero<S: Scalar>() -> (r: S)
    ensures
        r == spec_zero::<S>(),
{
    S::from_usize(0)
}

pub fn one<S: Scalar>() -> (r: S)
    ensures
        r == spec_one::<S>(),
{
    S::from_usize(1)
}

pub fn half<S: Scalar>() -> (r: S)
    ensures
        r == spec_half::<S>(),
{
    S::from_usize(1).over(S::from_usize(2))
}

pub fn neg_half<S: Scalar>() -> (r: S)
    ensures
        r == spec_neg_half::<S>(),
{
    zero::<S>().minus(half::<S>())
}

pub fn clamp<S: Scalar>(x: S, lo: S, hi: S) -> (r: S)
    ensures
        r == spec_clamp(x, lo, hi),
{
    if x.less(lo) {
        lo
    } else if hi.less(x) {
        hi
    } else {
        x
    }
}

} // verus!
