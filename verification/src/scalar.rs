//! The number type the engine calculates with.
//!
//! Machine numbers round, and nothing here reasons about rounding. The engine
//! is therefore written against [`Scalar`]: a handful of arithmetic operations,
//! each with a specification function that names what it returns. All that is
//! claimed of an operation is that it is a function of its operands; no
//! algebraic law (associativity, ordering, ...) is assumed anywhere.

use vstd::prelude::*;

verus! {

/// A number of the complex plane's axes.
///
/// Every executable operation returns exactly what its `spec_` twin names,
/// that is: the same operands always give the same result. Implementations
/// over hardware binary fractions satisfy this; nothing more is asked of them.
/// In particular nothing is asked of `truncate` on a number that no count
/// stands for: whatever it returns there, the engine checks it against the
/// grid before it uses it.
///
/// No type of this library implements the trait: what is proved of the
/// engine holds for every implementation that keeps the above. An
/// implementation in compiled code has to give the `spec_` functions bodies
/// too; there each is its operation.
pub trait Scalar: Copy + Sized {
    /// The sum `self + rhs`.
    spec fn spec_plus(self, rhs: Self) -> Self;

    /// The difference `self - rhs`.
    spec fn spec_minus(self, rhs: Self) -> Self;

    /// The product `self * rhs`.
    spec fn spec_times(self, rhs: Self) -> Self;

    /// The quotient `self / rhs`.
    spec fn spec_divide(self, rhs: Self) -> Self;

    /// Whether `self < rhs`.
    spec fn spec_less_than(self, rhs: Self) -> bool;

    /// The number that stands for the count `n`.
    spec fn spec_from_count(n: u32) -> Self;

    /// The whole part of `self` as a count.
    spec fn spec_truncate(self) -> u32;

    fn plus(self, rhs: Self) -> (r: Self)
        ensures
            r == self.spec_plus(rhs),
    ;

    fn minus(self, rhs: Self) -> (r: Self)
        ensures
            r == self.spec_minus(rhs),
    ;

    fn times(self, rhs: Self) -> (r: Self)
        ensures
            r == self.spec_times(rhs),
    ;

    fn divide(self, rhs: Self) -> (r: Self)
        ensures
            r == self.spec_divide(rhs),
    ;

    fn less_than(self, rhs: Self) -> (r: bool)
        ensures
            r == self.spec_less_than(rhs),
    ;

    fn from_count(n: u32) -> (r: Self)
        ensures
            r == Self::spec_from_count(n),
    ;

    fn truncate(self) -> (r: u32)
        ensures
            r == self.spec_truncate(),
    ;
}

} // verus!
