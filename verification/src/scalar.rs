//! The arithmetic that the simulator is generic over.

use vstd::prelude::*;

verus! {

/// A scalar: a mass, a coordinate, an energy.
///
/// Every operation comes twice. The `spec_` function is its meaning in
/// contracts; the executable method must return exactly that value. Nothing
/// else is assumed of the operations: no associativity, no commutativity, no
/// identity. A contract of this crate therefore fixes the order in which the
/// operations are applied, and it holds for rounding arithmetic as well as
/// for exact arithmetic.
///
/// In contracts `a + b`, `a - b` and `a * b` stand for `spec_add`, `spec_sub`
/// and `spec_mul`.
///
/// The verifier checks an implementation only if it is written in Verus.
/// What is proved of the simulator holds for an implementation whose methods
/// are functions of their operands and agree with its `spec_` functions.
pub trait Scalar: Sized + Copy {
    /// The scalar that sums start from.
    spec fn spec_zero() -> Self;

    /// The factor one half of the kinetic energy.
    spec fn spec_half() -> Self;

    /// The scalar that stands for a whole number of ticks.
    spec fn spec_from_i64(n: i64) -> Self;

    /// The sum: `self + rhs` in contracts.
    spec fn spec_add(self, rhs: Self) -> Self;

    /// The difference: `self - rhs` in contracts.
    spec fn spec_sub(self, rhs: Self) -> Self;

    /// The product: `self * rhs` in contracts.
    spec fn spec_mul(self, rhs: Self) -> Self;

    /// The quotient. It has a meaning only where `rhs` is not a zero.
    spec fn spec_div(self, rhs: Self) -> Self;

    /// The square root.
    spec fn spec_sqrt(self) -> Self;

    /// Whether the scalar is a zero, by which nothing is divided.
    spec fn spec_is_zero(self) -> bool;

    /// Whether the scalar is greater than zero.
    spec fn spec_is_positive(self) -> bool;

    fn zero() -> (r: Self)
        ensures
            r == Self::spec_zero(),
    ;

    fn half() -> (r: Self)
        ensures
            r == Self::spec_half(),
    ;

    fn from_i64(n: i64) -> (r: Self)
        ensures
            r == Self::spec_from_i64(n),
    ;

    fn add(self, rhs: Self) -> (r: Self)
        ensures
            r == self + rhs,
    ;

    fn sub(self, rhs: Self) -> (r: Self)
        ensures
            r == self - rhs,
    ;

    fn mul(self, rhs: Self) -> (r: Self)
        ensures
            r == self * rhs,
    ;

    /// The quotient. The divisor is never a zero.
    fn div(self, rhs: Self) -> (r: Self)
        requires
            !rhs.spec_is_zero(),
        ensures
            r == self.spec_div(rhs),
    ;

    fn sqrt(self) -> (r: Self)
        ensures
            r == self.spec_sqrt(),
    ;

    fn is_zero(self) -> (r: bool)
        ensures
            r == self.spec_is_zero(),
    ;

    fn is_positive(self) -> (r: bool)
        ensures
            r == self.spec_is_positive(),
    ;
}

} // verus!
