//! Vectors of the plane.

use vstd::prelude::*;
use crate::error::SimError;
use crate::scalar::Scalar;

verus! {

/// A vector of the plane, or a point of it: a pair of scalars, always copied.
#[derive(Copy, Debug, PartialEq)]
pub struct Vector2<S: Scalar> {
    pub x: S,
    pub y: S,
}

impl<S: Scalar> Clone for Vector2<S> {
    fn clone(&self) -> (r: Self)
        ensures
            r == *self,
    {
        *self
    }
}

impl<S: Scalar> Vector2<S> {
    /// The vector whose two coordinates are the scalar zero.
    pub open spec fn spec_zero() -> Self {
        Vector2 { x: S::spec_zero(), y: S::spec_zero() }
    }

    /// `self + other` in contracts: the sum, coordinate by coordinate.
    pub open spec fn spec_add(self, other: Self) -> Self {
        Vector2 { x: self.x + other.x, y: self.y + other.y }
    }

    /// `self - other` in contracts: the difference, coordinate by coordinate.
    pub open spec fn spec_sub(self, other: Self) -> Self {
        Vector2 { x: self.x - other.x, y: self.y - other.y }
    }

    /// Each coordinate multiplied by `rhs`, the coordinate on the left.
    pub open spec fn spec_scale(self, rhs: S) -> Self {
        Vector2 { x: self.x * rhs, y: self.y * rhs }
    }

    /// Each coordinate divided by `rhs`.
    pub open spec fn spec_div(self, rhs: S) -> Self {
        Vector2 { x: self.x.spec_div(rhs), y: self.y.spec_div(rhs) }
    }

    /// The Euclidean length: the root of the sum of the squared coordinates.
    pub open spec fn spec_norm(&self) -> S {
        (self.x * self.x + self.y * self.y).spec_sqrt()
    }

    /// The vector with the coordinates `x` and `y`.
    pub fn new(x: S, y: S) -> (r: Vector2<S>)
        ensures
            r.x == x,
            r.y == y,
    {
        Vector2 { x, y }
    }

    /// The zero vector.
    pub fn new_zero() -> (r: Vector2<S>)
        ensures
            r == Self::spec_zero(),
    {
        Vector2 { x: S::zero(), y: S::zero() }
    }

    /// The first coordinate.
    pub fn get_x(&self) -> (r: S)
        ensures
            r == self.x,
    {
        self.x
    }

    /// The second coordinate.
    pub fn get_y(&self) -> (r: S)
        ensures
            r == self.y,
    {
        self.y
    }

    /// The sum of the two vectors.
    pub fn add(self, other: Vector2<S>) -> (r: Vector2<S>)
        ensures
            r == self + other,
    {
        Vector2 { x: self.x.add(other.x), y: self.y.add(other.y) }
    }

    /// The vector that leads from `other` to `self`.
    pub fn sub(self, other: Vector2<S>) -> (r: Vector2<S>)
        ensures
            r == self - other,
    {
        Vector2 { x: self.x.sub(other.x), y: self.y.sub(other.y) }
    }

    /// The vector, `rhs` times as long.
    #[verifier::when_used_as_spec(spec_scale)]
    pub fn scale(self, rhs: S) -> (r: Vector2<S>)
        ensures
            r == self.spec_scale(rhs),
    {
        Vector2 { x: self.x.mul(rhs), y: self.y.mul(rhs) }
    }

    /// Divides each coordinate by `rhs`, and refuses a divisor that is a zero.
    pub fn div(self, rhs: S) -> (r: Result<Vector2<S>, SimError>)
        ensures
            rhs.spec_is_zero() ==> r == Err::<Vector2<S>, SimError>(SimError::DivisionByZero),
            !rhs.spec_is_zero() ==> r == Ok::<Vector2<S>, SimError>(self.spec_div(rhs)),
    {
        if rhs.is_zero() {
            Err(SimError::DivisionByZero)
        } else {
            Ok(Vector2 { x: self.x.div(rhs), y: self.y.div(rhs) })
        }
    }

    /// The Euclidean length of the vector.
    #[verifier::when_used_as_spec(spec_norm)]
    pub fn norm(&self) -> (r: S)
        ensures
            r == self.spec_norm(),
    {
        self.x.mul(self.x).add(self.y.mul(self.y)).sqrt()
    }
}

} // verus!
