//! Points in space.

use crate::scalar::{difference, functional, product, square, square_root, sum, zero, Scalar};
use vstd::prelude::*;

verus! {

/// A point, or a displacement, by its three coordinates.
#[derive(Debug, Clone, Copy)]
pub struct Point<T> {
    pub x: T,
    pub y: T,
    pub z: T,
}

/// The point whose coordinates are all zero.
pub open spec fn origin<T: Scalar>() -> Point<T> {
    Point { x: zero::<T>(), y: zero::<T>(), z: zero::<T>() }
}

/// `p` moved by `by`, coordinate by coordinate.
pub open spec fn moved<T: Scalar>(p: Point<T>, by: Point<T>) -> Point<T> {
    Point { x: sum(p.x, by.x), y: sum(p.y, by.y), z: sum(p.z, by.z) }
}

/// `p` with each coordinate multiplied by `by`.
pub open spec fn scaled<T: Scalar>(p: Point<T>, by: T) -> Point<T> {
    Point { x: product(p.x, by), y: product(p.y, by), z: product(p.z, by) }
}

/// The Euclidean distance from `p` to `q`: the square root of the squared
/// differences of the coordinates, added from `x` to `z`.
pub open spec fn distance<T: Scalar>(p: Point<T>, q: Point<T>) -> T {
    square_root(
        sum(
            sum(square(difference(p.x, q.x)), square(difference(p.y, q.y))),
            square(difference(p.z, q.z)),
        ),
    )
}

impl<T: Scalar> Point<T> {
    /// The point with the coordinates `x`, `y`, `z`.
    pub fn new(x: T, y: T, z: T) -> (p: Self)
        ensures
            p == (Point { x, y, z }),
    {
        Point { x, y, z }
    }

    /// The point whose coordinates are all zero.
    pub fn zero() -> (p: Self)
        requires
            functional::<T>(),
        ensures
            p == origin::<T>(),
    {
        Point { x: T::from_i32(0), y: T::from_i32(0), z: T::from_i32(0) }
    }

    /// The Euclidean distance from `self` to `other`.
    pub fn distance(&self, other: &Self) -> (d: T)
        requires
            functional::<T>(),
        ensures
            d == distance(*self, *other),
    {
        let x = self.x.minus(other.x);
        let y = self.y.minus(other.y);
        let z = self.z.minus(other.z);
        x.times(x).plus(y.times(y)).plus(z.times(z)).sqrt()
    }

    /// `self` moved by `other`.
    pub fn add(self, other: Self) -> (p: Self)
        requires
            functional::<T>(),
        ensures
            p == moved(self, other),
    {
        Point { x: self.x.plus(other.x), y: self.y.plus(other.y), z: self.z.plus(other.z) }
    }

    /// `self` with each coordinate multiplied by `scalar`.
    pub fn mul(self, scalar: T) -> (p: Self)
        requires
            functional::<T>(),
        ensures
            p == scaled(self, scalar),
    {
        Point { x: self.x.times(scalar), y: self.y.times(scalar), z: self.z.times(scalar) }
    }
}

} // verus!
