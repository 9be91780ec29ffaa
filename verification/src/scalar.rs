//! The arithmetic that the fringe computation asks of its number type.
//!
//! The library computes with any type that offers the operations of
//! [`Scalar`]. It never looks inside a value: what it computes is stated over
//! the operations themselves, for every number type whose operations are
//! functions of their arguments (see [`functional`]).

use vstd::prelude::*;

verus! {

/// A real number type: the arithmetic, the elementary functions and the
/// conversions that the fringe computation uses.
pub trait Scalar: Copy + Sized {
    /// The number that stands for the integer `v`.
    fn from_i32(v: i32) -> Self;

    /// The number that stands for the count `v`.
    fn from_usize(v: usize) -> Self;

    /// The ratio of a circle's circumference to its diameter.
    fn pi() -> Self;

    /// `self + rhs`.
    fn plus(self, rhs: Self) -> Self;

    /// `self - rhs`.
    fn minus(self, rhs: Self) -> Self;

    /// `self * rhs`.
    fn times(self, rhs: Self) -> Self;

    /// `self / rhs`.
    fn over(self, rhs: Self) -> Self;

    /// `-self`.
    fn neg(self) -> Self;

    /// The square root of `self`.
    fn sqrt(self) -> Self;

    /// The sine of `self` radians.
    fn sin(self) -> Self;

    /// The cosine of `self` radians.
    fn cos(self) -> Self;

    /// The angle in radians of the point `(other, self)`: the four-quadrant
    /// arctangent of `self / other`.
    fn atan2(self, other: Self) -> Self;

    /// The fractional part of `self`.
    fn fract(self) -> Self;

    /// The integer nearest to `self`.
    fn round(self) -> Self;

    /// `self` without its fractional part as a `usize`, where it is one.
    fn to_usize(self) -> Option<usize>;

    /// `self` without its fractional part as a `u8`, where it is one.
    fn to_u8(self) -> Option<u8>;

    /// Whether `self < rhs`.
    fn less(self, rhs: Self) -> bool;
}

/// The value of `T::from_i32(v)`.
pub open spec fn of_i32<T: Scalar>(v: i32) -> T {
    choose|r: T| call_ensures(T::from_i32, (v,), r)
}

/// The value of `T::from_usize(v)`.
pub open spec fn of_usize<T: Scalar>(v: usize) -> T {
    choose|r: T| call_ensures(T::from_usize, (v,), r)
}

/// The value of `T::pi()`.
pub open spec fn pi<T: Scalar>() -> T {
    choose|r: T| call_ensures(T::pi, (), r)
}

/// The value of `a.plus(b)`.
pub open spec fn sum<T: Scalar>(a: T, b: T) -> T {
    choose|r: T| call_ensures(T::plus, (a, b), r)
}

/// The value of `a.minus(b)`.
pub open spec fn difference<T: Scalar>(a: T, b: T) -> T {
    choose|r: T| call_ensures(T::minus, (a, b), r)
}

/// The value of `a.times(b)`.
pub open spec fn product<T: Scalar>(a: T, b: T) -> T {
    choose|r: T| call_ensures(T::times, (a, b), r)
}

/// The value of `a.over(b)`.
pub open spec fn quotient<T: Scalar>(a: T, b: T) -> T {
    choose|r: T| call_ensures(T::over, (a, b), r)
}

/// The value of `a.neg()`.
pub open spec fn negation<T: Scalar>(a: T) -> T {
    choose|r: T| call_ensures(T::neg, (a,), r)
}

/// The value of `a.sqrt()`.
pub open spec fn square_root<T: Scalar>(a: T) -> T {
    choose|r: T| call_ensures(T::sqrt, (a,), r)
}

/// The value of `a.sin()`.
pub open spec fn sin_of<T: Scalar>(a: T) -> T {
    choose|r: T| call_ensures(T::sin, (a,), r)
}

/// The value of `a.cos()`.
pub open spec fn cos_of<T: Scalar>(a: T) -> T {
    choose|r: T| call_ensures(T::cos, (a,), r)
}

/// The value of `y.atan2(x)`.
pub open spec fn angle<T: Scalar>(y: T, x: T) -> T {
    choose|r: T| call_ensures(T::atan2, (y, x), r)
}

/// The value of `a.fract()`.
pub open spec fn fraction<T: Scalar>(a: T) -> T {
    choose|r: T| call_ensures(T::fract, (a,), r)
}

/// The value of `a.round()`.
pub open spec fn rounded<T: Scalar>(a: T) -> T {
    choose|r: T| call_ensures(T::round, (a,), r)
}

/// The value of `a.to_usize()`.
pub open spec fn as_index<T: Scalar>(a: T) -> Option<usize> {
    choose|r: Option<usize>| call_ensures(T::to_usize, (a,), r)
}

/// The value of `a.to_u8()`.
pub open spec fn as_byte<T: Scalar>(a: T) -> Option<u8> {
    choose|r: Option<u8>| call_ensures(T::to_u8, (a,), r)
}

/// The value of `a.less(b)`.
pub open spec fn below<T: Scalar>(a: T, b: T) -> bool {
    choose|r: bool| call_ensures(T::less, (a, b), r)
}

/// The number zero.
pub open spec fn zero<T: Scalar>() -> T {
    of_i32::<T>(0)
}

/// `a * a`.
pub open spec fn square<T: Scalar>(a: T) -> T {
    product(a, a)
}

/// Every operation of `T` is a function: the same arguments always give the
/// same result.
pub open spec fn functional<T: Scalar>() -> bool {
    &&& forall|v: i32, r: T| #[trigger] call_ensures(T::from_i32, (v,), r) ==> r == of_i32::<T>(v)
    &&& forall|v: usize, r: T| #[trigger]
        call_ensures(T::from_usize, (v,), r) ==> r == of_usize::<T>(v)
    &&& forall|r: T| #[trigger] call_ensures(T::pi, (), r) ==> r == pi::<T>()
    &&& forall|a: T, b: T, r: T| #[trigger] call_ensures(T::plus, (a, b), r) ==> r == sum(a, b)
    &&& forall|a: T, b: T, r: T| #[trigger]
        call_ensures(T::minus, (a, b), r) ==> r == difference(a, b)
    &&& forall|a: T, b: T, r: T| #[trigger]
        call_ensures(T::times, (a, b), r) ==> r == product(a, b)
    &&& forall|a: T, b: T, r: T| #[trigger]
        call_ensures(T::over, (a, b), r) ==> r == quotient(a, b)
    &&& forall|a: T, r: T| #[trigger] call_ensures(T::neg, (a,), r) ==> r == negation(a)
    &&& forall|a: T, r: T| #[trigger] call_ensures(T::sqrt, (a,), r) ==> r == square_root(a)
    &&& forall|a: T, r: T| #[trigger] call_ensures(T::sin, (a,), r) ==> r == sin_of(a)
    &&& forall|a: T, r: T| #[trigger] call_ensures(T::cos, (a,), r) ==> r == cos_of(a)
    &&& forall|a: T, b: T, r: T| #[trigger] call_ensures(T::atan2, (a, b), r) ==> r == angle(a, b)
    &&& forall|a: T, r: T| #[trigger] call_ensures(T::fract, (a,), r) ==> r == fraction(a)
    &&& forall|a: T, r: T| #[trigger] call_ensures(T::round, (a,), r) ==> r == rounded(a)
    &&& forall|a: T, r: Option<usize>| #[trigger]
        call_ensures(T::to_usize, (a,), r) ==> r == as_index(a)
    &&& forall|a: T, r: Option<u8>| #[trigger] call_ensures(T::to_u8, (a,), r) ==> r == as_byte(a)
    &&& forall|a: T, b: T, r: bool| #[trigger] call_ensures(T::less, (a, b), r) ==> r == below(a, b)
}

} // verus!
