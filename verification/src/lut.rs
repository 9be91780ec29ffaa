//! Sine and cosine of a phase, exactly or from a table.
//!
//! A phase is given in cycles, not in radians: the phase `1` is a full turn,
//! and only the fractional part of a phase matters.

use crate::scalar::{
    as_index, cos_of, fraction, functional, of_i32, of_usize, pi, product, quotient, sin_of,
    Scalar,
};
use vstd::prelude::*;

verus! {

/// Sine and cosine of a phase in cycles.
pub trait TriFunc<T: Scalar> {
    /// The sine of the phase `theta`.
    fn sin(&self, theta: T) -> T
        requires
            functional::<T>(),
    ;

    /// The cosine of the phase `theta`.
    fn cos(&self, theta: T) -> T
        requires
            functional::<T>(),
    ;
}

/// The value of `tri.sin(theta)`.
pub open spec fn sine<T: Scalar, F: TriFunc<T>>(tri: &F, theta: T) -> T {
    choose|r: T| call_ensures(F::sin, (tri, theta), r)
}

/// The value of `tri.cos(theta)`.
pub open spec fn cosine<T: Scalar, F: TriFunc<T>>(tri: &F, theta: T) -> T {
    choose|r: T| call_ensures(F::cos, (tri, theta), r)
}

/// Both functions of `tri` are functions of the phase: the same phase always
/// gives the same result.
pub open spec fn pure<T: Scalar, F: TriFunc<T>>(tri: &F) -> bool {
    &&& forall|theta: T, r: T| #[trigger]
        call_ensures(F::sin, (tri, theta), r) ==> r == sine(tri, theta)
    &&& forall|theta: T, r: T| #[trigger]
        call_ensures(F::cos, (tri, theta), r) ==> r == cosine(tri, theta)
}

/// The angle in radians of a full turn.
pub open spec fn full_turn<T: Scalar>() -> T {
    product(of_i32::<T>(2), pi::<T>())
}

/// The angle in radians of the phase `theta`, within one turn.
pub open spec fn radians<T: Scalar>(theta: T) -> T {
    product(full_turn::<T>(), fraction(theta))
}

/// The angle in radians at which slot `i` of a table of `size` slots is sampled.
pub open spec fn slot_radians<T: Scalar>(size: usize, i: usize) -> T {
    product(quotient(full_turn::<T>(), of_usize::<T>(size)), of_usize::<T>(i))
}

/// The slot of the phase `theta` in a table of `size` slots: the fractional
/// part of `theta` times `size`, without its own fractional part. A product
/// that reaches `size` wraps around the cycle, and one that is no index at
/// all takes slot 0.
pub open spec fn slot<T: Scalar>(theta: T, size: usize) -> int {
    match as_index(product(fraction(theta), of_usize::<T>(size))) {
        Some(k) => k as int % size as int,
        None => 0,
    }
}

/// The exact evaluator: the sine and cosine of the number type itself, taken
/// at the fractional part of the phase.
#[derive(Debug)]
pub struct TriFuncStd<T>(std::marker::PhantomData<T>);

impl<T: Scalar> TriFuncStd<T> {
    /// The exact evaluator.
    pub fn new() -> Self {
        TriFuncStd(std::marker::PhantomData)
    }
}

impl<T: Scalar> TriFunc<T> for TriFuncStd<T> {
    fn sin(&self, theta: T) -> (r: T)
        ensures
            r == sin_of(radians(theta)),
    {
        T::from_i32(2).times(T::pi()).times(theta.fract()).sin()
    }

    fn cos(&self, theta: T) -> (r: T)
        ensures
            r == cos_of(radians(theta)),
    {
        T::from_i32(2).times(T::pi()).times(theta.fract()).cos()
    }
}

/// What a table is: the sine and the cosine sample of each slot.
pub struct TriFuncLutView<T> {
    pub sin: Seq<T>,
    pub cos: Seq<T>,
}

/// The samples of a table of `size` slots: slot `i` holds the sine and the
/// cosine of `slot_radians(size, i)`.
pub open spec fn samples<T: Scalar>(size: usize) -> TriFuncLutView<T> {
    TriFuncLutView {
        sin: Seq::new(size as nat, |i: int| sin_of(slot_radians::<T>(size, i as usize))),
        cos: Seq::new(size as nat, |i: int| cos_of(slot_radians::<T>(size, i as usize))),
    }
}

/// The table evaluator: `SIZE` samples of the sine and the cosine, evenly
/// spaced over one cycle. A phase gets the sample of its slot, without
/// interpolation.
#[derive(Debug)]
pub struct TriFuncLut<T, const SIZE: usize> {
    sin: Vec<T>,
    cos: Vec<T>,
}

impl<T, const SIZE: usize> View for TriFuncLut<T, SIZE> {
    type V = TriFuncLutView<T>;

    closed spec fn view(&self) -> TriFuncLutView<T> {
        TriFuncLutView { sin: self.sin@, cos: self.cos@ }
    }
}

impl<T, const SIZE: usize> TriFuncLut<T, SIZE> {
    #[verifier::type_invariant]
    spec fn inv(&self) -> bool {
        &&& SIZE > 0
        &&& self.sin@.len() == SIZE
        &&& self.cos@.len() == SIZE
    }
}

impl<T: Scalar, const SIZE: usize> TriFuncLut<T, SIZE> {
    /// The table of `SIZE` samples.
    pub fn new() -> (lut: Self)
        requires
            functional::<T>(),
            SIZE > 0,
        ensures
            lut@ == samples::<T>(SIZE),
    {
        let mut sin: Vec<T> = Vec::with_capacity(SIZE);
        let mut cos: Vec<T> = Vec::with_capacity(SIZE);
        let mut i: usize = 0;
        while i < SIZE
            invariant
                functional::<T>(),
                i <= SIZE,
                sin@ == samples::<T>(SIZE).sin.take(i as int),
                cos@ == samples::<T>(SIZE).cos.take(i as int),
            decreases SIZE - i,
        {
            let rad = T::from_i32(2).times(T::pi()).over(T::from_usize(SIZE)).times(
                T::from_usize(i),
            );
            sin.push(rad.sin());
            cos.push(rad.cos());
            assert(sin@ =~= samples::<T>(SIZE).sin.take(i + 1));
            assert(cos@ =~= samples::<T>(SIZE).cos.take(i + 1));
            i += 1;
        }
        assert(sin@ =~= samples::<T>(SIZE).sin);
        assert(cos@ =~= samples::<T>(SIZE).cos);
        TriFuncLut { sin, cos }
    }

    /// The slot of the phase `theta`.
    fn locate(theta: T) -> (k: usize)
        requires
            functional::<T>(),
            SIZE > 0,
        ensures
            k == slot(theta, SIZE),
            k < SIZE,
    {
        match theta.fract().times(T::from_usize(SIZE)).to_usize() {
            Some(k) => k % SIZE,
            None => 0,
        }
    }
}

impl<T: Scalar, const SIZE: usize> TriFunc<T> for TriFuncLut<T, SIZE> {
    fn sin(&self, theta: T) -> (r: T)
        ensures
            r == self@.sin[slot(theta, SIZE)],
    {
        proof {
            use_type_invariant(self);
        }
        let k = Self::locate(theta);
        self.sin[k]
    }

    fn cos(&self, theta: T) -> (r: T)
        ensures
            r == self@.cos[slot(theta, SIZE)],
    {
        proof {
            use_type_invariant(self);
        }
        let k = Self::locate(theta);
        self.cos[k]
    }
}

} // verus!
