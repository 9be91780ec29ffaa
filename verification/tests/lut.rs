use holography::lut::{TriFunc, TriFuncLut, TriFuncStd};
use holography::scalar::Scalar;
use num::ToPrimitive;
use std::f64::consts::PI;

#[derive(Debug, Clone, Copy, PartialEq, PartialOrd)]
struct Real(f64);

impl Scalar for Real {
    fn from_i32(v: i32) -> Self {
        Real(v as f64)
    }
    fn from_usize(v: usize) -> Self {
        Real(v as f64)
    }
    fn pi() -> Self {
        Real(std::f64::consts::PI)
    }
    fn plus(self, rhs: Self) -> Self {
        Real(self.0 + rhs.0)
    }
    fn minus(self, rhs: Self) -> Self {
        Real(self.0 - rhs.0)
    }
    fn times(self, rhs: Self) -> Self {
        Real(self.0 * rhs.0)
    }
    fn over(self, rhs: Self) -> Self {
        Real(self.0 / rhs.0)
    }
    fn neg(self) -> Self {
        Real(-self.0)
    }
    fn sqrt(self) -> Self {
        Real(self.0.sqrt())
    }
    fn sin(self) -> Self {
        Real(self.0.sin())
    }
    fn cos(self) -> Self {
        Real(self.0.cos())
    }
    fn atan2(self, other: Self) -> Self {
        Real(self.0.atan2(other.0))
    }
    fn fract(self) -> Self {
        Real(self.0.fract())
    }
    fn round(self) -> Self {
        Real(self.0.round())
    }
    fn to_usize(self) -> Option<usize> {
        ToPrimitive::to_usize(&self.0)
    }
    fn to_u8(self) -> Option<u8> {
        ToPrimitive::to_u8(&self.0)
    }
    fn less(self, rhs: Self) -> bool {
        self.0 < rhs.0
    }
}

#[test]
fn exact_values_at_quarter_cycles() {
    let tri = TriFuncStd::<Real>::new();
    assert_eq!(tri.sin(Real(0.0)), Real(0.0));
    assert_eq!(tri.cos(Real(0.0)), Real(1.0));
    assert_eq!(tri.sin(Real(0.25)), Real(1.0));
    assert_eq!(tri.cos(Real(0.5)), Real(-1.0));
    assert_eq!(tri.sin(Real(0.75)), Real(-1.0));
}

#[test]
fn exact_takes_a_phase_in_cycles() {
    let tri = TriFuncStd::<Real>::new();
    assert_eq!(tri.sin(Real(0.125)), Real((2.0 * PI * 0.125).sin()));
    assert_eq!(tri.cos(Real(0.125)), Real((2.0 * PI * 0.125).cos()));
}

#[test]
fn exact_uses_the_fractional_cycle() {
    let tri = TriFuncStd::<Real>::new();
    assert_eq!(tri.sin(Real(3.25)), tri.sin(Real(0.25)));
    assert_eq!(tri.cos(Real(1920000.5)), tri.cos(Real(0.5)));
    assert_eq!(tri.sin(Real(1538.375)), Real((2.0 * PI * 0.375).sin()));
}

#[test]
fn table_holds_the_samples_of_its_slots() {
    let lut = TriFuncLut::<Real, 8>::new();
    for i in 0..8usize {
        let rad = (2.0 * PI / 8.0) * i as f64;
        let theta = Real(i as f64 / 8.0);
        assert_eq!(lut.sin(theta), Real(rad.sin()));
        assert_eq!(lut.cos(theta), Real(rad.cos()));
    }
}

#[test]
fn table_of_four_slots() {
    let lut = TriFuncLut::<Real, 4>::new();
    assert_eq!(lut.sin(Real(0.0)), Real(0.0));
    assert_eq!(lut.cos(Real(0.0)), Real(1.0));
    assert_eq!(lut.sin(Real(0.25)), Real(1.0));
    assert_eq!(lut.cos(Real(0.5)), Real(-1.0));
    assert_eq!(lut.sin(Real(0.75)), Real(-1.0));
}

#[test]
fn table_does_not_interpolate() {
    let lut = TriFuncLut::<Real, 4>::new();
    assert_eq!(lut.sin(Real(0.24)), Real(0.0));
    assert_eq!(lut.sin(Real(0.26)), Real(1.0));
    assert_eq!(lut.sin(Real(0.49)), Real(1.0));
    assert_eq!(lut.cos(Real(0.99)), lut.cos(Real(0.75)));
}

#[test]
fn table_uses_the_fractional_cycle() {
    let lut = TriFuncLut::<Real, 16>::new();
    assert_eq!(lut.sin(Real(5.3)), lut.sin(Real(0.3)));
    assert_eq!(lut.cos(Real(1000.0625)), lut.cos(Real(0.0625)));
}

#[test]
fn table_of_one_slot() {
    let lut = TriFuncLut::<Real, 1>::new();
    for theta in [0.0, 0.3, 0.99, 7.5] {
        assert_eq!(lut.sin(Real(theta)), Real(0.0));
        assert_eq!(lut.cos(Real(theta)), Real(1.0));
    }
}

#[test]
fn table_takes_slot_zero_where_the_phase_has_no_slot() {
    let lut = TriFuncLut::<Real, 4>::new();
    assert_eq!(lut.sin(Real(f64::NAN)), Real(0.0));
    assert_eq!(lut.cos(Real(f64::NAN)), Real(1.0));
    assert_eq!(lut.cos(Real(-0.5)), Real(1.0));
    assert_eq!(lut.cos(Real(f64::INFINITY)), Real(1.0));
}

fn worst_error<const N: usize>(lut: &TriFuncLut<Real, N>, half_step_only: bool) -> f64 {
    let exact = TriFuncStd::<Real>::new();
    let mut worst: f64 = 0.0;
    for k in 0..20000 {
        let theta = k as f64 * 0.000173 + 0.00001;
        let within = (theta.fract() * N as f64).fract();
        if half_step_only && within > 0.5 {
            continue;
        }
        let ds = (lut.sin(Real(theta)).0 - exact.sin(Real(theta)).0).abs();
        let dc = (lut.cos(Real(theta)).0 - exact.cos(Real(theta)).0).abs();
        worst = worst.max(ds).max(dc);
    }
    worst
}

#[test]
fn table_error_is_bounded_by_the_step() {
    assert!(worst_error(&TriFuncLut::<Real, 64>::new(), false) <= 2.0 * PI / 64.0);
    assert!(worst_error(&TriFuncLut::<Real, 1024>::new(), false) <= 2.0 * PI / 1024.0);
    assert!(worst_error(&TriFuncLut::<Real, 4096>::new(), false) <= 2.0 * PI / 4096.0);
}

#[test]
fn table_error_is_bounded_by_half_the_step_near_the_sample() {
    assert!(worst_error(&TriFuncLut::<Real, 64>::new(), true) <= PI / 64.0);
    assert!(worst_error(&TriFuncLut::<Real, 1024>::new(), true) <= PI / 1024.0);
    assert!(worst_error(&TriFuncLut::<Real, 4096>::new(), true) <= PI / 4096.0);
}

#[test]
fn table_error_shrinks_as_the_table_grows() {
    let coarse = worst_error(&TriFuncLut::<Real, 16>::new(), false);
    let middle = worst_error(&TriFuncLut::<Real, 256>::new(), false);
    let fine = worst_error(&TriFuncLut::<Real, 4096>::new(), false);
    assert!(coarse > middle);
    assert!(middle > fine);
    assert!(fine > 0.0);
}
