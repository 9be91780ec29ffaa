use holography::point::Point;
use holography::scalar::Scalar;
use num::ToPrimitive;

#[derive(Debug, Clone, Copy, PartialEq, PartialOrd)]
struct Real(f64);

impl Scalar for Real {
    fn from_i32(v: i32) -> Self {
        Real(v as f64)
    }
    fn from_usize(v: usize) -> Self {
        Real(v as f64)
    }
    fn pi() -> Self {
        Real(std::f64::consts::PI)
    }
    fn plus(self, rhs: Self) -> Self {
        Real(self.0 + rhs.0)
    }
    fn minus(self, rhs: Self) -> Self {
        Real(self.0 - rhs.0)
    }
    fn times(self, rhs: Self) -> Self {
        Real(self.0 * rhs.0)
    }
    fn over(self, rhs: Self) -> Self {
        Real(self.0 / rhs.0)
    }
    fn neg(self) -> Self {
        Real(-self.0)
    }
    fn sqrt(self) -> Self {
        Real(self.0.sqrt())
    }
    fn sin(self) -> Self {
        Real(self.0.sin())
    }
    fn cos(self) -> Self {
        Real(self.0.cos())
    }
    fn atan2(self, other: Self) -> Self {
        Real(self.0.atan2(other.0))
    }
    fn fract(self) -> Self {
        Real(self.0.fract())
    }
    fn round(self) -> Self {
        Real(self.0.round())
    }
    fn to_usize(self) -> Option<usize> {
        ToPrimitive::to_usize(&self.0)
    }
    fn to_u8(self) -> Option<u8> {
        ToPrimitive::to_u8(&self.0)
    }
    fn less(self, rhs: Self) -> bool {
        self.0 < rhs.0
    }
}

fn point(x: f64, y: f64, z: f64) -> Point<Real> {
    Point::new(Real(x), Real(y), Real(z))
}

fn coordinates(p: Point<Real>) -> (f64, f64, f64) {
    (p.x.0, p.y.0, p.z.0)
}

#[test]
fn new_keeps_the_coordinates() {
    assert_eq!(coordinates(point(1.5, -2.0, 3.25)), (1.5, -2.0, 3.25));
}

#[test]
fn zero_is_the_origin() {
    assert_eq!(coordinates(Point::<Real>::zero()), (0.0, 0.0, 0.0));
}

#[test]
fn distance_of_a_known_triangle() {
    assert_eq!(point(0.0, 0.0, 0.0).distance(&point(3.0, 4.0, 0.0)), Real(5.0));
    assert_eq!(point(1.0, 2.0, 3.0).distance(&point(3.0, 5.0, 9.0)), Real(7.0));
}

#[test]
fn distance_is_symmetric() {
    let points = [
        point(0.0, 0.0, 0.0),
        point(1.5, -2.25, 1e6),
        point(-7.0, 3.0, 125000.0),
        point(32.0, 32.0, 0.0),
        point(1e-9, 1e9, -4.0),
    ];
    for p in &points {
        for q in &points {
            assert_eq!(p.distance(q), q.distance(p));
        }
    }
}

#[test]
fn distance_to_itself_is_zero() {
    for p in [point(0.0, 0.0, 0.0), point(1.5, -2.25, 1e6), point(-1e300, 3.0, 1e-300)] {
        assert_eq!(p.distance(&p), Real(0.0));
    }
}

#[test]
fn add_moves_each_coordinate() {
    let moved = point(1.0, 2.0, 3.0).add(point(10.0, -20.0, 0.5));
    assert_eq!(coordinates(moved), (11.0, -18.0, 3.5));
}

#[test]
fn mul_scales_each_coordinate() {
    let scaled = point(1.0, -2.0, 3.0).mul(Real(40.0));
    assert_eq!(coordinates(scaled), (40.0, -80.0, 120.0));
}

#[test]
fn scale_then_move_places_a_cloud_point() {
    let placed = point(10.0, -10.0, 10.0)
        .mul(Real(40.0))
        .add(point(960.0, 540.0, 125000.0));
    assert_eq!(coordinates(placed), (1360.0, 140.0, 125400.0));
}
