//! What holds in exact arithmetic.
//!
//! The library computes in whatever arithmetic its number type has, rounded
//! or not. Some of what it is meant to do is true only of exact arithmetic,
//! and nearly true of rounded arithmetic. This module says what exact
//! arithmetic is and proves those laws for it.

use crate::cgh::fresnel::{fresnel_distance, fresnel_field, fresnel_terms};
use crate::cgh::recurrence::{
    phase_at, recurrence_field, recurrence_terms, start_phase, step_at, step_growth,
};
use crate::cgh::{
    arranged, degenerate, gray, greatest, least, normalized, phase, pixel_point, CghConfigView,
    Mode,
};
use crate::lut::{slot, TriFunc};
use crate::point::{distance, Point};
use crate::reals::{
    lemma_commute, lemma_factor_out, lemma_inverse_of_product, lemma_next_square,
    lemma_odd_multiple, lemma_part, lemma_quotient, lemma_regroup, lemma_root_is_unique,
    lemma_spread, lemma_square, lemma_square_of_negative, lemma_swap_factor,
};
use crate::scalar::{
    as_byte, as_index, below, difference, fraction, negation, of_i32, of_usize, product,
    quotient, rounded, square, square_root, sum, Scalar,
};
use vstd::prelude::*;

verus! {

/// The arithmetic of `T` is exact when its numbers are read as real numbers
/// by `value`: the integers are themselves, and sums, differences, products,
/// quotients by what is not zero, negations, square roots of what is not
/// negative and comparisons are those of the real numbers. Rounding keeps a
/// whole number, and a whole number from 0 to 255 is its own byte. The
/// fractional part of what is not negative is what lies above the whole
/// number below it, and that whole number is its index.
///
/// Nothing in the library assumes this. It is the setting of the laws that
/// hold in exact arithmetic and only nearly in rounded arithmetic.
pub open spec fn exact<T: Scalar>(value: spec_fn(T) -> real) -> bool {
    &&& forall|v: i32| value(#[trigger] of_i32::<T>(v)) == v as real
    &&& forall|v: usize| value(#[trigger] of_usize::<T>(v)) == v as real
    &&& forall|a: T, b: T| value(#[trigger] sum(a, b)) == value(a) + value(b)
    &&& forall|a: T, b: T| value(#[trigger] difference(a, b)) == value(a) - value(b)
    &&& forall|a: T, b: T| value(#[trigger] product(a, b)) == value(a) * value(b)
    &&& forall|a: T, b: T|
        value(b) != 0real ==> value(#[trigger] quotient(a, b)) == value(a) / value(b)
    &&& forall|a: T| value(#[trigger] negation(a)) == -value(a)
    &&& forall|a: T|
        value(a) >= 0real ==> {
            &&& value(#[trigger] square_root(a)) >= 0real
            &&& value(square_root(a)) * value(square_root(a)) == value(a)
        }
    &&& forall|a: T, b: T| #[trigger] below(a, b) == (value(a) < value(b))
    &&& forall|a: T|
        value(a) == value(a).floor() as real ==> value(#[trigger] rounded(a)) == value(a)
    &&& forall|a: T|
        value(a) == value(a).floor() as real && 0 <= value(a).floor() <= 255 ==> #[trigger] as_byte(
            a,
        ) == Some(value(a).floor() as u8)
    &&& forall|a: T|
        value(a) >= 0real ==> value(#[trigger] fraction(a)) == value(a) - value(a).floor() as real
    &&& forall|a: T|
        0 <= value(a).floor() <= usize::MAX ==> #[trigger] as_index(a) == Some(
            value(a).floor() as usize,
        )
}

/// The Fresnel phase that a point at `(px, py, pz)` sends to the pixel
/// `(x, y)`, as a formula over the real numbers:
/// `pitch * (pz + ((x - px)² + (y - py)²) / (2 pz)) / wavelength`.
pub open spec fn fresnel_phase_value(
    pitch: real,
    wavelength: real,
    px: real,
    py: real,
    pz: real,
    x: real,
    y: real,
) -> real {
    pitch * (pz + ((x - px) * (x - px) + (y - py) * (y - py)) / (2real * pz)) / wavelength
}

/// The same formula with the two divisions written as products with the
/// inverses `iw` of the wavelength and `iz` of `pz`.
spec fn phase_value(pitch: real, iw: real, px: real, py: real, pz: real, iz: real, x: real, y: real)
    -> real {
    (pitch * (pz + ((x - px) * (x - px) + (y - py) * (y - py)) * ((1real / 2real) * iz))) * iw
}

/// The two ways of writing the Fresnel phase agree.
proof fn lemma_phase_value(
    pitch: real,
    wavelength: real,
    px: real,
    py: real,
    pz: real,
    x: real,
    y: real,
)
    requires
        wavelength != 0real,
        pz != 0real,
    ensures
        fresnel_phase_value(pitch, wavelength, px, py, pz, x, y) == phase_value(
            pitch,
            1real / wavelength,
            px,
            py,
            pz,
            1real / pz,
            x,
            y,
        ),
{
    let n = (x - px) * (x - px) + (y - py) * (y - py);
    lemma_inverse_of_product(2real, pz);
    lemma_quotient(n, 2real * pz);
    lemma_quotient(pitch * (pz + n / (2real * pz)), wavelength);
}

/// The step of the phase from column `c` to the next, with the divisions
/// written as products with the inverses: the first step,
/// `pitch iw iz (2 (-px) + 1) / 2`, and `c` times its growth `pitch iw iz`.
spec fn step_value(pitch: real, iw: real, px: real, iz: real, c: real) -> real {
    (pitch * (((1real / 2real) * iw) * iz)) * (2real * (-px) + 1real) + c * (pitch * (iw * iz))
}

/// In exact arithmetic the step from column `x` is the first step plus `x`
/// times its growth.
proof fn lemma_step_value<T: Scalar>(
    value: spec_fn(T) -> real,
    config: CghConfigView<T>,
    p: Point<T>,
    x: nat,
)
    requires
        exact(value),
        value(config.wavelength) != 0real,
        value(p.z) != 0real,
    ensures
        value(step_at(config, p, x)) == step_value(
            value(config.pixel_pitch),
            1real / value(config.wavelength),
            value(p.x),
            1real / value(p.z),
            x as real,
        ),
    decreases x,
{
    let pitch = value(config.pixel_pitch);
    let wavelength = value(config.wavelength);
    let z = value(p.z);
    let growth = pitch * ((1real / wavelength) * (1real / z));
    lemma_inverse_of_product(wavelength, z);
    lemma_quotient(pitch, wavelength * z);
    assert(value(step_growth(config, p)) == growth);
    if x == 0 {
        lemma_inverse_of_product(2real, wavelength);
        lemma_inverse_of_product(2real * wavelength, z);
        lemma_quotient(pitch, 2real * wavelength * z);
        assert(value(product(product(of_i32::<T>(2), config.wavelength), p.z)) == 2real
            * wavelength * z);
        assert(0real * growth == 0real) by (nonlinear_arith);
    } else {
        lemma_step_value(value, config, p, (x - 1) as nat);
        let before = (x - 1) as nat as real;
        assert(x as real == before + 1real);
        assert(before * growth + growth == (before + 1real) * growth) by (nonlinear_arith);
    }
}

/// The growth of the phase from one column to the next is the step that the
/// running differences have reached.
proof fn lemma_phase_step(
    pitch: real,
    iw: real,
    px: real,
    py: real,
    pz: real,
    iz: real,
    c: real,
    row: real,
)
    ensures
        phase_value(pitch, iw, px, py, pz, iz, c, row) + step_value(pitch, iw, px, iz, c)
            == phase_value(
            pitch,
            iw,
            px,
            py,
            pz,
            iz,
            c + 1real,
            row,
        ),
{
    let half = 1real / 2real;
    let q = half * iz;
    let t = c - px;
    let e = (row - py) * (row - py);
    let before = pz + (t * t + e) * q;
    let w = 2real * t + 1real;
    let k = pitch * (iw * iz);
    // The phase grows by `(pitch iw) (w q)`.
    lemma_next_square(pz, t, e, q);
    lemma_spread(pitch, before, w * q, iw);
    assert(phase_value(pitch, iw, px, py, pz, iz, c + 1real, row) == phase_value(
        pitch,
        iw,
        px,
        py,
        pz,
        iz,
        c,
        row,
    ) + (pitch * iw) * (w * q));
    // That growth, term by term.
    lemma_factor_out(w, half, iz);
    lemma_factor_out(pitch * iw, half, w * iz);
    lemma_regroup(pitch, iw, w, iz);
    lemma_odd_multiple(k, c, px);
    assert((pitch * iw) * (w * q) == half * (2real * (k * c) - 2real * (k * px) + k));
    // The step, term by term.
    lemma_factor_out(iw, half, iz);
    lemma_factor_out(pitch, half, iw * iz);
    assert(pitch * ((half * iw) * iz) == half * k);
    lemma_odd_multiple(half * k, 0real, px);
    lemma_factor_out(k, half, px);
    lemma_commute(c, k);
    assert((half * k) * (2real * (-px) + 1real) + c * k == half * (2real * (k * c) - 2real * (k
        * px) + k));
}

/// In exact arithmetic the running differences give the Fresnel phase itself:
/// what they have reached at column `x` of row `y` is the real number that
/// the formula of the Fresnel approximation gives for that pixel, which is
/// also what the pixel-by-pixel processor computes. In rounded arithmetic the
/// two differ by the rounding that the row has gathered.
pub proof fn recurrence_is_exact<T: Scalar>(
    value: spec_fn(T) -> real,
    config: CghConfigView<T>,
    p: Point<T>,
    x: nat,
    y: nat,
)
    requires
        exact(value),
        value(config.wavelength) != 0real,
        value(p.z) != 0real,
        x <= usize::MAX,
        y <= usize::MAX,
    ensures
        value(phase_at(config, p, x, y)) == fresnel_phase_value(
            value(config.pixel_pitch),
            value(config.wavelength),
            value(p.x),
            value(p.y),
            value(p.z),
            x as real,
            y as real,
        ),
        value(phase(config, fresnel_distance(p, pixel_point::<T>(x, y)))) == fresnel_phase_value(
            value(config.pixel_pitch),
            value(config.wavelength),
            value(p.x),
            value(p.y),
            value(p.z),
            x as real,
            y as real,
        ),
    decreases x,
{
    let pitch = value(config.pixel_pitch);
    let wavelength = value(config.wavelength);
    let px = value(p.x);
    let py = value(p.y);
    let pz = value(p.z);
    let iw = 1real / wavelength;
    let iz = 1real / pz;
    let half = 1real / 2real;
    let row = y as real;
    let col = x as real;
    let e = (row - py) * (row - py);
    assert(value(product(of_i32::<T>(2), p.z)) == 2real * pz);
    assert(value(of_usize::<T>(y as usize)) == row);
    assert(value(of_usize::<T>(x as usize)) == col);
    assert(value(square(difference(of_usize::<T>(y as usize), p.y))) == e);
    lemma_phase_value(pitch, wavelength, px, py, pz, col, row);
    if x == 0 {
        let m = px * px + e;
        lemma_inverse_of_product(2real, pz);
        lemma_quotient(m, 2real * pz);
        lemma_quotient(pitch, wavelength);
        assert(value(start_phase(config, p, y)) == (pitch * iw) * (pz + m * (half * iz)));
        lemma_square_of_negative(px);
        lemma_swap_factor(pitch, iw, pz + m * (half * iz));
    } else {
        let before = (x - 1) as nat;
        recurrence_is_exact(value, config, p, before, y);
        lemma_step_value(value, config, p, before);
        lemma_phase_value(pitch, wavelength, px, py, pz, before as real, row);
        assert(col == before as real + 1real);
        lemma_phase_step(pitch, iw, px, py, pz, iz, before as real, row);
    }
}

/// The real number that `a` stands for under `value`.
pub open spec fn number<T>(value: spec_fn(T) -> real, a: T) -> real {
    value(a)
}

/// No two values stand for the same number.
pub open spec fn faithful<T>(value: spec_fn(T) -> real) -> bool {
    forall|a: T, b: T|
        #![trigger number(value, a), number(value, b)]
        number(value, a) == number(value, b) ==> a == b
}

/// In exact arithmetic in which no two values stand for the same number, the
/// running differences give the very field of the pixel-by-pixel Fresnel
/// processor, for every cloud of which no point lies in the plane of the
/// hologram.
pub proof fn recurrence_field_is_fresnel_field<T: Scalar, F: TriFunc<T>>(
    value: spec_fn(T) -> real,
    tri: &F,
    config: CghConfigView<T>,
    points: Seq<Point<T>>,
)
    requires
        exact(value),
        faithful(value),
        config.valid(),
        forall|j: int|
            0 <= j < points.len() ==> value(arranged(config, #[trigger] points[j]).z) != 0real,
    ensures
        recurrence_field(tri, config, points) == fresnel_field(tri, config, points),
{
    let width = config.image_width as int;
    let height = config.image_height as int;
    assert(value(config.wavelength) > 0real);
    assert forall|i: int| 0 <= i < width * height implies #[trigger] recurrence_field(
        tri,
        config,
        points,
    ).values[i] == fresnel_field(tri, config, points).values[i] by {
        let x = (i % width) as nat;
        let y = (i / width) as nat;
        vstd::arithmetic::div_mod::lemma_fundamental_div_mod(i, width);
        vstd::arithmetic::div_mod::lemma_div_pos_is_pos(i, width);
        vstd::arithmetic::div_mod::lemma_div_is_ordered_by_denominator(i, 1, width);
        assert(0 <= x < width <= u32::MAX);
        assert(0 <= y <= i <= u32::MAX);
        assert forall|j: int| 0 <= j < points.len() implies #[trigger] recurrence_terms(
            tri,
            config,
            points,
            x,
            y,
        )[j] == fresnel_terms(tri, config, points, x, y)[j] by {
            let p = arranged(config, points[j]);
            recurrence_is_exact(value, config, p, x, y);
            assert(number(value, phase_at(config, p, x, y)) == number(
                value,
                phase(config, fresnel_distance(p, pixel_point::<T>(x, y))),
            ));
        }
        assert(recurrence_terms(tri, config, points, x, y) =~= fresnel_terms(
            tri,
            config,
            points,
            x,
            y,
        ));
    }
    assert(recurrence_field(tri, config, points).values =~= fresnel_field(
        tri,
        config,
        points,
    ).values);
}

/// The squared distance of two points, over the real numbers.
pub open spec fn squared_distance_value(
    px: real,
    py: real,
    pz: real,
    qx: real,
    qy: real,
    qz: real,
) -> real {
    (px - qx) * (px - qx) + (py - qy) * (py - qy) + (pz - qz) * (pz - qz)
}

/// In exact arithmetic the distance from `p` to `q` is the root of their
/// squared distance, and so it is not negative.
pub proof fn distance_is_the_root<T: Scalar>(value: spec_fn(T) -> real, p: Point<T>, q: Point<T>)
    requires
        exact(value),
    ensures
        value(distance(p, q)) >= 0real,
        value(distance(p, q)) * value(distance(p, q)) == squared_distance_value(
            value(p.x),
            value(p.y),
            value(p.z),
            value(q.x),
            value(q.y),
            value(q.z),
        ),
{
    lemma_square(value(p.x) - value(q.x), 0real);
    lemma_square(value(p.y) - value(q.y), 0real);
    lemma_square(value(p.z) - value(q.z), 0real);
}

/// In exact arithmetic the distance is symmetric, and the distance from a
/// point to itself is zero.
pub proof fn distance_is_symmetric<T: Scalar>(value: spec_fn(T) -> real, p: Point<T>, q: Point<T>)
    requires
        exact(value),
    ensures
        value(distance(p, q)) == value(distance(q, p)),
        value(distance(p, p)) == 0real,
{
    distance_is_the_root(value, p, q);
    distance_is_the_root(value, q, p);
    distance_is_the_root(value, p, p);
    lemma_square(value(p.x), value(q.x));
    lemma_square(value(p.y), value(q.y));
    lemma_square(value(p.z), value(q.z));
    lemma_root_is_unique(value(distance(p, q)), value(distance(q, p)));
    lemma_root_is_unique(value(distance(p, p)), 0real);
}

/// The least and the greatest of the first `n` values are among them.
proof fn lemma_extremes_are_values<T: Scalar>(values: Seq<T>, n: nat) -> (at: (int, int))
    requires
        0 < n <= values.len(),
    ensures
        0 <= at.0 < n,
        0 <= at.1 < n,
        values[at.0] == least(values, n),
        values[at.1] == greatest(values, n),
    decreases n,
{
    if n == 1 {
        (0, 0)
    } else {
        let before = lemma_extremes_are_values(values, (n - 1) as nat);
        let low = if below(values[n - 1], least(values, (n - 1) as nat)) {
            n - 1
        } else {
            before.0
        };
        let high = if below(greatest(values, (n - 1) as nat), values[n - 1]) {
            n - 1
        } else {
            before.1
        };
        (low, high)
    }
}

/// In exact arithmetic the least of two different values gets the gray 0 and
/// the greatest the gray 255.
pub proof fn extremes_are_black_and_white<T: Scalar>(value: spec_fn(T) -> real, min: T, max: T)
    requires
        exact(value),
        below(min, max),
    ensures
        gray(min, min, max) == 0,
        gray(max, min, max) == 255,
{
    let d = value(max) - value(min);
    assert(d > 0real);
    assert(value(of_i32::<T>(255)) == 255real);
    assert(value(of_i32::<T>(0)) == 0real);
    let low = quotient(product(of_i32::<T>(255), difference(min, min)), difference(max, min));
    lemma_quotient(0real, d);
    assert(value(low) == 0real);
    assert(value(low).floor() == 0);
    assert(value(rounded(low)) == 0real);
    let high = quotient(product(of_i32::<T>(255), difference(max, min)), difference(max, min));
    lemma_quotient(255real * d, d);
    lemma_factor_out(d, 255real, 1real / d);
    assert(value(high) == 255real);
    assert(value(high).floor() == 255);
    assert(value(rounded(high)) == 255real);
}

/// In exact arithmetic the image of phases that spread uses the whole range
/// of grays: it is black where the least phase is, and white where the
/// greatest is.
pub proof fn spread_phases_use_the_whole_range<T: Scalar>(
    value: spec_fn(T) -> real,
    values: Seq<T>,
) -> (at: (int, int))
    requires
        exact(value),
        !degenerate(values),
    ensures
        0 <= at.0 < values.len(),
        0 <= at.1 < values.len(),
        normalized(values, Mode::Phase)[at.0] == 0,
        normalized(values, Mode::Phase)[at.1] == 255,
{
    let at = lemma_extremes_are_values(values, values.len());
    extremes_are_black_and_white(
        value,
        least(values, values.len()),
        greatest(values, values.len()),
    );
    at
}

/// In exact arithmetic the table samples a phase that is not negative less
/// than one step below where it lies in its cycle: with `f` the fractional
/// part of the phase and `k` its slot among `size` slots,
/// `k <= f * size < k + 1`.
pub proof fn slot_is_within_a_step<T: Scalar>(value: spec_fn(T) -> real, theta: T, size: usize)
    requires
        exact(value),
        value(theta) >= 0real,
        size > 0,
    ensures
        0 <= slot(theta, size) < size,
        (slot(theta, size) as real) <= (value(theta) - (value(theta).floor() as real)) * (
        size as real),
        (value(theta) - (value(theta).floor() as real)) * (size as real) < ((slot(theta, size)
            + 1) as real),
{
    let f = value(theta) - (value(theta).floor() as real);
    lemma_part(f, size as real);
    let scaled = product(fraction(theta), of_usize::<T>(size));
    assert(value(scaled) == f * (size as real));
    let k = value(scaled).floor();
    assert(0 <= k < size);
    assert(as_index(scaled) == Some(k as usize));
    vstd::arithmetic::div_mod::lemma_small_mod(k as nat, size as nat);
    assert(slot(theta, size) == k);
    assert((k as real) <= value(scaled));
    assert(value(scaled) < ((k + 1) as real));
}

} // verus!
