//! The Fresnel approximation, row by row with running differences.
//!
//! Along a row the Fresnel phase of a point is a quadratic in the column, so
//! its step from one column to the next grows by the same amount each time.
//! The full formula is worked out once for each point at the start of a row;
//! after that the phase and its step are carried on by two additions for each
//! column. The sums are exact in exact arithmetic. In rounded arithmetic each
//! column inherits the rounding of the columns before it, and the phases are
//! not set right again within a row.

use crate::bmp::{lemma_position, DATA_OFFSET};
use crate::cgh::{
    argument, arranged, phasor_sum, CghConfig, CghConfigView, CghProcessor, RawField,
    RawFieldView,
};
use crate::lut::{cosine, pure, sine, TriFunc};
use crate::object::Object3d;
use crate::point::Point;
use crate::scalar::{
    difference, functional, negation, of_i32, of_usize, product, quotient, square, sum, zero,
    Scalar,
};
use vstd::prelude::*;

verus! {

/// The phase that the point `p` sends to column 0 of row `y`:
/// `(pitch / wavelength) * (p.z + (p.x² + (y - p.y)²) / (2 p.z))`.
pub open spec fn start_phase<T: Scalar>(config: CghConfigView<T>, p: Point<T>, y: nat) -> T {
    product(
        quotient(config.pixel_pitch, config.wavelength),
        sum(
            p.z,
            quotient(
                sum(square(p.x), square(difference(of_usize::<T>(y as usize), p.y))),
                product(of_i32::<T>(2), p.z),
            ),
        ),
    )
}

/// The step of the phase of the point `p` from column 0 to column 1:
/// `(pitch / (2 wavelength p.z)) * (2 (-p.x) + 1)`.
pub open spec fn start_step<T: Scalar>(config: CghConfigView<T>, p: Point<T>) -> T {
    product(
        quotient(
            config.pixel_pitch,
            product(product(of_i32::<T>(2), config.wavelength), p.z),
        ),
        sum(product(of_i32::<T>(2), negation(p.x)), of_i32::<T>(1)),
    )
}

/// The amount by which the step of the phase of the point `p` grows from one
/// column to the next: `pitch / (wavelength p.z)`.
pub open spec fn step_growth<T: Scalar>(config: CghConfigView<T>, p: Point<T>) -> T {
    quotient(config.pixel_pitch, product(config.wavelength, p.z))
}

/// The step of the phase of the point `p` from column `x` to column `x + 1`.
pub open spec fn step_at<T: Scalar>(config: CghConfigView<T>, p: Point<T>, x: nat) -> T
    decreases x,
{
    if x == 0 {
        start_step(config, p)
    } else {
        sum(step_at(config, p, (x - 1) as nat), step_growth(config, p))
    }
}

/// The phase that the point `p` sends to column `x` of row `y`.
pub open spec fn phase_at<T: Scalar>(config: CghConfigView<T>, p: Point<T>, x: nat, y: nat) -> T
    decreases x,
{
    if x == 0 {
        start_phase(config, p, y)
    } else {
        sum(phase_at(config, p, (x - 1) as nat, y), step_at(config, p, (x - 1) as nat))
    }
}

/// The wave that the point `p` of the cloud sends to pixel `(x, y)`: the
/// cosine and the sine of its phase there.
pub open spec fn recurrence_term<T: Scalar, F: TriFunc<T>>(
    tri: &F,
    config: CghConfigView<T>,
    p: Point<T>,
    x: nat,
    y: nat,
) -> (T, T) {
    let theta = phase_at(config, arranged(config, p), x, y);
    (cosine(tri, theta), sine(tri, theta))
}

/// The waves that the points send to pixel `(x, y)`, in the order of the cloud.
pub open spec fn recurrence_terms<T: Scalar, F: TriFunc<T>>(
    tri: &F,
    config: CghConfigView<T>,
    points: Seq<Point<T>>,
    x: nat,
    y: nat,
) -> Seq<(T, T)> {
    Seq::new(points.len(), |j: int| recurrence_term(tri, config, points[j], x, y))
}

/// The phase of the light at pixel `(x, y)`: the angle of the sum of all waves.
pub open spec fn recurrence_pixel<T: Scalar, F: TriFunc<T>>(
    tri: &F,
    config: CghConfigView<T>,
    points: Seq<Point<T>>,
    x: nat,
    y: nat,
) -> T {
    argument(recurrence_terms(tri, config, points, x, y))
}

/// The phase of the light at each pixel.
pub open spec fn recurrence_field<T: Scalar, F: TriFunc<T>>(
    tri: &F,
    config: CghConfigView<T>,
    points: Seq<Point<T>>,
) -> RawFieldView<T> {
    RawFieldView {
        width: config.image_width,
        height: config.image_height,
        values: Seq::new(
            config.image_width * config.image_height,
            |i: int|
                recurrence_pixel(
                    tri,
                    config,
                    points,
                    (i % config.image_width as int) as nat,
                    (i / config.image_width as int) as nat,
                ),
        ),
    }
}

/// The phases of all points at column `x` of row `y`, in the order of the cloud.
pub open spec fn phases<T: Scalar>(
    config: CghConfigView<T>,
    points: Seq<Point<T>>,
    x: nat,
    y: nat,
) -> Seq<T> {
    Seq::new(points.len(), |j: int| phase_at(config, arranged(config, points[j]), x, y))
}

/// The steps of all points from column `x`, in the order of the cloud.
pub open spec fn steps<T: Scalar>(config: CghConfigView<T>, points: Seq<Point<T>>, x: nat) -> Seq<
    T,
> {
    Seq::new(points.len(), |j: int| step_at(config, arranged(config, points[j]), x))
}

/// The growth of the steps of all points, in the order of the cloud.
pub open spec fn growths<T: Scalar>(config: CghConfigView<T>, points: Seq<Point<T>>) -> Seq<T> {
    Seq::new(points.len(), |j: int| step_growth(config, arranged(config, points[j])))
}

/// The phases of the light along row `y`, from the first column to the last.
pub open spec fn recurrence_row<T: Scalar, F: TriFunc<T>>(
    tri: &F,
    config: CghConfigView<T>,
    points: Seq<Point<T>>,
    y: nat,
) -> Seq<T> {
    Seq::new(config.image_width, |x: int| recurrence_pixel(tri, config, points, x as nat, y))
}

/// The Fresnel approximation, row by row with running differences.
#[derive(Debug, Clone, Copy)]
pub struct CghProcessorRecurrence;

impl CghProcessorRecurrence {
    /// The phases of the light along row `y`. The running differences start
    /// afresh with the row, so the rows can be computed in any order; within
    /// a row each column needs the one before it.
    pub fn row<T: Scalar, F: TriFunc<T>>(
        tri_func: &F,
        config: &CghConfig<T>,
        object: &Object3d<T>,
        y: usize,
    ) -> (row: Vec<T>)
        requires
            functional::<T>(),
            pure(tri_func),
        ensures
            row@ == recurrence_row(tri_func, config@, object@, y as nat),
    {
        let width = config.image_width() as usize;
        let points = object.points();
        let count = points.len();
        let ghost whole = recurrence_row(tri_func, config@, object@, y as nat);
        let mut row: Vec<T> = Vec::with_capacity(width);
        let mut theta_prev: Vec<T> = Vec::with_capacity(count);
        let mut delta_prev: Vec<T> = Vec::with_capacity(count);
        let mut zeta: Vec<T> = Vec::with_capacity(count);
        let mut re = T::from_i32(0);
        let mut im = T::from_i32(0);
        let ghost first = recurrence_terms(tri_func, config@, object@, 0, y as nat);
        let mut j: usize = 0;
        while j < count
            invariant
                functional::<T>(),
                pure(tri_func),
                j <= count,
                points@ == object@,
                count == points@.len(),
                first == recurrence_terms(tri_func, config@, object@, 0, y as nat),
                theta_prev@ == phases(config@, object@, 0, y as nat).take(j as int),
                delta_prev@ == steps(config@, object@, 0).take(j as int),
                zeta@ == growths(config@, object@).take(j as int),
                (re, im) == phasor_sum(first, j as nat),
            decreases count - j,
        {
            let point = points[j].mul(config.scalar()).add(config.offset());
            let dy = T::from_usize(y).minus(point.y);
            let theta = config.pixel_pitch().over(config.wavelength()).times(
                point.z.plus(
                    point.x.times(point.x).plus(dy.times(dy)).over(T::from_i32(2).times(point.z)),
                ),
            );
            let delta = config.pixel_pitch().over(
                T::from_i32(2).times(config.wavelength()).times(point.z),
            ).times(T::from_i32(2).times(point.x.neg()).plus(T::from_i32(1)));
            let growth = config.pixel_pitch().over(config.wavelength().times(point.z));
            theta_prev.push(theta);
            delta_prev.push(delta);
            zeta.push(growth);
            re = re.plus(tri_func.cos(theta));
            im = im.plus(tri_func.sin(theta));
            assert(theta_prev@ =~= phases(config@, object@, 0, y as nat).take(j + 1));
            assert(delta_prev@ =~= steps(config@, object@, 0).take(j + 1));
            assert(zeta@ =~= growths(config@, object@).take(j + 1));
            j += 1;
        }
        assert(theta_prev@ =~= phases(config@, object@, 0, y as nat));
        assert(delta_prev@ =~= steps(config@, object@, 0));
        assert(zeta@ =~= growths(config@, object@));
        let value = if count == 0 {
            T::from_i32(0)
        } else {
            im.atan2(re)
        };
        row.push(value);
        assert(row@ =~= whole.take(1));
        let mut x: usize = 1;
        while x < width
            invariant
                functional::<T>(),
                pure(tri_func),
                1 <= x <= width == config@.image_width,
                points@ == object@,
                count == points@.len(),
                whole == recurrence_row(tri_func, config@, object@, y as nat),
                theta_prev@ == phases(config@, object@, (x - 1) as nat, y as nat),
                delta_prev@ == steps(config@, object@, (x - 1) as nat),
                zeta@ == growths(config@, object@),
                row@ == whole.take(x as int),
            decreases width - x,
        {
            let ghost here = recurrence_terms(tri_func, config@, object@, x as nat, y as nat);
            let mut re = T::from_i32(0);
            let mut im = T::from_i32(0);
            let mut j: usize = 0;
            while j < count
                invariant
                    functional::<T>(),
                    pure(tri_func),
                    j <= count,
                    x >= 1,
                    count == object@.len(),
                    here == recurrence_terms(tri_func, config@, object@, x as nat, y as nat),
                    theta_prev@.len() == count,
                    delta_prev@.len() == count,
                    forall|i: int|
                        0 <= i < j ==> #[trigger] theta_prev@[i] == phases(
                            config@,
                            object@,
                            x as nat,
                            y as nat,
                        )[i],
                    forall|i: int|
                        j <= i < count ==> #[trigger] theta_prev@[i] == phases(
                            config@,
                            object@,
                            (x - 1) as nat,
                            y as nat,
                        )[i],
                    forall|i: int|
                        0 <= i < j ==> #[trigger] delta_prev@[i] == steps(
                            config@,
                            object@,
                            x as nat,
                        )[i],
                    forall|i: int|
                        j <= i < count ==> #[trigger] delta_prev@[i] == steps(
                            config@,
                            object@,
                            (x - 1) as nat,
                        )[i],
                    zeta@ == growths(config@, object@),
                    (re, im) == phasor_sum(here, j as nat),
                decreases count - j,
            {
                let theta = theta_prev[j].plus(delta_prev[j]);
                let delta = delta_prev[j].plus(zeta[j]);
                re = re.plus(tri_func.cos(theta));
                im = im.plus(tri_func.sin(theta));
                theta_prev[j] = theta;
                delta_prev[j] = delta;
                j += 1;
            }
            assert(theta_prev@ =~= phases(config@, object@, x as nat, y as nat));
            assert(delta_prev@ =~= steps(config@, object@, x as nat));
            let value = if count == 0 {
                T::from_i32(0)
            } else {
                im.atan2(re)
            };
            row.push(value);
            assert(row@ =~= whole.take(x + 1));
            x += 1;
        }
        assert(row@ =~= whole);
        row
    }
}

impl<T: Scalar, F: TriFunc<T>> CghProcessor<T, F> for CghProcessorRecurrence {
    fn process(
        &self,
        tri_func: &F,
        config: &CghConfig<T>,
        object: &Object3d<T>,
    ) -> (field: RawField<T>)
        ensures
            field@ == recurrence_field(tri_func, config@, object@),
    {
        let width = config.image_width();
        let height = config.image_height();
        let ghost whole = recurrence_field(tri_func, config@, object@).values;
        let mut values: Vec<T> = Vec::with_capacity(width as usize * height as usize);
        let mut y: usize = 0;
        while y < height as usize
            invariant
                functional::<T>(),
                pure(tri_func),
                y <= height,
                0 < width == config@.image_width,
                height == config@.image_height,
                DATA_OFFSET + width * height <= u32::MAX,
                whole == recurrence_field(tri_func, config@, object@).values,
                values@ == whole.take(y * width),
            decreases height - y,
        {
            let mut row = Self::row(tri_func, config, object, y);
            values.append(&mut row);
            proof {
                let start = y * width;
                let end = (y + 1) * width;
                assert(end == start + width) by (nonlinear_arith)
                    requires
                        start == y * width,
                        end == (y + 1) * width,
                ;
                assert(end <= width * height) by (nonlinear_arith)
                    requires
                        end == (y + 1) * width,
                        y + 1 <= height,
                        0 < width,
                ;
                assert forall|i: int| 0 <= i < end implies #[trigger] values@[i] == whole[i] by {
                    if i >= start {
                        lemma_position(width as int, height as int, i - start, y as int);
                    }
                }
                assert(values@ =~= whole.take(end));
            }
            y += 1;
        }
        proof {
            assert(height * width == width * height) by (nonlinear_arith);
            assert(values@ =~= whole);
        }
        RawField::from_values(width, height, values)
    }
}

/// Each value of the field is the phase of its own pixel, as the running
/// differences of its row give it.
pub proof fn recurrence_field_is_pixelwise<T: Scalar, F: TriFunc<T>>(
    tri: &F,
    config: CghConfigView<T>,
    points: Seq<Point<T>>,
    x: nat,
    y: nat,
)
    requires
        x < config.image_width,
        y < config.image_height,
    ensures
        recurrence_field(tri, config, points).at(x, y) == recurrence_pixel(
            tri,
            config,
            points,
            x,
            y,
        ),
{
    lemma_position(config.image_width as int, config.image_height as int, x as int, y as int);
}

/// A cloud without points gives the phase zero at every pixel.
pub proof fn recurrence_empty_cloud_is_zero<T: Scalar, F: TriFunc<T>>(
    tri: &F,
    config: CghConfigView<T>,
    x: nat,
    y: nat,
)
    ensures
        recurrence_pixel(tri, config, Seq::<Point<T>>::empty(), x, y) == zero::<T>(),
{
}

} // verus!
