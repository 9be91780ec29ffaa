//! Direct summation: every point sends a spherical wave to every pixel, over
//! the exact distance between the two, weakened by that distance.

use crate::bmp::lemma_position;
use crate::cgh::{
    argument, arranged, phase, phasor_sum, pixel_point, series, CghConfig, CghConfigView,
    CghProcessor, RawField, RawFieldView,
};
use crate::lut::{cosine, pure, sine, TriFunc};
use crate::object::Object3d;
use crate::point::{distance, Point};
use crate::scalar::{functional, quotient, zero, Scalar};
use vstd::prelude::*;

verus! {

/// The wave that the point `p` of the cloud sends to pixel `(x, y)`: the
/// cosine and the sine of its phase there, each divided by the distance.
pub open spec fn naive_term<T: Scalar, F: TriFunc<T>>(
    tri: &F,
    config: CghConfigView<T>,
    p: Point<T>,
    x: nat,
    y: nat,
) -> (T, T) {
    let d = distance(arranged(config, p), pixel_point::<T>(x, y));
    let theta = phase(config, d);
    (quotient(cosine(tri, theta), d), quotient(sine(tri, theta), d))
}

/// The waves that the points send to pixel `(x, y)`, in the order of the cloud.
pub open spec fn naive_terms<T: Scalar, F: TriFunc<T>>(
    tri: &F,
    config: CghConfigView<T>,
    points: Seq<Point<T>>,
    x: nat,
    y: nat,
) -> Seq<(T, T)> {
    Seq::new(points.len(), |j: int| naive_term(tri, config, points[j], x, y))
}

/// The phase of the light at pixel `(x, y)`: the angle of the sum of all waves.
pub open spec fn naive_pixel<T: Scalar, F: TriFunc<T>>(
    tri: &F,
    config: CghConfigView<T>,
    points: Seq<Point<T>>,
    x: nat,
    y: nat,
) -> T {
    argument(naive_terms(tri, config, points, x, y))
}

/// The phase of the light at each pixel.
pub open spec fn naive_field<T: Scalar, F: TriFunc<T>>(
    tri: &F,
    config: CghConfigView<T>,
    points: Seq<Point<T>>,
) -> RawFieldView<T> {
    RawFieldView {
        width: config.image_width,
        height: config.image_height,
        values: Seq::new(
            config.image_width * config.image_height,
            |i: int|
                naive_pixel(
                    tri,
                    config,
                    points,
                    (i % config.image_width as int) as nat,
                    (i / config.image_width as int) as nat,
                ),
        ),
    }
}

/// The real parts of the waves that the points send to pixel `(x, y)`, in the
/// order of the cloud.
pub open spec fn amplitude_terms<T: Scalar, F: TriFunc<T>>(
    tri: &F,
    config: CghConfigView<T>,
    points: Seq<Point<T>>,
    x: nat,
    y: nat,
) -> Seq<T> {
    Seq::new(points.len(), |j: int| naive_term(tri, config, points[j], x, y).0)
}

/// The amplitude of the light at pixel `(x, y)`: the sum of the real parts of
/// all waves.
pub open spec fn amplitude_pixel<T: Scalar, F: TriFunc<T>>(
    tri: &F,
    config: CghConfigView<T>,
    points: Seq<Point<T>>,
    x: nat,
    y: nat,
) -> T {
    let terms = amplitude_terms(tri, config, points, x, y);
    series(terms, terms.len())
}

/// The amplitude of the light at each pixel.
pub open spec fn amplitude_field<T: Scalar, F: TriFunc<T>>(
    tri: &F,
    config: CghConfigView<T>,
    points: Seq<Point<T>>,
) -> RawFieldView<T> {
    RawFieldView {
        width: config.image_width,
        height: config.image_height,
        values: Seq::new(
            config.image_width * config.image_height,
            |i: int|
                amplitude_pixel(
                    tri,
                    config,
                    points,
                    (i % config.image_width as int) as nat,
                    (i / config.image_width as int) as nat,
                ),
        ),
    }
}

/// Direct summation, read as a phase.
#[derive(Debug, Clone, Copy)]
pub struct CghProcessorNaive;

impl CghProcessorNaive {
    /// The phase of the light at pixel `(x, y)`. It depends on the pixel's own
    /// coordinates only, so the pixels can be computed in any order.
    pub fn pixel<T: Scalar, F: TriFunc<T>>(
        tri_func: &F,
        config: &CghConfig<T>,
        object: &Object3d<T>,
        x: usize,
        y: usize,
    ) -> (value: T)
        requires
            functional::<T>(),
            pure(tri_func),
        ensures
            value == naive_pixel(tri_func, config@, object@, x as nat, y as nat),
    {
        let points = object.points();
        let ghost terms = naive_terms(tri_func, config@, object@, x as nat, y as nat);
        let target = Point::new(T::from_usize(x), T::from_usize(y), T::from_i32(0));
        let mut re = T::from_i32(0);
        let mut im = T::from_i32(0);
        let mut j: usize = 0;
        while j < points.len()
            invariant
                functional::<T>(),
                pure(tri_func),
                j <= points@.len(),
                points@ == object@,
                terms == naive_terms(tri_func, config@, object@, x as nat, y as nat),
                target == pixel_point::<T>(x as nat, y as nat),
                (re, im) == phasor_sum(terms, j as nat),
            decreases points@.len() - j,
        {
            let point = points[j].mul(config.scalar()).add(config.offset());
            let d = point.distance(&target);
            let theta = config.pixel_pitch().times(d).over(config.wavelength());
            re = re.plus(tri_func.cos(theta).over(d));
            im = im.plus(tri_func.sin(theta).over(d));
            j += 1;
        }
        if points.len() == 0 {
            T::from_i32(0)
        } else {
            im.atan2(re)
        }
    }
}

impl<T: Scalar, F: TriFunc<T>> CghProcessor<T, F> for CghProcessorNaive {
    fn process(
        &self,
        tri_func: &F,
        config: &CghConfig<T>,
        object: &Object3d<T>,
    ) -> (field: RawField<T>)
        ensures
            field@ == naive_field(tri_func, config@, object@),
    {
        let width = config.image_width();
        let height = config.image_height();
        let n = width as usize * height as usize;
        let ghost whole = naive_field(tri_func, config@, object@).values;
        let mut values: Vec<T> = Vec::with_capacity(n);
        let mut k: usize = 0;
        while k < n
            invariant
                functional::<T>(),
                pure(tri_func),
                k <= n,
                n == width * height,
                width == config@.image_width,
                height == config@.image_height,
                width > 0,
                whole == naive_field(tri_func, config@, object@).values,
                values@ == whole.take(k as int),
            decreases n - k,
        {
            let x = k % width as usize;
            let y = k / width as usize;
            values.push(Self::pixel(tri_func, config, object, x, y));
            assert(values@ =~= whole.take(k + 1));
            k += 1;
        }
        assert(values@ =~= whole);
        RawField::from_values(width, height, values)
    }
}

/// Direct summation, read as an amplitude.
#[derive(Debug, Clone, Copy)]
pub struct CghProcessorNaiveAmplitude;

impl CghProcessorNaiveAmplitude {
    /// The amplitude of the light at pixel `(x, y)`. It depends on the pixel's
    /// own coordinates only, so the pixels can be computed in any order.
    pub fn pixel<T: Scalar, F: TriFunc<T>>(
        tri_func: &F,
        config: &CghConfig<T>,
        object: &Object3d<T>,
        x: usize,
        y: usize,
    ) -> (value: T)
        requires
            functional::<T>(),
            pure(tri_func),
        ensures
            value == amplitude_pixel(tri_func, config@, object@, x as nat, y as nat),
    {
        let points = object.points();
        let ghost terms = amplitude_terms(tri_func, config@, object@, x as nat, y as nat);
        let target = Point::new(T::from_usize(x), T::from_usize(y), T::from_i32(0));
        let mut total = T::from_i32(0);
        let mut j: usize = 0;
        while j < points.len()
            invariant
                functional::<T>(),
                pure(tri_func),
                j <= points@.len(),
                points@ == object@,
                terms == amplitude_terms(tri_func, config@, object@, x as nat, y as nat),
                target == pixel_point::<T>(x as nat, y as nat),
                total == series(terms, j as nat),
            decreases points@.len() - j,
        {
            let point = points[j].mul(config.scalar()).add(config.offset());
            let d = point.distance(&target);
            let theta = config.pixel_pitch().times(d).over(config.wavelength());
            total = total.plus(tri_func.cos(theta).over(d));
            j += 1;
        }
        total
    }
}

impl<T: Scalar, F: TriFunc<T>> CghProcessor<T, F> for CghProcessorNaiveAmplitude {
    fn process(
        &self,
        tri_func: &F,
        config: &CghConfig<T>,
        object: &Object3d<T>,
    ) -> (field: RawField<T>)
        ensures
            field@ == amplitude_field(tri_func, config@, object@),
    {
        let width = config.image_width();
        let height = config.image_height();
        let n = width as usize * height as usize;
        let ghost whole = amplitude_field(tri_func, config@, object@).values;
        let mut values: Vec<T> = Vec::with_capacity(n);
        let mut k: usize = 0;
        while k < n
            invariant
                functional::<T>(),
                pure(tri_func),
                k <= n,
                n == width * height,
                width == config@.image_width,
                height == config@.image_height,
                width > 0,
                whole == amplitude_field(tri_func, config@, object@).values,
                values@ == whole.take(k as int),
            decreases n - k,
        {
            let x = k % width as usize;
            let y = k / width as usize;
            values.push(Self::pixel(tri_func, config, object, x, y));
            assert(values@ =~= whole.take(k + 1));
            k += 1;
        }
        assert(values@ =~= whole);
        RawField::from_values(width, height, values)
    }
}

/// Each value of the field is the phase of its own pixel: it is a function of
/// the pixel's coordinates, the cloud, the parameters and the evaluator, and of
/// nothing else. So every way of going through the pixels, one after another
/// or many at a time, gives the same field.
pub proof fn naive_field_is_pixelwise<T: Scalar, F: TriFunc<T>>(
    tri: &F,
    config: CghConfigView<T>,
    points: Seq<Point<T>>,
    x: nat,
    y: nat,
)
    requires
        x < config.image_width,
        y < config.image_height,
    ensures
        naive_field(tri, config, points).at(x, y) == naive_pixel(tri, config, points, x, y),
        amplitude_field(tri, config, points).at(x, y) == amplitude_pixel(
            tri,
            config,
            points,
            x,
            y,
        ),
{
    lemma_position(config.image_width as int, config.image_height as int, x as int, y as int);
}

/// A cloud without points gives zero at every pixel, as a phase and as an
/// amplitude.
pub proof fn naive_empty_cloud_is_zero<T: Scalar, F: TriFunc<T>>(
    tri: &F,
    config: CghConfigView<T>,
    x: nat,
    y: nat,
)
    ensures
        naive_pixel(tri, config, Seq::<Point<T>>::empty(), x, y) == zero::<T>(),
        amplitude_pixel(tri, config, Seq::<Point<T>>::empty(), x, y) == zero::<T>(),
{
}

} // verus!
