//! The Fresnel approximation: the distance from a point to a pixel is taken to
//! grow with the square of the pixel's offset from the point, which saves the
//! square root, and every wave arrives with the same strength.

use crate::bmp::lemma_position;
use crate::cgh::{
    argument, arranged, phase, phasor_sum, pixel_point, CghConfig, CghConfigView, CghProcessor,
    RawField, RawFieldView,
};
use crate::lut::{cosine, pure, sine, TriFunc};
use crate::object::Object3d;
use crate::point::Point;
use crate::scalar::{
    difference, functional, of_i32, product, quotient, square, sum, zero, Scalar,
};
use vstd::prelude::*;

verus! {

/// The approximate distance from the point `p` to the point `at` of the
/// hologram plane: `p.z + ((at.x - p.x)² + (at.y - p.y)²) / (2 p.z)`.
pub open spec fn fresnel_distance<T: Scalar>(p: Point<T>, at: Point<T>) -> T {
    sum(
        p.z,
        quotient(
            sum(square(difference(at.x, p.x)), square(difference(at.y, p.y))),
            product(of_i32::<T>(2), p.z),
        ),
    )
}

/// The wave that the point `p` of the cloud sends to pixel `(x, y)`: the
/// cosine and the sine of its phase there.
pub open spec fn fresnel_term<T: Scalar, F: TriFunc<T>>(
    tri: &F,
    config: CghConfigView<T>,
    p: Point<T>,
    x: nat,
    y: nat,
) -> (T, T) {
    let d = fresnel_distance(arranged(config, p), pixel_point::<T>(x, y));
    let theta = phase(config, d);
    (cosine(tri, theta), sine(tri, theta))
}

/// The waves that the points send to pixel `(x, y)`, in the order of the cloud.
pub open spec fn fresnel_terms<T: Scalar, F: TriFunc<T>>(
    tri: &F,
    config: CghConfigView<T>,
    points: Seq<Point<T>>,
    x: nat,
    y: nat,
) -> Seq<(T, T)> {
    Seq::new(points.len(), |j: int| fresnel_term(tri, config, points[j], x, y))
}

/// The phase of the light at pixel `(x, y)`: the angle of the sum of all waves.
pub open spec fn fresnel_pixel<T: Scalar, F: TriFunc<T>>(
    tri: &F,
    config: CghConfigView<T>,
    points: Seq<Point<T>>,
    x: nat,
    y: nat,
) -> T {
    argument(fresnel_terms(tri, config, points, x, y))
}

/// The phase of the light at each pixel.
pub open spec fn fresnel_field<T: Scalar, F: TriFunc<T>>(
    tri: &F,
    config: CghConfigView<T>,
    points: Seq<Point<T>>,
) -> RawFieldView<T> {
    RawFieldView {
        width: config.image_width,
        height: config.image_height,
        values: Seq::new(
            config.image_width * config.image_height,
            |i: int|
                fresnel_pixel(
                    tri,
                    config,
                    points,
                    (i % config.image_width as int) as nat,
                    (i / config.image_width as int) as nat,
                ),
        ),
    }
}

/// The Fresnel approximation, pixel by pixel.
#[derive(Debug, Clone, Copy)]
pub struct CghProcessorFresnel;

impl CghProcessorFresnel {
    /// The phase of the light at pixel `(x, y)`. It depends on the pixel's own
    /// coordinates only, so the pixels can be computed in any order.
    pub fn pixel<T: Scalar, F: TriFunc<T>>(
        tri_func: &F,
        config: &CghConfig<T>,
        object: &Object3d<T>,
        x: usize,
        y: usize,
    ) -> (value: T)
        requires
            functional::<T>(),
            pure(tri_func),
        ensures
            value == fresnel_pixel(tri_func, config@, object@, x as nat, y as nat),
    {
        let points = object.points();
        let ghost terms = fresnel_terms(tri_func, config@, object@, x as nat, y as nat);
        let target = Point::new(T::from_usize(x), T::from_usize(y), T::from_i32(0));
        let mut re = T::from_i32(0);
        let mut im = T::from_i32(0);
        let mut j: usize = 0;
        while j < points.len()
            invariant
                functional::<T>(),
                pure(tri_func),
                j <= points@.len(),
                points@ == object@,
                terms == fresnel_terms(tri_func, config@, object@, x as nat, y as nat),
                target == pixel_point::<T>(x as nat, y as nat),
                (re, im) == phasor_sum(terms, j as nat),
            decreases points@.len() - j,
        {
            let point = points[j].mul(config.scalar()).add(config.offset());
            let dx = target.x.minus(point.x);
            let dy = target.y.minus(point.y);
            let d = point.z.plus(
                dx.times(dx).plus(dy.times(dy)).over(T::from_i32(2).times(point.z)),
            );
            let theta = config.pixel_pitch().times(d).over(config.wavelength());
            re = re.plus(tri_func.cos(theta));
            im = im.plus(tri_func.sin(theta));
            j += 1;
        }
        if points.len() == 0 {
            T::from_i32(0)
        } else {
            im.atan2(re)
        }
    }
}

impl<T: Scalar, F: TriFunc<T>> CghProcessor<T, F> for CghProcessorFresnel {
    fn process(
        &self,
        tri_func: &F,
        config: &CghConfig<T>,
        object: &Object3d<T>,
    ) -> (field: RawField<T>)
        ensures
            field@ == fresnel_field(tri_func, config@, object@),
    {
        let width = config.image_width();
        let height = config.image_height();
        let n = width as usize * height as usize;
        let ghost whole = fresnel_field(tri_func, config@, object@).values;
        let mut values: Vec<T> = Vec::with_capacity(n);
        let mut k: usize = 0;
        while k < n
            invariant
                functional::<T>(),
                pure(tri_func),
                k <= n,
                n == width * height,
                width == config@.image_width,
                height == config@.image_height,
                width > 0,
                whole == fresnel_field(tri_func, config@, object@).values,
                values@ == whole.take(k as int),
            decreases n - k,
        {
            let x = k % width as usize;
            let y = k / width as usize;
            values.push(Self::pixel(tri_func, config, object, x, y));
            assert(values@ =~= whole.take(k + 1));
            k += 1;
        }
        assert(values@ =~= whole);
        RawField::from_values(width, height, values)
    }
}

/// Each value of the field is the phase of its own pixel: it is a function of
/// the pixel's coordinates, the cloud, the parameters and the evaluator, and of
/// nothing else. So every way of going through the pixels, one after another
/// or many at a time, gives the same field.
pub proof fn fresnel_field_is_pixelwise<T: Scalar, F: TriFunc<T>>(
    tri: &F,
    config: CghConfigView<T>,
    points: Seq<Point<T>>,
    x: nat,
    y: nat,
)
    requires
        x < config.image_width,
        y < config.image_height,
    ensures
        fresnel_field(tri, config, points).at(x, y) == fresnel_pixel(tri, config, points, x, y),
{
    lemma_position(config.image_width as int, config.image_height as int, x as int, y as int);
}

/// A cloud without points gives the phase zero at every pixel.
pub proof fn fresnel_empty_cloud_is_zero<T: Scalar, F: TriFunc<T>>(
    tri: &F,
    config: CghConfigView<T>,
    x: nat,
    y: nat,
)
    ensures
        fresnel_pixel(tri, config, Seq::<Point<T>>::empty(), x, y) == zero::<T>(),
{
}

} // verus!
