//! Hologram synthesis: from a cloud of points to a fringe image.
//!
//! A processor turns a cloud and the optical parameters into a field of one
//! number for each pixel, and normalising the field gives the 8-bit image.

pub mod fresnel;
pub mod naive;
pub mod recurrence;

use crate::bmp::{lemma_position, Image, ImageView, DATA_OFFSET};
use crate::lut::{pure, TriFunc};
use crate::object::Object3d;
use crate::point::{moved, scaled, Point};
use crate::scalar::{
    angle, as_byte, below, difference, functional, of_i32, of_usize, product, quotient, rounded,
    sum, zero, Scalar,
};
use vstd::prelude::*;

verus! {

/// Why a set of parameters is refused.
#[derive(Debug, Clone, Copy, PartialEq, Eq, Structural)]
pub enum ConfigError {
    /// The image has no columns.
    ImageWidth,
    /// The image has no rows.
    ImageHeight,
    /// The image has more pixels than a bitmap file can hold.
    ImageSize,
    /// The pixel pitch is not above zero.
    PixelPitch,
    /// The wavelength is not above zero.
    Wavelength,
}

/// What a set of parameters is.
pub struct CghConfigView<T> {
    /// The number of pixels in a row.
    pub image_width: nat,
    /// The number of rows.
    pub image_height: nat,
    /// The distance between two neighbouring pixels, in meters.
    pub pixel_pitch: T,
    /// The wavelength of the light, in meters.
    pub wavelength: T,
    /// Where the origin of the cloud lies, in pixels.
    pub offset: Point<T>,
    /// The factor by which the cloud is enlarged.
    pub scalar: T,
}

/// The first reason, if any, to refuse the given parameters.
pub open spec fn refusal<T: Scalar>(
    image_width: u32,
    image_height: u32,
    pixel_pitch: T,
    wavelength: T,
) -> Option<ConfigError> {
    if image_width == 0 {
        Some(ConfigError::ImageWidth)
    } else if image_height == 0 {
        Some(ConfigError::ImageHeight)
    } else if DATA_OFFSET + image_width * image_height > u32::MAX {
        Some(ConfigError::ImageSize)
    } else if !below(zero::<T>(), pixel_pitch) {
        Some(ConfigError::PixelPitch)
    } else if !below(zero::<T>(), wavelength) {
        Some(ConfigError::Wavelength)
    } else {
        None
    }
}

/// The optical parameters of a hologram. They are examined once, when they are
/// put together, and do not change afterwards.
#[derive(Debug)]
pub struct CghConfig<T: Scalar> {
    image_width: u32,
    image_height: u32,
    pixel_pitch: T,
    wavelength: T,
    offset: Point<T>,
    scalar: T,
}

impl<T: Scalar> View for CghConfig<T> {
    type V = CghConfigView<T>;

    closed spec fn view(&self) -> CghConfigView<T> {
        CghConfigView {
            image_width: self.image_width as nat,
            image_height: self.image_height as nat,
            pixel_pitch: self.pixel_pitch,
            wavelength: self.wavelength,
            offset: self.offset,
            scalar: self.scalar,
        }
    }
}

impl<T: Scalar> Clone for CghConfig<T> {
    fn clone(&self) -> (copy: Self)
        ensures
            copy == *self,
    {
        *self
    }
}

impl<T: Scalar> Copy for CghConfig<T> {

}

impl<T: Scalar> CghConfigView<T> {
    /// The parameters are ones that `CghConfig::new` accepts.
    pub open spec fn valid(self) -> bool {
        &&& 0 < self.image_width <= u32::MAX
        &&& 0 < self.image_height <= u32::MAX
        &&& refusal(
            self.image_width as u32,
            self.image_height as u32,
            self.pixel_pitch,
            self.wavelength,
        ).is_none()
    }
}

impl<T: Scalar> CghConfig<T> {
    #[verifier::type_invariant]
    spec fn inv(&self) -> bool {
        self@.valid()
    }

    /// Puts the parameters together, or says why they are refused: an image
    /// without columns or rows, or too large for a bitmap file, a pixel pitch
    /// or a wavelength that is not above zero.
    pub fn new(
        image_width: u32,
        image_height: u32,
        pixel_pitch: T,
        wavelength: T,
        offset: Point<T>,
        scalar: T,
    ) -> (made: Result<Self, ConfigError>)
        requires
            functional::<T>(),
        ensures
            match made {
                Ok(config) => {
                    &&& refusal(image_width, image_height, pixel_pitch, wavelength).is_none()
                    &&& config@ == (CghConfigView {
                        image_width: image_width as nat,
                        image_height: image_height as nat,
                        pixel_pitch,
                        wavelength,
                        offset,
                        scalar,
                    })
                },
                Err(e) => refusal(image_width, image_height, pixel_pitch, wavelength) == Some(e),
            },
    {
        if image_width == 0 {
            return Err(ConfigError::ImageWidth);
        }
        if image_height == 0 {
            return Err(ConfigError::ImageHeight);
        }
        assert(image_width * image_height <= 0xffff_ffff * 0xffff_ffff) by (nonlinear_arith)
            requires
                image_width <= 0xffff_ffff,
                image_height <= 0xffff_ffff,
        ;
        if image_width as u64 * image_height as u64 > (u32::MAX - DATA_OFFSET) as u64 {
            return Err(ConfigError::ImageSize);
        }
        let zero = T::from_i32(0);
        if !zero.less(pixel_pitch) {
            return Err(ConfigError::PixelPitch);
        }
        if !zero.less(wavelength) {
            return Err(ConfigError::Wavelength);
        }
        Ok(CghConfig { image_width, image_height, pixel_pitch, wavelength, offset, scalar })
    }

    /// The number of pixels in a row.
    pub fn image_width(&self) -> (w: u32)
        ensures
            w == self@.image_width,
            self@.valid(),
    {
        proof {
            use_type_invariant(self);
        }
        self.image_width
    }

    /// The number of rows.
    pub fn image_height(&self) -> (h: u32)
        ensures
            h == self@.image_height,
            self@.valid(),
    {
        proof {
            use_type_invariant(self);
        }
        self.image_height
    }

    /// The distance between two neighbouring pixels, in meters.
    pub fn pixel_pitch(&self) -> (pitch: T)
        ensures
            pitch == self@.pixel_pitch,
    {
        self.pixel_pitch
    }

    /// The wavelength of the light, in meters.
    pub fn wavelength(&self) -> (wavelength: T)
        ensures
            wavelength == self@.wavelength,
    {
        self.wavelength
    }

    /// Where the origin of the cloud lies, in pixels.
    pub fn offset(&self) -> (offset: Point<T>)
        ensures
            offset == self@.offset,
    {
        self.offset
    }

    /// The factor by which the cloud is enlarged.
    pub fn scalar(&self) -> (scalar: T)
        ensures
            scalar == self@.scalar,
    {
        self.scalar
    }
}

/// What a field is: its dimensions and one value for each pixel, row after
/// row, top row first.
pub struct RawFieldView<T> {
    pub width: nat,
    pub height: nat,
    pub values: Seq<T>,
}

impl<T> RawFieldView<T> {
    /// There is one value for each pixel, and no more pixels than a bitmap
    /// file can hold.
    pub open spec fn valid(self) -> bool {
        &&& self.width <= u32::MAX
        &&& self.height <= u32::MAX
        &&& DATA_OFFSET + self.width * self.height <= u32::MAX
        &&& self.values.len() == self.width * self.height
    }

    /// The value of pixel `(x, y)`.
    pub open spec fn at(self, x: nat, y: nat) -> T {
        self.values[(y * self.width + x) as int]
    }
}

/// The result of a processor: one number for each pixel.
#[derive(Debug)]
pub struct RawField<T> {
    width: u32,
    height: u32,
    values: Vec<T>,
}

impl<T> View for RawField<T> {
    type V = RawFieldView<T>;

    closed spec fn view(&self) -> RawFieldView<T> {
        RawFieldView {
            width: self.width as nat,
            height: self.height as nat,
            values: self.values@,
        }
    }
}

impl<T> RawField<T> {
    #[verifier::type_invariant]
    spec fn inv(&self) -> bool {
        self@.valid()
    }
}

impl<T: Copy> RawField<T> {
    /// The field of `width` by `height` pixels with the given values, row
    /// after row. `None` where the number of values is not that of the
    /// pixels, or where a bitmap file cannot hold that many pixels.
    pub fn new(width: u32, height: u32, values: Vec<T>) -> (made: Option<Self>)
        ensures
            match made {
                Some(field) => field@.valid() && field@ == (RawFieldView {
                    width: width as nat,
                    height: height as nat,
                    values: values@,
                }),
                None => values@.len() != width * height || DATA_OFFSET + width * height
                    > u32::MAX,
            },
    {
        assert(width * height <= 0xffff_ffff * 0xffff_ffff) by (nonlinear_arith)
            requires
                width <= 0xffff_ffff,
                height <= 0xffff_ffff,
        ;
        let pixels: u64 = width as u64 * height as u64;
        if pixels > (u32::MAX - DATA_OFFSET) as u64 || values.len() as u64 != pixels {
            return None;
        }
        Some(RawField { width, height, values })
    }

    /// The field of `width` by `height` pixels with the given values.
    pub(crate) fn from_values(width: u32, height: u32, values: Vec<T>) -> (field: Self)
        requires
            DATA_OFFSET + width * height <= u32::MAX,
            values@.len() == width * height,
        ensures
            field@.valid(),
            field@ == (RawFieldView {
                width: width as nat,
                height: height as nat,
                values: values@,
            }),
    {
        RawField { width, height, values }
    }

    /// The number of pixels in a row.
    pub fn width(&self) -> (w: u32)
        ensures
            w == self@.width,
            self@.valid(),
    {
        proof {
            use_type_invariant(self);
        }
        self.width
    }

    /// The number of rows.
    pub fn height(&self) -> (h: u32)
        ensures
            h == self@.height,
            self@.valid(),
    {
        proof {
            use_type_invariant(self);
        }
        self.height
    }

    /// The values of all pixels, row after row.
    pub fn values(&self) -> (values: &Vec<T>)
        ensures
            values@ == self@.values,
            self@.valid(),
    {
        proof {
            use_type_invariant(self);
        }
        &self.values
    }

    /// The value of the pixel in column `x` of row `y`.
    pub fn get(&self, x: u32, y: u32) -> (value: T)
        requires
            x < self@.width,
            y < self@.height,
        ensures
            value == self@.at(x as nat, y as nat),
    {
        proof {
            use_type_invariant(self);
            lemma_position(self.width as int, self.height as int, x as int, y as int);
        }
        self.values[(y * self.width + x) as usize]
    }
}

/// A cloud point as the hologram sees it: enlarged by the scale factor, then
/// moved by the offset.
pub open spec fn arranged<T: Scalar>(config: CghConfigView<T>, p: Point<T>) -> Point<T> {
    moved(scaled(p, config.scalar), config.offset)
}

/// The point of the hologram plane at which pixel `(x, y)` lies.
pub open spec fn pixel_point<T: Scalar>(x: nat, y: nat) -> Point<T> {
    Point { x: of_usize::<T>(x as usize), y: of_usize::<T>(y as usize), z: zero::<T>() }
}

/// The phase in cycles of a wave that has travelled the distance `d`, given in
/// pixels.
pub open spec fn phase<T: Scalar>(config: CghConfigView<T>, d: T) -> T {
    quotient(product(config.pixel_pitch, d), config.wavelength)
}

/// The sum of the first `n` phasors of `terms`, each given by its real and its
/// imaginary part. The parts are added to the sum so far, one term after
/// another, starting from zero.
pub open spec fn phasor_sum<T: Scalar>(terms: Seq<(T, T)>, n: nat) -> (T, T)
    decreases n,
{
    if n == 0 {
        (zero::<T>(), zero::<T>())
    } else {
        let so_far = phasor_sum(terms, (n - 1) as nat);
        (sum(so_far.0, terms[n - 1].0), sum(so_far.1, terms[n - 1].1))
    }
}

/// The angle of the sum of all phasors of `terms`. Where there is no term, the
/// angle is zero.
pub open spec fn argument<T: Scalar>(terms: Seq<(T, T)>) -> T {
    if terms.len() == 0 {
        zero::<T>()
    } else {
        let total = phasor_sum(terms, terms.len());
        angle(total.1, total.0)
    }
}

/// The sum of the first `n` numbers of `terms`, each added to the sum so far,
/// starting from zero.
pub open spec fn series<T: Scalar>(terms: Seq<T>, n: nat) -> T
    decreases n,
{
    if n == 0 {
        zero::<T>()
    } else {
        sum(series(terms, (n - 1) as nat), terms[n - 1])
    }
}

/// How the values of a field are read.
#[derive(Debug, Clone, Copy, PartialEq, Eq, Structural)]
pub enum Mode {
    /// The values are amplitudes: the image is black and white.
    Amplitude,
    /// The values are phases: the image is a ramp of grays.
    Phase,
}

/// The least of the first `n` values: the first value, or a later one that is
/// below the least before it.
pub open spec fn least<T: Scalar>(values: Seq<T>, n: nat) -> T
    decreases n,
{
    if n <= 1 {
        values[0]
    } else {
        let before = least(values, (n - 1) as nat);
        if below(values[n - 1], before) {
            values[n - 1]
        } else {
            before
        }
    }
}

/// The greatest of the first `n` values: the first value, or a later one that
/// the greatest before it is below.
pub open spec fn greatest<T: Scalar>(values: Seq<T>, n: nat) -> T
    decreases n,
{
    if n <= 1 {
        values[0]
    } else {
        let before = greatest(values, (n - 1) as nat);
        if below(before, values[n - 1]) {
            values[n - 1]
        } else {
            before
        }
    }
}

/// The values do not spread: there is none, or the least is not below the
/// greatest.
pub open spec fn degenerate<T: Scalar>(values: Seq<T>) -> bool {
    values.len() == 0 || !below(least(values, values.len()), greatest(values, values.len()))
}

/// The 8-bit level nearest to `v`: 0 for what is below 0, 255 for what is
/// above 255, and 0 for what is no number.
pub open spec fn saturated<T: Scalar>(v: T) -> u8 {
    if below(v, zero::<T>()) {
        0
    } else if below(of_i32::<T>(255), v) {
        255
    } else {
        match as_byte(rounded(v)) {
            Some(level) => level,
            None => 0,
        }
    }
}

/// The gray of a phase `v` between `min` and `max`: `255 * (v - min) / (max - min)`,
/// rounded.
pub open spec fn gray<T: Scalar>(v: T, min: T, max: T) -> u8 {
    saturated(quotient(product(of_i32::<T>(255), difference(v, min)), difference(max, min)))
}

/// White for an amplitude `v` above the middle of `min` and `max`, else black.
pub open spec fn black_or_white<T: Scalar>(v: T, min: T, max: T) -> u8 {
    if below(quotient(sum(max, min), of_i32::<T>(2)), v) {
        255
    } else {
        0
    }
}

/// The level of the value `v` of a field whose values go from `min` to `max`.
pub open spec fn level<T: Scalar>(mode: Mode, v: T, min: T, max: T) -> u8 {
    match mode {
        Mode::Amplitude => black_or_white(v, min, max),
        Mode::Phase => gray(v, min, max),
    }
}

/// The levels of all values of a field. Values that do not spread give black
/// throughout.
pub open spec fn normalized<T: Scalar>(values: Seq<T>, mode: Mode) -> Seq<u8> {
    if degenerate(values) {
        Seq::new(values.len(), |i: int| 0u8)
    } else {
        Seq::new(
            values.len(),
            |i: int|
                level(
                    mode,
                    values[i],
                    least(values, values.len()),
                    greatest(values, values.len()),
                ),
        )
    }
}

/// The image of a field.
pub open spec fn picture<T: Scalar>(field: RawFieldView<T>, mode: Mode) -> ImageView {
    ImageView {
        width: field.width,
        height: field.height,
        pixels: normalized(field.values, mode),
    }
}

/// The level of `v`, see [`level`].
fn quantize<T: Scalar>(mode: Mode, v: T, min: T, max: T) -> (l: u8)
    requires
        functional::<T>(),
    ensures
        l == level(mode, v, min, max),
{
    match mode {
        Mode::Amplitude => {
            let mid = max.plus(min).over(T::from_i32(2));
            if mid.less(v) {
                255
            } else {
                0
            }
        },
        Mode::Phase => {
            let scaled = T::from_i32(255).times(v.minus(min)).over(max.minus(min));
            if scaled.less(T::from_i32(0)) {
                0
            } else if T::from_i32(255).less(scaled) {
                255
            } else {
                match scaled.round().to_u8() {
                    Some(l) => l,
                    None => 0,
                }
            }
        },
    }
}

/// Turns a field into an image: finds the least and the greatest value in one
/// pass, then gives each pixel its level between them.
pub fn normalize<T: Scalar>(field: &RawField<T>, mode: Mode) -> (image: Image)
    requires
        functional::<T>(),
    ensures
        image@ == picture(field@, mode),
{
    let width = field.width();
    let height = field.height();
    let values = field.values();
    let n = values.len();
    let mut image = Image::new(width, height);
    if n == 0 {
        assert(image@.pixels =~= normalized(field@.values, mode));
        return image;
    }
    let mut min = values[0];
    let mut max = values[0];
    let mut i: usize = 1;
    while i < n
        invariant
            functional::<T>(),
            1 <= i <= n,
            n == values@.len(),
            min == least(values@, i as nat),
            max == greatest(values@, i as nat),
        decreases n - i,
    {
        let v = values[i];
        if v.less(min) {
            min = v;
        }
        if max.less(v) {
            max = v;
        }
        i += 1;
    }
    if !min.less(max) {
        assert(image@.pixels =~= normalized(field@.values, mode));
        return image;
    }
    let ghost levels = normalized(values@, mode);
    assert(width > 0) by (nonlinear_arith)
        requires
            width * height > 0,
    ;
    let mut k: usize = 0;
    while k < n
        invariant
            functional::<T>(),
            k <= n,
            n == values@.len(),
            n == width * height,
            width > 0,
            min == least(values@, n as nat),
            max == greatest(values@, n as nat),
            !degenerate(values@),
            levels == normalized(values@, mode),
            image@.valid(),
            image@.width == width,
            image@.height == height,
            image@.pixels == Seq::new(
                n as nat,
                |j: int|
                    if j < k {
                        levels[j]
                    } else {
                        0u8
                    },
            ),
        decreases n - k,
    {
        let x = (k % width as usize) as u32;
        let y = (k / width as usize) as u32;
        proof {
            vstd::arithmetic::div_mod::lemma_fundamental_div_mod(k as int, width as int);
            assert(width * (k as int / width as int) == (k as int / width as int) * width)
                by (nonlinear_arith);
        }
        let l = quantize(mode, values[k], min, max);
        image.set_pixel(x, y, l);
        k += 1;
        assert(image@.pixels =~= Seq::new(
            n as nat,
            |j: int|
                if j < k {
                    levels[j]
                } else {
                    0u8
                },
        ));
    }
    assert(image@.pixels =~= levels);
    image
}

/// A way to compute the field of a hologram.
pub trait CghProcessor<T: Scalar, F: TriFunc<T>> {
    /// The field of the hologram of `object` under `config`, with the sines
    /// and cosines of `tri_func`.
    fn process(
        &self,
        tri_func: &F,
        config: &CghConfig<T>,
        object: &Object3d<T>,
    ) -> (field: RawField<T>)
        requires
            functional::<T>(),
            pure(tri_func),
        ensures
            field@.valid(),
            field@.width == config@.image_width,
            field@.height == config@.image_height,
    ;
}

/// The hologram of `object` under `config` as an image of grays: the field
/// that `processor` computes, read as phases.
pub fn generate_cgh<T: Scalar, F: TriFunc<T>, P: CghProcessor<T, F>>(
    processor: &P,
    tri_func: &F,
    config: &CghConfig<T>,
    object: &Object3d<T>,
) -> (image: Image)
    requires
        functional::<T>(),
        pure(tri_func),
    ensures
        exists|field: RawField<T>|
            call_ensures(P::process, (processor, tri_func, config, object), field)
                && image@ == picture(field@, Mode::Phase),
{
    let array = processor.process(tri_func, config, object);
    normalize(&array, Mode::Phase)
}

/// The least and the greatest of values that are all the same are that value.
proof fn lemma_constant_extremes<T: Scalar>(values: Seq<T>, v: T, n: nat)
    requires
        0 < n <= values.len(),
        forall|i: int| 0 <= i < values.len() ==> values[i] == v,
    ensures
        least(values, n) == v,
        greatest(values, n) == v,
    decreases n,
{
    if n > 1 {
        lemma_constant_extremes(values, v, (n - 1) as nat);
    }
}

/// A field whose values are all the same gives a black image, in either mode,
/// provided that the value is not below itself.
pub proof fn constant_field_is_black<T: Scalar>(values: Seq<T>, v: T, mode: Mode)
    requires
        forall|i: int| 0 <= i < values.len() ==> values[i] == v,
        !below(v, v),
    ensures
        normalized(values, mode) == Seq::new(values.len(), |i: int| 0u8),
{
    if values.len() > 0 {
        lemma_constant_extremes(values, v, values.len());
    }
}

} // verus!
