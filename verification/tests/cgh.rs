use holography::bmp::Image;
use holography::cgh::fresnel::CghProcessorFresnel;
use holography::cgh::naive::{CghProcessorNaive, CghProcessorNaiveAmplitude};
use holography::cgh::recurrence::CghProcessorRecurrence;
use holography::cgh::{
    generate_cgh, normalize, CghConfig, CghProcessor, ConfigError, Mode, RawField,
};
use holography::lut::{TriFunc, TriFuncLut, TriFuncStd};
use holography::object::Object3d;
use holography::point::Point;
use holography::scalar::Scalar;
use num::ToPrimitive;
use std::f64::consts::PI;

#[derive(Debug, Clone, Copy, PartialEq, PartialOrd)]
struct Real(f64);

impl Scalar for Real {
    fn from_i32(v: i32) -> Self {
        Real(v as f64)
    }
    fn from_usize(v: usize) -> Self {
        Real(v as f64)
    }
    fn pi() -> Self {
        Real(std::f64::consts::PI)
    }
    fn plus(self, rhs: Self) -> Self {
        Real(self.0 + rhs.0)
    }
    fn minus(self, rhs: Self) -> Self {
        Real(self.0 - rhs.0)
    }
    fn times(self, rhs: Self) -> Self {
        Real(self.0 * rhs.0)
    }
    fn over(self, rhs: Self) -> Self {
        Real(self.0 / rhs.0)
    }
    fn neg(self) -> Self {
        Real(-self.0)
    }
    fn sqrt(self) -> Self {
        Real(self.0.sqrt())
    }
    fn sin(self) -> Self {
        Real(self.0.sin())
    }
    fn cos(self) -> Self {
        Real(self.0.cos())
    }
    fn atan2(self, other: Self) -> Self {
        Real(self.0.atan2(other.0))
    }
    fn fract(self) -> Self {
        Real(self.0.fract())
    }
    fn round(self) -> Self {
        Real(self.0.round())
    }
    fn to_usize(self) -> Option<usize> {
        ToPrimitive::to_usize(&self.0)
    }
    fn to_u8(self) -> Option<u8> {
        ToPrimitive::to_u8(&self.0)
    }
    fn less(self, rhs: Self) -> bool {
        self.0 < rhs.0
    }
}

fn cloud(points: &[(i32, i32, i32)]) -> Object3d<Real> {
    let mut bytes = (points.len() as u32).to_le_bytes().to_vec();
    for &(x, y, z) in points {
        bytes.extend_from_slice(&x.to_le_bytes());
        bytes.extend_from_slice(&y.to_le_bytes());
        bytes.extend_from_slice(&z.to_le_bytes());
    }
    Object3d::from_reader(&bytes).unwrap()
}

fn config(
    width: u32,
    height: u32,
    pitch: f64,
    wavelength: f64,
    offset: (f64, f64, f64),
    scalar: f64,
) -> CghConfig<Real> {
    let offset = Point::new(Real(offset.0), Real(offset.1), Real(offset.2));
    CghConfig::new(width, height, Real(pitch), Real(wavelength), offset, Real(scalar)).unwrap()
}

fn field(width: u32, height: u32, values: &[f64]) -> RawField<Real> {
    RawField::new(width, height, values.iter().map(|&v| Real(v)).collect()).unwrap()
}

fn pixels(image: &Image) -> Vec<u8> {
    image
        .coordinates()
        .into_iter()
        .map(|(x, y)| image.get_pixel(x, y))
        .collect()
}

fn values(field: &RawField<Real>) -> Vec<f64> {
    field.values().iter().map(|v| v.0).collect()
}

fn close(a: f64, b: f64, relative: f64) -> bool {
    (a - b).abs() <= relative * a.abs().max(b.abs())
}

#[test]
fn config_keeps_its_parameters() {
    let made = config(1920, 1080, 8.0e-6, 520.0e-9, (960.0, 540.0, 125000.0), 40.0);
    assert_eq!(made.image_width(), 1920);
    assert_eq!(made.image_height(), 1080);
    assert_eq!(made.pixel_pitch(), Real(8.0e-6));
    assert_eq!(made.wavelength(), Real(520.0e-9));
    assert_eq!(made.scalar(), Real(40.0));
    let offset = made.offset();
    assert_eq!((offset.x, offset.y, offset.z), (Real(960.0), Real(540.0), Real(125000.0)));
}

fn refused(width: u32, height: u32, pitch: f64, wavelength: f64) -> ConfigError {
    let offset = Point::new(Real(0.0), Real(0.0), Real(1.0));
    CghConfig::new(width, height, Real(pitch), Real(wavelength), offset, Real(1.0)).unwrap_err()
}

#[test]
fn config_refuses_an_image_without_columns() {
    assert_eq!(refused(0, 10, 1.0, 1.0), ConfigError::ImageWidth);
}

#[test]
fn config_refuses_an_image_without_rows() {
    assert_eq!(refused(10, 0, 1.0, 1.0), ConfigError::ImageHeight);
}

#[test]
fn config_refuses_an_image_too_large_for_a_file() {
    assert_eq!(refused(65536, 65536, 1.0, 1.0), ConfigError::ImageSize);
    assert_eq!(refused(u32::MAX - 1077, 1, 1.0, 1.0), ConfigError::ImageSize);
    assert_eq!(refused(u32::MAX - 1078, 1, 0.0, 1.0), ConfigError::PixelPitch);
}

#[test]
fn config_refuses_a_pixel_pitch_not_above_zero() {
    assert_eq!(refused(10, 10, 0.0, 1.0), ConfigError::PixelPitch);
    assert_eq!(refused(10, 10, -8.0e-6, 1.0), ConfigError::PixelPitch);
    assert_eq!(refused(10, 10, f64::NAN, 1.0), ConfigError::PixelPitch);
}

#[test]
fn config_refuses_a_wavelength_not_above_zero() {
    assert_eq!(refused(10, 10, 1.0, 0.0), ConfigError::Wavelength);
    assert_eq!(refused(10, 10, 1.0, -520.0e-9), ConfigError::Wavelength);
    assert_eq!(refused(10, 10, 1.0, f64::NAN), ConfigError::Wavelength);
}

#[test]
fn config_names_the_first_fault() {
    assert_eq!(refused(0, 0, 0.0, 0.0), ConfigError::ImageWidth);
    assert_eq!(refused(1, 0, 0.0, 0.0), ConfigError::ImageHeight);
    assert_eq!(refused(1, 1, 0.0, 0.0), ConfigError::PixelPitch);
}

#[test]
fn field_needs_one_value_for_each_pixel() {
    assert!(RawField::new(2, 2, vec![Real(0.0); 4]).is_some());
    assert!(RawField::new(2, 2, vec![Real(0.0); 3]).is_none());
    assert!(RawField::new(2, 2, vec![Real(0.0); 5]).is_none());
    assert!(RawField::<Real>::new(65536, 65536, vec![]).is_none());
    assert!(RawField::<Real>::new(0, 7, vec![]).is_some());
}

#[test]
fn field_is_read_by_column_and_row() {
    let made = field(3, 2, &[0.0, 1.0, 2.0, 10.0, 11.0, 12.0]);
    assert_eq!(made.width(), 3);
    assert_eq!(made.height(), 2);
    assert_eq!(made.get(0, 0), Real(0.0));
    assert_eq!(made.get(2, 0), Real(2.0));
    assert_eq!(made.get(0, 1), Real(10.0));
    assert_eq!(made.get(2, 1), Real(12.0));
}

#[test]
fn phases_become_a_ramp_of_grays() {
    let image = normalize(&field(2, 2, &[0.0, 0.5, 1.0, 0.25]), Mode::Phase);
    assert_eq!((image.width(), image.height()), (2, 2));
    assert_eq!(pixels(&image), vec![0, 128, 255, 64]);
}

#[test]
fn phases_are_rounded_to_the_nearest_gray() {
    let image = normalize(&field(4, 1, &[0.0, 100.0, 255.0, 99.4]), Mode::Phase);
    assert_eq!(pixels(&image), vec![0, 100, 255, 99]);
    let image = normalize(&field(3, 1, &[-PI, 0.0, PI]), Mode::Phase);
    assert_eq!(pixels(&image), vec![0, 128, 255]);
}

#[test]
fn spread_phases_use_the_whole_range() {
    let values: Vec<f64> = (0..35).map(|k| ((k * 37 % 101) as f64).sin() * PI).collect();
    let levels = pixels(&normalize(&field(7, 5, &values), Mode::Phase));
    assert_eq!(levels.iter().min(), Some(&0));
    assert_eq!(levels.iter().max(), Some(&255));
    let least = values.iter().cloned().fold(f64::MAX, f64::min);
    let greatest = values.iter().cloned().fold(f64::MIN, f64::max);
    for (v, l) in values.iter().zip(&levels) {
        assert_eq!(*l, (255.0 * (v - least) / (greatest - least)).round() as u8);
    }
}

#[test]
fn amplitudes_become_black_and_white() {
    let image = normalize(&field(4, 1, &[-1.0, 0.0, 3.0, 1.0]), Mode::Amplitude);
    assert_eq!(pixels(&image), vec![0, 0, 255, 0]);
    let image = normalize(&field(3, 1, &[2.0, 2.5, 4.0]), Mode::Amplitude);
    assert_eq!(pixels(&image), vec![0, 0, 255]);
}

#[test]
fn constant_field_becomes_black() {
    for mode in [Mode::Phase, Mode::Amplitude] {
        let image = normalize(&field(3, 2, &[0.75; 6]), mode);
        assert_eq!((image.width(), image.height()), (3, 2));
        assert_eq!(pixels(&image), vec![0; 6]);
        assert_eq!(pixels(&normalize(&field(1, 1, &[-2.0]), mode)), vec![0]);
    }
}

#[test]
fn field_without_pixels_becomes_an_image_without_pixels() {
    let image = normalize(&field(0, 4, &[]), Mode::Phase);
    assert_eq!((image.width(), image.height()), (0, 4));
}

#[test]
fn value_that_is_no_number_becomes_black() {
    let image = normalize(&field(3, 1, &[0.0, f64::NAN, 1.0]), Mode::Phase);
    assert_eq!(pixels(&image), vec![0, 0, 255]);
}

#[test]
fn naive_single_point_at_a_known_distance() {
    let tri = TriFuncStd::<Real>::new();
    let object = cloud(&[(3, 4, 0)]);
    let made = config(1, 1, 0.05, 1.0, (0.0, 0.0, 0.0), 1.0);
    let phase = CghProcessorNaive::pixel(&tri, &made, &object, 0, 0);
    assert!(close(phase.0, PI / 2.0, 1e-15));
    let made = config(1, 1, 0.2, 1.0, (0.0, 0.0, 0.0), 1.0);
    let phase = CghProcessorNaive::pixel(&tri, &made, &object, 0, 0);
    assert_eq!(phase, Real(0.0));
}

#[test]
fn naive_follows_its_formula() {
    let tri = TriFuncStd::<Real>::new();
    let object = cloud(&[(1, -2, 3), (-4, 5, 6)]);
    let made = config(4, 3, 8.0e-6, 520.0e-9, (2.0, 1.0, 500.0), 2.0);
    let (mut re, mut im) = (0.0, 0.0);
    for (px, py, pz) in [(1.0, -2.0, 3.0), (-4.0, 5.0, 6.0)] {
        let (qx, qy, qz): (f64, f64, f64) = (px * 2.0 + 2.0, py * 2.0 + 1.0, pz * 2.0 + 500.0);
        let d = ((qx - 3.0) * (qx - 3.0) + (qy - 2.0) * (qy - 2.0) + qz * qz).sqrt();
        let theta = 8.0e-6 * d / 520.0e-9;
        re += (2.0 * PI * theta.fract()).cos() / d;
        im += (2.0 * PI * theta.fract()).sin() / d;
    }
    let phase = CghProcessorNaive::pixel(&tri, &made, &object, 3, 2);
    assert_eq!(phase, Real(im.atan2(re)));
    let amplitude = CghProcessorNaiveAmplitude::pixel(&tri, &made, &object, 3, 2);
    assert_eq!(amplitude, Real(re));
}

#[test]
fn fresnel_single_point_by_hand() {
    let tri = TriFuncStd::<Real>::new();
    let object = cloud(&[(0, 0, 2)]);
    let made = config(2, 1, 1.0, 1.0, (0.0, 0.0, 0.0), 1.0);
    let at_the_point = CghProcessorFresnel::pixel(&tri, &made, &object, 0, 0);
    assert_eq!(at_the_point, Real(0.0));
    let beside_it = CghProcessorFresnel::pixel(&tri, &made, &object, 1, 0);
    assert!(close(beside_it.0, PI / 2.0, 1e-15));
}

#[test]
fn fresnel_follows_its_formula() {
    let tri = TriFuncStd::<Real>::new();
    let object = cloud(&[(1, -2, 3), (-4, 5, 6)]);
    let made = config(4, 3, 8.0e-6, 520.0e-9, (2.0, 1.0, 500.0), 2.0);
    let (mut re, mut im) = (0.0, 0.0);
    for (px, py, pz) in [(1.0, -2.0, 3.0), (-4.0, 5.0, 6.0)] {
        let (qx, qy, qz): (f64, f64, f64) = (px * 2.0 + 2.0, py * 2.0 + 1.0, pz * 2.0 + 500.0);
        let d = qz + ((3.0 - qx) * (3.0 - qx) + (2.0 - qy) * (2.0 - qy)) / (2.0 * qz);
        let theta = 8.0e-6 * d / 520.0e-9;
        re += (2.0 * PI * theta.fract()).cos();
        im += (2.0 * PI * theta.fract()).sin();
    }
    let phase = CghProcessorFresnel::pixel(&tri, &made, &object, 3, 2);
    assert_eq!(phase, Real(im.atan2(re)));
}

#[test]
fn recurrence_first_columns_by_hand() {
    let tri = TriFuncStd::<Real>::new();
    let object = cloud(&[(0, 0, 2)]);
    let made = config(3, 1, 1.0, 1.0, (0.0, 0.0, 0.0), 1.0);
    let computed = CghProcessorRecurrence.process(&tri, &made, &object);
    assert_eq!(computed.get(0, 0), Real(0.0));
    assert!(close(computed.get(1, 0).0, PI / 2.0, 1e-15));
    assert_eq!(computed.get(2, 0), Real(0.0));
}

#[test]
fn recurrence_follows_its_formula() {
    let tri = TriFuncStd::<Real>::new();
    let object = cloud(&[(1, -2, 3)]);
    let made = config(4, 2, 8.0e-6, 520.0e-9, (2.0, 1.0, 500.0), 2.0);
    let computed = CghProcessorRecurrence.process(&tri, &made, &object);
    let (qx, qy, qz): (f64, f64, f64) = (4.0, -3.0, 506.0);
    let y = 1.0;
    let mut theta = (8.0e-6 / 520.0e-9) * (qz + (qx * qx + (y - qy) * (y - qy)) / (2.0 * qz));
    let mut delta = (8.0e-6 / (2.0 * 520.0e-9 * qz)) * (2.0 * -qx + 1.0);
    let zeta = 8.0e-6 / (520.0e-9 * qz);
    for x in 0..4 {
        let re = 0.0 + (2.0 * PI * theta.fract()).cos();
        let im = 0.0 + (2.0 * PI * theta.fract()).sin();
        assert_eq!(computed.get(x, 1), Real(im.atan2(re)));
        theta += delta;
        delta += zeta;
    }
}

#[test]
fn recurrence_agrees_with_fresnel() {
    let tri = TriFuncStd::<Real>::new();
    let object = cloud(&[(1, -1, 3)]);
    let made = config(16, 8, 8.0e-6, 520.0e-9, (4.0, 2.0, 1000.0), 1.0);
    let stepped = CghProcessorRecurrence.process(&tri, &made, &object);
    let direct = CghProcessorFresnel.process(&tri, &made, &object);
    assert_eq!((stepped.width(), stepped.height()), (16, 8));
    for y in 0..8 {
        for x in 0..16 {
            assert!(close(stepped.get(x, y).0, direct.get(x, y).0, 1e-9));
        }
    }
    let d: f64 = 1003.0 + ((0.0 - 5.0) * (0.0 - 5.0) + (0.0 - 1.0) * (0.0 - 1.0)) / (2.0 * 1003.0);
    let theta: f64 = 8.0e-6 * d / 520.0e-9;
    let by_hand = (2.0 * PI * theta.fract()).sin().atan2((2.0 * PI * theta.fract()).cos());
    assert!(close(stepped.get(0, 0).0, by_hand, 1e-9));
    assert_eq!(direct.get(0, 0), Real(by_hand));
}

#[test]
fn recurrence_agrees_with_fresnel_for_a_cloud() {
    let tri = TriFuncStd::<Real>::new();
    let object = cloud(&[(1, -1, 3), (-2, 2, 0), (0, 3, -3)]);
    let made = config(12, 6, 8.0e-6, 520.0e-9, (6.0, 3.0, 800.0), 2.0);
    let stepped = CghProcessorRecurrence.process(&tri, &made, &object);
    let direct = CghProcessorFresnel.process(&tri, &made, &object);
    for y in 0..6 {
        for x in 0..12 {
            assert!((stepped.get(x, y).0 - direct.get(x, y).0).abs() <= 1e-9);
        }
    }
}

#[test]
fn process_gives_each_pixel_its_own_value() {
    let tri = TriFuncLut::<Real, 1024>::new();
    let object = cloud(&[(10, 10, 10), (-10, 10, -10), (3, -7, 2)]);
    let made = config(9, 5, 8.0e-6, 520.0e-9, (4.0, 2.0, 2000.0), 1.5);
    let naive = CghProcessorNaive.process(&tri, &made, &object);
    let amplitude = CghProcessorNaiveAmplitude.process(&tri, &made, &object);
    let fresnel = CghProcessorFresnel.process(&tri, &made, &object);
    assert_eq!((naive.width(), naive.height()), (9, 5));
    assert_eq!(values(&fresnel).len(), 45);
    for y in (0..5usize).rev() {
        for x in (0..9usize).rev() {
            let (px, py) = (x as u32, y as u32);
            assert_eq!(naive.get(px, py), CghProcessorNaive::pixel(&tri, &made, &object, x, y));
            assert_eq!(
                amplitude.get(px, py),
                CghProcessorNaiveAmplitude::pixel(&tri, &made, &object, x, y)
            );
            assert_eq!(fresnel.get(px, py), CghProcessorFresnel::pixel(&tri, &made, &object, x, y));
        }
    }
}

#[test]
fn process_twice_gives_the_same_field() {
    let tri = TriFuncStd::<Real>::new();
    let object = cloud(&[(10, 10, 10), (-10, 10, -10)]);
    let made = config(6, 4, 8.0e-6, 520.0e-9, (3.0, 2.0, 2000.0), 1.0);
    let first = values(&CghProcessorRecurrence.process(&tri, &made, &object));
    let second = values(&CghProcessorRecurrence.process(&tri, &made, &object));
    assert_eq!(first, second);
    let first = values(&CghProcessorNaive.process(&tri, &made, &object));
    let second = values(&CghProcessorNaive.process(&tri, &made, &object));
    assert_eq!(first, second);
}

#[test]
fn empty_cloud_gives_zero_everywhere() {
    let exact = TriFuncStd::<Real>::new();
    let table = TriFuncLut::<Real, 256>::new();
    let object = cloud(&[]);
    let made = config(5, 4, 8.0e-6, 520.0e-9, (2.0, 2.0, 125000.0), 40.0);
    let zeros = vec![0.0; 20];
    assert_eq!(values(&CghProcessorNaive.process(&exact, &made, &object)), zeros);
    assert_eq!(values(&CghProcessorNaive.process(&table, &made, &object)), zeros);
    assert_eq!(values(&CghProcessorNaiveAmplitude.process(&exact, &made, &object)), zeros);
    assert_eq!(values(&CghProcessorNaiveAmplitude.process(&table, &made, &object)), zeros);
    assert_eq!(values(&CghProcessorFresnel.process(&exact, &made, &object)), zeros);
    assert_eq!(values(&CghProcessorFresnel.process(&table, &made, &object)), zeros);
    assert_eq!(values(&CghProcessorRecurrence.process(&exact, &made, &object)), zeros);
    assert_eq!(values(&CghProcessorRecurrence.process(&table, &made, &object)), zeros);
}

#[test]
fn empty_cloud_gives_a_black_image() {
    let tri = TriFuncStd::<Real>::new();
    let object = cloud(&[]);
    let made = config(5, 4, 8.0e-6, 520.0e-9, (2.0, 2.0, 125000.0), 40.0);
    let image = generate_cgh(&CghProcessorFresnel, &tri, &made, &object);
    assert_eq!((image.width(), image.height()), (5, 4));
    assert_eq!(pixels(&image), vec![0; 20]);
    let image = generate_cgh(&CghProcessorRecurrence, &tri, &made, &object);
    assert_eq!(pixels(&image), vec![0; 20]);
}

#[test]
fn four_point_scenario() {
    let tri = TriFuncStd::<Real>::new();
    let object = cloud(&[(10, 10, 10), (-10, 10, -10), (10, -10, -10), (-10, -10, 10)]);
    let made = config(64, 64, 8.0e-6, 520.0e-9, (32.0, 32.0, 125000.0), 1.0);
    let naive = CghProcessorNaive::pixel(&tri, &made, &object, 32, 32);
    let fresnel = CghProcessorFresnel::pixel(&tri, &made, &object, 32, 32);
    assert!((naive.0 - fresnel.0).abs() < 1e-3);

    let (mut re, mut im, mut weighted_re, mut weighted_im) = (0.0, 0.0, 0.0, 0.0);
    for z in [125010.0f64, 124990.0, 124990.0, 125010.0] {
        let paraxial = z + (10.0 * 10.0 + 10.0 * 10.0) / (2.0 * z);
        let theta = 8.0e-6 * paraxial / 520.0e-9;
        re += (2.0 * PI * theta.fract()).cos();
        im += (2.0 * PI * theta.fract()).sin();
        let exact = (10.0f64 * 10.0 + 10.0 * 10.0 + z * z).sqrt();
        let theta = 8.0e-6 * exact / 520.0e-9;
        weighted_re += (2.0 * PI * theta.fract()).cos() / exact;
        weighted_im += (2.0 * PI * theta.fract()).sin() / exact;
    }
    assert!(close(fresnel.0, im.atan2(re), 1e-12));
    assert!(close(naive.0, weighted_im.atan2(weighted_re), 1e-12));
    assert!(close(fresnel.0, -0.4059904341483325, 1e-6));
    assert!(close(naive.0, -0.40587453260769746, 1e-6));

    let field = CghProcessorFresnel.process(&tri, &made, &object);
    assert_eq!(field.get(32, 32), fresnel);
    let field = CghProcessorNaive.process(&tri, &made, &object);
    assert_eq!(field.get(32, 32), naive);
}

#[test]
fn generate_cgh_normalizes_the_field() {
    let tri = TriFuncLut::<Real, 4096>::new();
    let object = cloud(&[(1, -1, 3), (-2, 2, 0)]);
    let made = config(8, 6, 8.0e-6, 520.0e-9, (4.0, 3.0, 1000.0), 2.0);
    let image = generate_cgh(&CghProcessorFresnel, &tri, &made, &object);
    let expected = normalize(&CghProcessorFresnel.process(&tri, &made, &object), Mode::Phase);
    assert_eq!((image.width(), image.height()), (8, 6));
    assert_eq!(pixels(&image), pixels(&expected));
    assert_eq!(pixels(&image).iter().min(), Some(&0));
    assert_eq!(pixels(&image).iter().max(), Some(&255));
}

#[test]
fn table_and_exact_fields_are_close() {
    let exact = TriFuncStd::<Real>::new();
    let table = TriFuncLut::<Real, 65536>::new();
    let object = cloud(&[(1, -1, 3)]);
    let made = config(6, 4, 8.0e-6, 520.0e-9, (3.0, 2.0, 1000.0), 1.0);
    let fine = CghProcessorFresnel.process(&exact, &made, &object);
    let coarse = CghProcessorFresnel.process(&table, &made, &object);
    for y in 0..4 {
        for x in 0..6 {
            let difference = (fine.get(x, y).0 - coarse.get(x, y).0).abs();
            assert!(difference <= 2.0 * PI / 65536.0 || difference >= 2.0 * PI - 1e-3);
        }
    }
    assert_eq!(exact.sin(Real(0.25)), table.sin(Real(0.25)));
}

#[test]
fn recurrence_rows_make_the_field() {
    let tri = TriFuncStd::<Real>::new();
    let object = cloud(&[(1, -1, 3), (-2, 2, 0)]);
    let made = config(7, 4, 8.0e-6, 520.0e-9, (3.0, 2.0, 900.0), 2.0);
    let whole = CghProcessorRecurrence.process(&tri, &made, &object);
    for y in (0..4usize).rev() {
        let row = CghProcessorRecurrence::row(&tri, &made, &object, y);
        assert_eq!(row.len(), 7);
        for x in 0..7usize {
            assert_eq!(row[x], whole.get(x as u32, y as u32));
        }
    }
}
