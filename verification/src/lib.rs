//! Computer-generated holograms of point clouds.
//!
//! A hologram is computed in three steps. A cloud of points is loaded
//! ([`object`]), a processor turns the cloud and the optical parameters into a
//! field with one number for each pixel ([`cgh`]), and the field is
//! normalised into an 8-bit image that can be written as a bitmap file
//! ([`bmp`]).
//!
//! The library computes with any number type that offers the operations of
//! [`scalar::Scalar`], and takes the sines and cosines of its phases from an
//! evaluator ([`lut`]), exact or by table. What each function computes is
//! stated over the operations of the number type, whatever its rounding.
//! The laws that hold only where the arithmetic is exact are in [`exact`].

pub mod bmp;
pub mod bytes;
pub mod cgh;
pub mod exact;
pub mod lut;
pub mod object;
pub mod point;
pub mod reals;
pub mod scalar;
