//! Point clouds and the binary format they are stored in.
//!
//! A stored cloud is a little-endian `u32` count followed by that many records
//! of three little-endian `i32` coordinates `x`, `y`, `z`. Bytes after the last
//! record are not part of the cloud.

use crate::bytes::{get_i32, get_u32, le_i32, le_u32};
use crate::point::Point;
use crate::scalar::{functional, of_i32, Scalar};
use vstd::prelude::*;

verus! {

/// Size in bytes of the count that starts a stored cloud.
pub const COUNT_SIZE: usize = 4;

/// Size in bytes of one stored point.
pub const RECORD_SIZE: usize = 12;

/// A point as it is stored: integer coordinates in object space, before any
/// scaling or shifting.
pub struct RawPoint {
    pub x: i32,
    pub y: i32,
    pub z: i32,
}

/// Why a cloud could not be loaded.
#[derive(Debug, Clone, Copy, PartialEq, Eq, Structural)]
pub enum LoadError {
    /// The bytes end before the count, or before the last record it announces.
    UnexpectedEof,
}

/// The number of points that the first four bytes announce.
pub open spec fn declared_count(bytes: Seq<u8>) -> nat {
    le_u32(bytes.subrange(0, COUNT_SIZE as int)) as nat
}

/// The offset in bytes of record `i`.
pub open spec fn record_offset(i: int) -> int {
    COUNT_SIZE + RECORD_SIZE * i
}

/// The point that record `i` holds.
pub open spec fn record(bytes: Seq<u8>, i: int) -> RawPoint {
    RawPoint {
        x: le_i32(bytes.subrange(record_offset(i), record_offset(i) + 4)),
        y: le_i32(bytes.subrange(record_offset(i) + 4, record_offset(i) + 8)),
        z: le_i32(bytes.subrange(record_offset(i) + 8, record_offset(i) + 12)),
    }
}

/// The bytes hold the count and every record that it announces.
pub open spec fn complete(bytes: Seq<u8>) -> bool {
    &&& bytes.len() >= COUNT_SIZE
    &&& bytes.len() >= record_offset(declared_count(bytes) as int)
}

/// The point that a stored point stands for.
pub open spec fn placed<T: Scalar>(raw: RawPoint) -> Point<T> {
    Point { x: of_i32::<T>(raw.x), y: of_i32::<T>(raw.y), z: of_i32::<T>(raw.z) }
}

/// The cloud that the bytes hold.
pub open spec fn stored_cloud<T: Scalar>(bytes: Seq<u8>) -> Seq<Point<T>> {
    Seq::new(declared_count(bytes), |i: int| placed::<T>(record(bytes, i)))
}

/// A cloud of points, in the order in which they were stored.
#[derive(Debug)]
pub struct Object3d<T> {
    points: Vec<Point<T>>,
}

impl<T> View for Object3d<T> {
    type V = Seq<Point<T>>;

    closed spec fn view(&self) -> Seq<Point<T>> {
        self.points@
    }
}

impl<T: Scalar> Object3d<T> {
    /// The points of the cloud.
    pub fn points(&self) -> (points: &Vec<Point<T>>)
        ensures
            points@ == self@,
    {
        &self.points
    }

    /// The number of points in the cloud.
    pub fn size(&self) -> (n: usize)
        ensures
            n == self@.len(),
    {
        self.points.len()
    }

    /// Decodes a stored cloud. A cloud that is cut short is an error: no part
    /// of it is returned.
    pub fn from_reader(reader: &[u8]) -> (loaded: Result<Self, LoadError>)
        requires
            functional::<T>(),
        ensures
            match loaded {
                Ok(object) => complete(reader@) && object@ == stored_cloud::<T>(reader@),
                Err(e) => !complete(reader@) && e == LoadError::UnexpectedEof,
            },
    {
        if reader.len() < COUNT_SIZE {
            return Err(LoadError::UnexpectedEof);
        }
        let size = get_u32(reader, 0);
        if (reader.len() as u64) < COUNT_SIZE as u64 + RECORD_SIZE as u64 * size as u64 {
            return Err(LoadError::UnexpectedEof);
        }
        let count = size as usize;
        let mut points: Vec<Point<T>> = Vec::with_capacity(count);
        let mut i: usize = 0;
        while i < count
            invariant
                functional::<T>(),
                i <= count,
                count == declared_count(reader@),
                record_offset(count as int) <= reader@.len() <= usize::MAX,
                points@ == stored_cloud::<T>(reader@).take(i as int),
            decreases count - i,
        {
            let offset = COUNT_SIZE + RECORD_SIZE * i;
            let x = get_i32(reader, offset);
            let y = get_i32(reader, offset + 4);
            let z = get_i32(reader, offset + 8);
            points.push(Point::new(T::from_i32(x), T::from_i32(y), T::from_i32(z)));
            assert(points@ =~= stored_cloud::<T>(reader@).take(i + 1));
            i += 1;
        }
        assert(points@ =~= stored_cloud::<T>(reader@));
        Ok(Object3d { points })
    }
}

} // verus!
