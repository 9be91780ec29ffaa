//! Little-endian encoding of the fixed-width integers used by the file formats.

use vstd::prelude::*;

verus! {

/// The two bytes of `v`, least significant first.
pub open spec fn le_bytes_u16(v: u16) -> Seq<u8> {
    seq![(v % 256) as u8, (v / 256) as u8]
}

/// The four bytes of `v`, least significant first.
pub open spec fn le_bytes_u32(v: u32) -> Seq<u8> {
    seq![
        (v % 256) as u8,
        (v / 256 % 256) as u8,
        (v / 65536 % 256) as u8,
        (v / 16777216) as u8,
    ]
}

/// The 32-bit pattern that represents `v` in two's complement.
pub open spec fn twos_complement(v: i32) -> u32 {
    if v >= 0 {
        v as u32
    } else {
        (v + 0x1_0000_0000) as u32
    }
}

/// The signed value whose two's complement pattern is `v`.
pub open spec fn from_twos_complement(v: u32) -> i32 {
    if v <= i32::MAX {
        v as i32
    } else {
        (v - 0x1_0000_0000) as i32
    }
}

/// The four bytes of `v` in two's complement, least significant first.
pub open spec fn le_bytes_i32(v: i32) -> Seq<u8> {
    le_bytes_u32(twos_complement(v))
}

/// The unsigned value that four little-endian bytes stand for.
pub open spec fn le_u32(bytes: Seq<u8>) -> u32
    recommends
        bytes.len() == 4,
{
    (bytes[0] + bytes[1] * 256 + bytes[2] * 65536 + bytes[3] * 16777216) as u32
}

/// The signed value that four little-endian bytes stand for in two's complement.
pub open spec fn le_i32(bytes: Seq<u8>) -> i32
    recommends
        bytes.len() == 4,
{
    from_twos_complement(le_u32(bytes))
}

/// Decoding undoes encoding, for every unsigned 32-bit value.
pub proof fn lemma_le_u32_round_trip(v: u32)
    ensures
        le_bytes_u32(v).len() == 4,
        le_u32(le_bytes_u32(v)) == v,
{
}

/// Decoding undoes encoding, for every signed 32-bit value.
pub proof fn lemma_le_i32_round_trip(v: i32)
    ensures
        le_bytes_i32(v).len() == 4,
        le_i32(le_bytes_i32(v)) == v,
{
    lemma_le_u32_round_trip(twos_complement(v));
}

/// The 32-bit pattern of `v` in two's complement.
pub(crate) fn i32_bits(v: i32) -> (r: u32)
    ensures
        r == twos_complement(v),
{
    if v >= 0 {
        v as u32
    } else {
        (v as i64 + 0x1_0000_0000) as u32
    }
}

/// The signed value of the two's complement pattern `v`.
pub(crate) fn i32_from_bits(v: u32) -> (r: i32)
    ensures
        r == from_twos_complement(v),
{
    if v <= 0x7fff_ffff {
        v as i32
    } else {
        (v as i64 - 0x1_0000_0000) as i32
    }
}

/// Appends the two little-endian bytes of `v`.
pub(crate) fn put_u16(destination: &mut Vec<u8>, v: u16)
    ensures
        final(destination)@ == old(destination)@ + le_bytes_u16(v),
{
    destination.push((v % 256) as u8);
    destination.push((v / 256) as u8);
    assert(destination@ =~= old(destination)@ + le_bytes_u16(v));
}

/// Appends the four little-endian bytes of `v`.
pub(crate) fn put_u32(destination: &mut Vec<u8>, v: u32)
    ensures
        final(destination)@ == old(destination)@ + le_bytes_u32(v),
{
    destination.push((v % 256) as u8);
    destination.push((v / 256 % 256) as u8);
    destination.push((v / 65536 % 256) as u8);
    destination.push((v / 16777216) as u8);
    assert(destination@ =~= old(destination)@ + le_bytes_u32(v));
}

/// Appends the four little-endian bytes of `v` in two's complement.
pub(crate) fn put_i32(destination: &mut Vec<u8>, v: i32)
    ensures
        final(destination)@ == old(destination)@ + le_bytes_i32(v),
{
    put_u32(destination, i32_bits(v));
}

/// Reads the unsigned 32-bit value stored little-endian at `offset`.
pub(crate) fn get_u32(bytes: &[u8], offset: usize) -> (r: u32)
    requires
        offset + 4 <= bytes@.len(),
    ensures
        r == le_u32(bytes@.subrange(offset as int, offset + 4)),
{
    let b0: u32 = bytes[offset] as u32;
    let b1: u32 = bytes[offset + 1] as u32;
    let b2: u32 = bytes[offset + 2] as u32;
    let b3: u32 = bytes[offset + 3] as u32;
    b0 + b1 * 256 + b2 * 65536 + b3 * 16777216
}

/// Reads the signed 32-bit value stored little-endian in two's complement at `offset`.
pub(crate) fn get_i32(bytes: &[u8], offset: usize) -> (r: i32)
    requires
        offset + 4 <= bytes@.len(),
    ensures
        r == le_i32(bytes@.subrange(offset as int, offset + 4)),
{
    i32_from_bits(get_u32(bytes, offset))
}

} // verus!
