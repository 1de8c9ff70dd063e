//! Little-endian decoding of fixed-width integers.

use vstd::prelude::*;

verus! {

/// The `u16` whose little-endian encoding is the first two bytes of `b`.
pub open spec fn le_u16(b: Seq<u8>) -> u16 {
    (b[0] as int + 0x100 * (b[1] as int)) as u16
}

/// The `u32` whose little-endian encoding is the first four bytes of `b`.
pub open spec fn le_u32(b: Seq<u8>) -> u32 {
    (b[0] as int + 0x100 * (b[1] as int) + 0x1_0000 * (b[2] as int) + 0x100_0000 * (b[3]
        as int)) as u32
}

/// The `u64` whose little-endian encoding is the first eight bytes of `b`.
pub open spec fn le_u64(b: Seq<u8>) -> u64 {
    (le_u32(b) as int + 0x1_0000_0000 * (le_u32(b.skip(4)) as int)) as u64
}

/// Two's-complement reading of 16 bits.
pub open spec fn signed16(x: u16) -> i16 {
    if x < 0x8000 {
        x as i16
    } else {
        (x as int - 0x1_0000) as i16
    }
}

/// Two's-complement reading of 32 bits.
pub open spec fn signed32(x: u32) -> i32 {
    if x < 0x8000_0000 {
        x as i32
    } else {
        (x as int - 0x1_0000_0000) as i32
    }
}

/// Two's-complement reading of 64 bits.
pub open spec fn signed64(x: u64) -> i64 {
    if x < 0x8000_0000_0000_0000 {
        x as i64
    } else {
        (x as int - 0x1_0000_0000_0000_0000) as i64
    }
}

/// Decodes the little-endian `u16` stored at `data[at..at + 2]`.
pub fn decode_u16(data: &[u8], at: usize) -> (v: u16)
    requires
        at + 2 <= data.len(),
    ensures
        v == le_u16(data@.skip(at as int)),
{
    let b0: u16 = data[at] as u16;
    let b1: u16 = data[at + 1] as u16;
    b0 + 0x100 * b1
}

/// Decodes the little-endian `u32` stored at `data[at..at + 4]`.
pub fn decode_u32(data: &[u8], at: usize) -> (v: u32)
    requires
        at + 4 <= data.len(),
    ensures
        v == le_u32(data@.skip(at as int)),
{
    let b0: u32 = data[at] as u32;
    let b1: u32 = data[at + 1] as u32;
    let b2: u32 = data[at + 2] as u32;
    let b3: u32 = data[at + 3] as u32;
    b0 + 0x100 * b1 + 0x1_0000 * b2 + 0x100_0000 * b3
}

/// Decodes the little-endian `u64` stored at `data[at..at + 8]`.
pub fn decode_u64(data: &[u8], at: usize) -> (v: u64)
    requires
        at + 8 <= data.len(),
    ensures
        v == le_u64(data@.skip(at as int)),
{
    let low: u64 = decode_u32(data, at) as u64;
    let high: u64 = decode_u32(data, at + 4) as u64;
    assert(data@.skip(at as int).skip(4) =~= data@.skip(at + 4));
    low + 0x1_0000_0000 * high
}

/// Reinterprets 16 bits as a signed integer.
pub fn to_i16(x: u16) -> (v: i16)
    ensures
        v == signed16(x),
{
    if x < 0x8000 {
        x as i16
    } else {
        (x as i32 - 0x1_0000) as i16
    }
}

/// Reinterprets 32 bits as a signed integer.
pub fn to_i32(x: u32) -> (v: i32)
    ensures
        v == signed32(x),
{
    if x < 0x8000_0000 {
        x as i32
    } else {
        (x as i64 - 0x1_0000_0000) as i32
    }
}

/// Reinterprets 64 bits as a signed integer.
pub fn to_i64(x: u64) -> (v: i64)
    ensures
        v == signed64(x),
{
    if x < 0x8000_0000_0000_0000 {
        x as i64
    } else {
        (x as i128 - 0x1_0000_0000_0000_0000) as i64
    }
}

} // verus!
