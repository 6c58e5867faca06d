//! Bounded big-endian reads from a byte slice.
//!
//! Every reader returns `None` instead of panicking when the requested
//! bytes run past the end of the slice.

use vstd::prelude::*;

verus! {

/// The value of the two big-endian bytes starting at index `i`.
pub open spec fn be_u16(d: Seq<u8>, i: int) -> u16 {
    (d[i] * 0x100 + d[i + 1]) as u16
}

/// The value of the four big-endian bytes starting at index `i`.
pub open spec fn be_u32(d: Seq<u8>, i: int) -> u32 {
    (d[i] * 0x100_0000 + d[i + 1] * 0x1_0000 + d[i + 2] * 0x100 + d[i + 3]) as u32
}

/// The two big-endian bytes starting at index `i`, reinterpreted as
/// a two's-complement signed value.
pub open spec fn be_i16(d: Seq<u8>, i: int) -> i16 {
    if be_u16(d, i) >= 0x8000 {
        (be_u16(d, i) - 0x1_0000) as i16
    } else {
        be_u16(d, i) as i16
    }
}

/// The four big-endian bytes starting at index `i`, reinterpreted as
/// a two's-complement signed value.
pub open spec fn be_i32(d: Seq<u8>, i: int) -> i32 {
    if be_u32(d, i) >= 0x8000_0000 {
        (be_u32(d, i) - 0x1_0000_0000) as i32
    } else {
        be_u32(d, i) as i32
    }
}

pub fn read_u8(data: &[u8], offset: usize) -> (r: Option<u8>)
    ensures
        match r {
            Some(v) => offset < data@.len() && v == data@[offset as int],
            None => offset >= data@.len(),
        },
{
    if offset < data.len() {
        Some(data[offset])
    } else {
        None
    }
}

pub fn read_u16_be(data: &[u8], offset: usize) -> (r: Option<u16>)
    ensures
        match r {
            Some(v) => offset + 2 <= data@.len() && v == be_u16(data@, offset as int),
            None => offset + 2 > data@.len(),
        },
{
    if data.len() >= 2 && offset <= data.len() - 2 {
        Some((data[offset] as u16) * 0x100 + (data[offset + 1] as u16))
    } else {
        None
    }
}

pub fn read_u32_be(data: &[u8], offset: usize) -> (r: Option<u32>)
    ensures
        match r {
            Some(v) => offset + 4 <= data@.len() && v == be_u32(data@, offset as int),
            None => offset + 4 > data@.len(),
        },
{
    if data.len() >= 4 && offset <= data.len() - 4 {
        Some(
            (data[offset] as u32) * 0x100_0000 + (data[offset + 1] as u32) * 0x1_0000 + (data[offset
                + 2] as u32) * 0x100 + (data[offset + 3] as u32),
        )
    } else {
        None
    }
}

pub fn read_i16_be(data: &[u8], offset: usize) -> (r: Option<i16>)
    ensures
        match r {
            Some(v) => offset + 2 <= data@.len() && v == be_i16(data@, offset as int),
            None => offset + 2 > data@.len(),
        },
{
    match read_u16_be(data, offset) {
        Some(v) => {
            if v >= 0x8000 {
                Some(((v as i32) - 0x1_0000) as i16)
            } else {
                Some(v as i16)
            }
        },
        None => None,
    }
}

pub fn read_i32_be(data: &[u8], offset: usize) -> (r: Option<i32>)
    ensures
        match r {
            Some(v) => offset + 4 <= data@.len() && v == be_i32(data@, offset as int),
            None => offset + 4 > data@.len(),
        },
{
    match read_u32_be(data, offset) {
        Some(v) => {
            if v >= 0x8000_0000 {
                Some(((v as i64) - 0x1_0000_0000) as i32)
            } else {
                Some(v as i32)
            }
        },
        None => None,
    }
}

pub(crate) fn read_u8_at(data: &[u8], offset: usize) -> (r: u8)
    requires
        offset < data@.len(),
    ensures
        r == data@[offset as int],
{
    data[offset]
}

pub(crate) fn read_u16_at(data: &[u8], offset: usize) -> (r: u16)
    requires
        offset + 2 <= data@.len(),
    ensures
        r == be_u16(data@, offset as int),
{
    match read_u16_be(data, offset) {
        Some(v) => v,
        None => 0,
    }
}

pub(crate) fn read_u32_at(data: &[u8], offset: usize) -> (r: u32)
    requires
        offset + 4 <= data@.len(),
    ensures
        r == be_u32(data@, offset as int),
{
    match read_u32_be(data, offset) {
        Some(v) => v,
        None => 0,
    }
}

pub(crate) fn read_i16_at(data: &[u8], offset: usize) -> (r: i16)
    requires
        offset + 2 <= data@.len(),
    ensures
        r == be_i16(data@, offset as int),
{
    match read_i16_be(data, offset) {
        Some(v) => v,
        None => 0,
    }
}

pub(crate) fn read_i32_at(data: &[u8], offset: usize) -> (r: i32)
    requires
        offset + 4 <= data@.len(),
    ensures
        r == be_i32(data@, offset as int),
{
    match read_i32_be(data, offset) {
        Some(v) => v,
        None => 0,
    }
}

/// The unsigned 32-bit value with the same bit pattern as `x`.
pub open spec fn bits_of_i32(x: i32) -> u32 {
    if x >= 0 {
        x as u32
    } else {
        (x + 0x1_0000_0000) as u32
    }
}

pub(crate) fn i32_to_bits(x: i32) -> (r: u32)
    ensures
        r == bits_of_i32(x),
{
    if x >= 0 {
        x as u32
    } else {
        ((x as i64) + 0x1_0000_0000) as u32
    }
}

} // verus!
