use vstd::prelude::*;
use crate::err::PngError;

verus! {

/// Bits per channel sample; only 8 is accepted.
#[derive(Debug)]
pub struct BitDepth {
    pub val: u8,
}

impl BitDepth {
    pub fn from_byte(b: u8) -> (r: Result<Self, PngError>)
        ensures
            b == 8 ==> (r matches Ok(d) && d.val == 8),
            b != 8 ==> r == Err::<Self, PngError>(PngError::UnsupportedBitDepth(b)),
    {
        if b == 8 {
            Ok(BitDepth { val: b })
        } else {
            Err(PngError::UnsupportedBitDepth(b))
        }
    }
}

/// The two color models handled: truecolor and truecolor with alpha.
#[derive(Debug, Clone, Copy, PartialEq, Eq)]
pub enum ColorType {
    RGB,
    RGBA,
}

pub open spec fn color_type_of(b: u8) -> Option<ColorType> {
    if b == 2 {
        Some(ColorType::RGB)
    } else if b == 6 {
        Some(ColorType::RGBA)
    } else {
        None
    }
}

impl ColorType {
    pub fn from_byte(b: u8) -> (r: Result<Self, PngError>)
        ensures
            color_type_of(b) matches Some(c) ==> r == Ok::<Self, PngError>(c),
            color_type_of(b) is None ==> r == Err::<Self, PngError>(PngError::UnsupportedColorType(b)),
    {
        match b {
            2 => Ok(Self::RGB),
            6 => Ok(Self::RGBA),
            _ => Err(PngError::UnsupportedColorType(b)),
        }
    }

    /// Channels per pixel.
    pub open spec fn channels(self) -> nat {
        match self {
            ColorType::RGB => 3,
            ColorType::RGBA => 4,
        }
    }
}

/// Only non-interlaced images are handled.
#[derive(Debug, Clone, Copy, PartialEq, Eq)]
pub enum InterlaceMethod {
    NonInterlaced,
}

impl InterlaceMethod {
    pub fn from_byte(b: u8) -> (r: Result<Self, PngError>)
        ensures
            b == 0 ==> r == Ok::<Self, PngError>(InterlaceMethod::NonInterlaced),
            b != 0 ==> r == Err::<Self, PngError>(PngError::UnsupportedInterlaceMethod(b)),
    {
        match b {
            0 => Ok(Self::NonInterlaced),
            _ => Err(PngError::UnsupportedInterlaceMethod(b)),
        }
    }
}

/// The validated image header. Compression and filter method have a single
/// legal value each, so they are checked and not kept.
pub struct IHDR {
    pub width: u32,
    pub height: u32,
    pub bit_depth: BitDepth,
    pub color_type: ColorType,
    pub interlace_method: InterlaceMethod,
}

/// The big-endian 32-bit integer at `s[p..p + 4]`.
pub open spec fn be_u32(s: Seq<u8>, p: int) -> u32 {
    (s[p] as int * 0x1000000 + s[p + 1] as int * 0x10000 + s[p + 2] as int * 0x100 + s[p + 3] as int) as u32
}

pub open spec fn truncated(expected: int, actual: int) -> PngError {
    PngError::TruncatedInput { expected: expected as u128, actual: actual as u128 }
}

/// What a header payload `s` decodes to, its fields checked in file order.
pub open spec fn ihdr_of(s: Seq<u8>) -> Result<(u32, u32, ColorType), PngError> {
    if s.len() < 8 {
        Err(truncated(if s.len() < 4 { 4 } else { 8 }, s.len() as int))
    } else if s.len() < 9 {
        Err(truncated(9, s.len() as int))
    } else if s[8] != 8 {
        Err(PngError::UnsupportedBitDepth(s[8]))
    } else if s.len() < 10 {
        Err(truncated(10, s.len() as int))
    } else if color_type_of(s[9]) is None {
        Err(PngError::UnsupportedColorType(s[9]))
    } else if s.len() < 11 {
        Err(truncated(11, s.len() as int))
    } else if s[10] != 0 {
        Err(PngError::UnsupportedCompressionMethod(s[10]))
    } else if s.len() < 12 {
        Err(truncated(12, s.len() as int))
    } else if s[11] != 0 {
        Err(PngError::UnsupportedFilterMethod(s[11]))
    } else if s.len() < 13 {
        Err(truncated(13, s.len() as int))
    } else if s[12] != 0 {
        Err(PngError::UnsupportedInterlaceMethod(s[12]))
    } else {
        Ok((be_u32(s, 0), be_u32(s, 4), color_type_of(s[9]).unwrap()))
    }
}

pub open spec fn ihdr_matches(h: IHDR, v: (u32, u32, ColorType)) -> bool {
    h.width == v.0 && h.height == v.1 && h.color_type == v.2 && h.bit_depth.val == 8
}

fn next_u32(data: &Vec<u8>, pos: &mut usize) -> (r: Result<u32, PngError>)
    requires
        *old(pos) <= data@.len(),
    ensures
        *old(pos) + 4 <= data@.len() ==> r == Ok::<u32, PngError>(be_u32(data@, *old(pos) as int))
            && *final(pos) == *old(pos) + 4,
        *old(pos) + 4 > data@.len() ==> r == Err::<u32, PngError>(truncated(*old(pos) + 4, data@.len() as int))
            && *final(pos) == *old(pos),
{
    if data.len() - *pos < 4 {
        return Err(PngError::TruncatedInput { expected: *pos as u128 + 4, actual: data.len() as u128 });
    }
    let p = *pos;
    let v = data[p] as u32 * 0x1000000 + data[p + 1] as u32 * 0x10000 + data[p + 2] as u32 * 0x100
        + data[p + 3] as u32;
    *pos = p + 4;
    Ok(v)
}

fn next_u8(data: &Vec<u8>, pos: &mut usize) -> (r: Result<u8, PngError>)
    requires
        *old(pos) <= data@.len(),
    ensures
        *old(pos) < data@.len() ==> r == Ok::<u8, PngError>(data@[*old(pos) as int]) && *final(pos) == *old(pos) + 1,
        *old(pos) >= data@.len() ==> r == Err::<u8, PngError>(truncated(*old(pos) + 1, data@.len() as int))
            && *final(pos) == *old(pos),
{
    if *pos < data.len() {
        let b = data[*pos];
        *pos = *pos + 1;
        Ok(b)
    } else {
        Err(PngError::TruncatedInput { expected: *pos as u128 + 1, actual: data.len() as u128 })
    }
}

fn check_compress_method(b: u8) -> (r: Result<(), PngError>)
    ensures
        r == (if b != 0 { Err(PngError::UnsupportedCompressionMethod(b)) } else { Ok::<(), PngError>(()) }),
{
    if b != 0 {
        Err(PngError::UnsupportedCompressionMethod(b))
    } else {
        Ok(())
    }
}

fn check_filter_method(b: u8) -> (r: Result<(), PngError>)
    ensures
        r == (if b != 0 { Err(PngError::UnsupportedFilterMethod(b)) } else { Ok::<(), PngError>(()) }),
{
    if b != 0 {
        Err(PngError::UnsupportedFilterMethod(b))
    } else {
        Ok(())
    }
}

impl IHDR {
    /// Decodes and validates a header payload.
    pub fn new(data: Vec<u8>) -> (r: Result<Self, PngError>)
        ensures
            match ihdr_of(data@) {
                Ok(v) => (r matches Ok(h) && ihdr_matches(h, v)),
                Err(e) => (r matches Err(e2) && e2 == e),
            },
    {
        let mut pos: usize = 0;
        let width = next_u32(&data, &mut pos)?;
        let height = next_u32(&data, &mut pos)?;
        let bit_depth = BitDepth::from_byte(next_u8(&data, &mut pos)?)?;
        let color_type = ColorType::from_byte(next_u8(&data, &mut pos)?)?;
        check_compress_method(next_u8(&data, &mut pos)?)?;
        check_filter_method(next_u8(&data, &mut pos)?)?;
        let interlace_method = InterlaceMethod::from_byte(next_u8(&data, &mut pos)?)?;
        Ok(IHDR { width, height, bit_depth, color_type, interlace_method })
    }
}

} // verus!
