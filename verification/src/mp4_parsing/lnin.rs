use vstd::prelude::*;
use crate::bytes::{be_value, BoxBody, DecodeError, FourCC, read_u16, read_u32};

verus! {

/// CameraSystemLensIntrinsicsBox, ISO/IEC 23001-18. The projection offset is an IEEE 754
/// single-precision number, kept here as its bits (`f32::from_bits` reads it).
#[derive(Debug, Clone, PartialEq, Eq, Structural)]
pub struct Lnin {
    pub denominator_shift_operand: i16,
    pub skew_denominator_shift_operand: i16,
    pub focal_length_x: i32,
    pub principal_point_x: i32,
    pub principal_point_y: i32,
    /// Present when flags & 1.
    pub focal_length_y: Option<i32>,
    /// Present when flags & 1.
    pub skew_factor: Option<i32>,
    /// Present when flags & 2.
    pub projection_offset_bits: Option<u32>,
}

/// The flags of the box, the low 24 bits of its first word.
pub open spec fn spec_lnin_flags(b: Seq<u8>) -> u32 {
    be_value(b, 0, 4) as u32 & 0x00FF_FFFF
}

/// Where the projection offset starts: after the focal length and skew where flags & 1.
pub open spec fn spec_lnin_offset_at(b: Seq<u8>) -> int {
    if spec_lnin_flags(b) & 1 != 0 { 28 } else { 20 }
}

/// How many bytes the box body takes.
pub open spec fn spec_lnin_len(b: Seq<u8>) -> int {
    spec_lnin_offset_at(b) + if spec_lnin_flags(b) & 2 != 0 { 4int } else { 0int }
}

impl BoxBody for Lnin {
    open spec fn spec_kind() -> FourCC {
        FourCC(0x6c6e696e)
    }

    open spec fn spec_defined(b: Seq<u8>) -> bool {
        true
    }

    /// Version and flags, two 16-bit shift operands, three 32-bit values, then the focal
    /// length and skew where flags & 1 and the offset where flags & 2; fewer bytes is an
    /// out-of-bounds read.
    open spec fn spec_error(b: Seq<u8>) -> Option<DecodeError> {
        if b.len() >= spec_lnin_len(b) {
            None
        } else {
            Some(DecodeError::OutOfBounds)
        }
    }

    open spec fn spec_read(b: Seq<u8>) -> nat {
        spec_lnin_len(b) as nat
    }

    open spec fn spec_decodes_to(b: Seq<u8>, v: Lnin) -> bool {
        let f = spec_lnin_flags(b);
        v == (Lnin {
            denominator_shift_operand: be_value(b, 4, 2) as u16 as i16,
            skew_denominator_shift_operand: be_value(b, 6, 2) as u16 as i16,
            focal_length_x: be_value(b, 8, 4) as u32 as i32,
            principal_point_x: be_value(b, 12, 4) as u32 as i32,
            principal_point_y: be_value(b, 16, 4) as u32 as i32,
            focal_length_y: if f & 1 != 0 { Some(be_value(b, 20, 4) as u32 as i32) } else { None },
            skew_factor: if f & 1 != 0 { Some(be_value(b, 24, 4) as u32 as i32) } else { None },
            projection_offset_bits: if f & 2 != 0 {
                Some(be_value(b, spec_lnin_offset_at(b), 4) as u32)
            } else {
                None
            },
        })
    }

    fn kind() -> (k: FourCC) {
        FourCC(0x6c6e696e)
    }

    fn decode_body(data: &[u8]) -> (r: Result<(Lnin, usize), DecodeError>) {
        let ext = read_u32(data, 0)?;
        let flags = ext & 0x00FF_FFFF;
        let denominator_shift_operand = read_u16(data, 4)? as i16;
        let skew_denominator_shift_operand = read_u16(data, 6)? as i16;
        let focal_length_x = read_u32(data, 8)? as i32;
        let principal_point_x = read_u32(data, 12)? as i32;
        let principal_point_y = read_u32(data, 16)? as i32;
        let mut pos: usize = 20;
        let (focal_length_y, skew_factor) = if flags & 1 != 0 {
            let fy = read_u32(data, 20)? as i32;
            let sk = read_u32(data, 24)? as i32;
            pos = 28;
            (Some(fy), Some(sk))
        } else {
            (None, None)
        };
        let projection_offset_bits = if flags & 2 != 0 {
            let o = read_u32(data, pos)?;
            pos = pos + 4;
            Some(o)
        } else {
            None
        };
        Ok((
            Lnin {
                denominator_shift_operand,
                skew_denominator_shift_operand,
                focal_length_x,
                principal_point_x,
                principal_point_y,
                focal_length_y,
                skew_factor,
                projection_offset_bits,
            },
            pos,
        ))
    }
}

} // verus!
