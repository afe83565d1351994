use vstd::prelude::*;
use crate::bytes::{be_value, BoxBody, DecodeError, FourCC, read_u32};

verus! {

/// CameraSystemLensFrameAdjustmentBox, QuickTime and ISO Base Media File Formats and
/// Spatial and Immersive Media, Version 1.9.8 (Beta). The polynomial parameters (x then y, three each) are IEEE
/// 754 single-precision numbers, kept here as their bits (`f32::from_bits` reads them).
#[derive(Debug, Clone, PartialEq, Eq, Structural)]
pub struct Lfad {
    pub x0_bits: u32,
    pub x1_bits: u32,
    pub x2_bits: u32,
    pub y0_bits: u32,
    pub y1_bits: u32,
    pub y2_bits: u32,
}

impl BoxBody for Lfad {
    open spec fn spec_kind() -> FourCC {
        FourCC(0x6c666164)
    }

    open spec fn spec_defined(b: Seq<u8>) -> bool {
        true
    }

    /// Version and flags, then six 32-bit parameters; fewer bytes is an out-of-bounds read.
    open spec fn spec_error(b: Seq<u8>) -> Option<DecodeError> {
        if b.len() >= 28 {
            None
        } else {
            Some(DecodeError::OutOfBounds)
        }
    }

    open spec fn spec_read(b: Seq<u8>) -> nat {
        28
    }

    open spec fn spec_decodes_to(b: Seq<u8>, v: Lfad) -> bool {
        v == (Lfad {
            x0_bits: be_value(b, 4, 4) as u32,
            x1_bits: be_value(b, 8, 4) as u32,
            x2_bits: be_value(b, 12, 4) as u32,
            y0_bits: be_value(b, 16, 4) as u32,
            y1_bits: be_value(b, 20, 4) as u32,
            y2_bits: be_value(b, 24, 4) as u32,
        })
    }

    fn kind() -> (k: FourCC) {
        FourCC(0x6c666164)
    }

    fn decode_body(data: &[u8]) -> (r: Result<(Lfad, usize), DecodeError>) {
        let _ = read_u32(data, 0)?;
        let x0_bits = read_u32(data, 4)?;
        let x1_bits = read_u32(data, 8)?;
        let x2_bits = read_u32(data, 12)?;
        let y0_bits = read_u32(data, 16)?;
        let y1_bits = read_u32(data, 20)?;
        let y2_bits = read_u32(data, 24)?;
        Ok((Lfad { x0_bits, x1_bits, x2_bits, y0_bits, y1_bits, y2_bits }, 28))
    }
}

} // verus!
