use vstd::prelude::*;
use crate::bytes::{be_value, BoxBody, DecodeError, FourCC, read_u32};

verus! {

/// CameraSystemUnitQuaternionTransformBox, QuickTime and ISO Base Media File Formats and
/// Spatial and Immersive Media, Version 1.9.8 (Beta). The three components are IEEE 754
/// single-precision numbers, kept here as their bits (`f32::from_bits` reads them).
#[derive(Debug, Clone, PartialEq, Eq, Structural)]
pub struct Uqua {
    pub x_bits: u32,
    pub y_bits: u32,
    pub z_bits: u32,
}

impl BoxBody for Uqua {
    open spec fn spec_kind() -> FourCC {
        FourCC(0x75717561)
    }

    open spec fn spec_defined(b: Seq<u8>) -> bool {
        true
    }

    /// Version and flags, then three 32-bit components; fewer bytes is an out-of-bounds read.
    open spec fn spec_error(b: Seq<u8>) -> Option<DecodeError> {
        if b.len() >= 16 {
            None
        } else {
            Some(DecodeError::OutOfBounds)
        }
    }

    open spec fn spec_read(b: Seq<u8>) -> nat {
        16
    }

    open spec fn spec_decodes_to(b: Seq<u8>, v: Uqua) -> bool {
        v == (Uqua {
            x_bits: be_value(b, 4, 4) as u32,
            y_bits: be_value(b, 8, 4) as u32,
            z_bits: be_value(b, 12, 4) as u32,
        })
    }

    fn kind() -> (k: FourCC) {
        FourCC(0x75717561)
    }

    fn decode_body(data: &[u8]) -> (r: Result<(Uqua, usize), DecodeError>) {
        let _ = read_u32(data, 0)?;
        let x_bits = read_u32(data, 4)?;
        let y_bits = read_u32(data, 8)?;
        let z_bits = read_u32(data, 12)?;
        Ok((Uqua { x_bits, y_bits, z_bits }, 16))
    }
}

} // verus!
