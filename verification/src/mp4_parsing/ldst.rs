use vstd::prelude::*;
use crate::bytes::{be_value, BoxBody, DecodeError, FourCC, read_u32};

verus! {

/// CameraSystemLensDistortionsBox, ISO/IEC 23001-18. The coefficients are IEEE 754
/// single-precision numbers, kept here as their bits (`f32::from_bits` reads them).
#[derive(Debug, Clone, PartialEq, Eq, Structural)]
pub struct Ldst {
    pub k1_bits: u32,
    pub k2_bits: u32,
    pub p1_bits: u32,
    pub p2_bits: u32,
    /// Present when flags & 1.
    pub calibration_limit_radial_angle_bits: Option<u32>,
}

/// Whether the box's flags say that a calibration limit follows.
pub open spec fn spec_ldst_has_limit(b: Seq<u8>) -> bool {
    (be_value(b, 0, 4) as u32 & 0x00FF_FFFF) & 1 == 1
}

impl BoxBody for Ldst {
    open spec fn spec_kind() -> FourCC {
        FourCC(0x6c647374)
    }

    open spec fn spec_defined(b: Seq<u8>) -> bool {
        true
    }

    /// Version and flags and four coefficients, then the limit where the flags say so;
    /// fewer bytes is an out-of-bounds read.
    open spec fn spec_error(b: Seq<u8>) -> Option<DecodeError> {
        if b.len() >= 20 && (!spec_ldst_has_limit(b) || b.len() >= 24) {
            None
        } else {
            Some(DecodeError::OutOfBounds)
        }
    }

    open spec fn spec_read(b: Seq<u8>) -> nat {
        if spec_ldst_has_limit(b) { 24 } else { 20 }
    }

    open spec fn spec_decodes_to(b: Seq<u8>, v: Ldst) -> bool {
        v == (Ldst {
            k1_bits: be_value(b, 4, 4) as u32,
            k2_bits: be_value(b, 8, 4) as u32,
            p1_bits: be_value(b, 12, 4) as u32,
            p2_bits: be_value(b, 16, 4) as u32,
            calibration_limit_radial_angle_bits: if spec_ldst_has_limit(b) {
                Some(be_value(b, 20, 4) as u32)
            } else {
                None
            },
        })
    }

    fn kind() -> (k: FourCC) {
        FourCC(0x6c647374)
    }

    fn decode_body(data: &[u8]) -> (r: Result<(Ldst, usize), DecodeError>) {
        let ext = read_u32(data, 0)?;
        let flags = ext & 0x00FF_FFFF;
        let k1_bits = read_u32(data, 4)?;
        let k2_bits = read_u32(data, 8)?;
        let p1_bits = read_u32(data, 12)?;
        let p2_bits = read_u32(data, 16)?;
        if flags & 1 == 1 {
            let limit = read_u32(data, 20)?;
            Ok((Ldst { k1_bits, k2_bits, p1_bits, p2_bits, calibration_limit_radial_angle_bits: Some(limit) }, 24))
        } else {
            Ok((Ldst { k1_bits, k2_bits, p1_bits, p2_bits, calibration_limit_radial_angle_bits: None }, 20))
        }
    }
}

} // verus!
