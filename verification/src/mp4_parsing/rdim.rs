use vstd::prelude::*;
use crate::bytes::{be_value, BoxBody, DecodeError, FourCC, read_u32};

verus! {

/// CameraSystemLensReferenceDimensionsBox, ISO/IEC 23001-18.
#[derive(Debug, Clone, PartialEq, Eq, Structural)]
pub struct Rdim {
    pub reference_width: u32,
    pub reference_height: u32,
}

impl BoxBody for Rdim {
    open spec fn spec_kind() -> FourCC {
        FourCC(0x7264696d)
    }

    open spec fn spec_defined(b: Seq<u8>) -> bool {
        true
    }

    /// 12 bytes, read in order; fewer is an out-of-bounds read.
    open spec fn spec_error(b: Seq<u8>) -> Option<DecodeError> {
        if b.len() >= 12 {
            None
        } else {
            Some(DecodeError::OutOfBounds)
        }
    }

    open spec fn spec_read(b: Seq<u8>) -> nat {
        12
    }

    open spec fn spec_decodes_to(b: Seq<u8>, v: Rdim) -> bool {
        v == (Rdim { reference_width: be_value(b, 4, 4) as u32, reference_height: be_value(b, 8, 4) as u32 })
    }

    fn kind() -> (k: FourCC) {
        FourCC(0x7264696d)
    }

    fn decode_body(data: &[u8]) -> (r: Result<(Rdim, usize), DecodeError>) {
        let _ = read_u32(data, 0)?;
        let reference_width = read_u32(data, 4)?;
        let reference_height = read_u32(data, 8)?;
        Ok((Rdim { reference_width, reference_height }, 12))
    }
}

} // verus!
