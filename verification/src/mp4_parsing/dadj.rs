use vstd::prelude::*;
use crate::bytes::{be_value, BoxBody, DecodeError, FourCC, read_u32};

verus! {

/// StereoComfortDisparityAdjustmentBox, from the QuickTime spatial and immersive media extensions.
#[derive(Debug, Clone, PartialEq, Eq, Structural)]
pub struct Dadj {
    pub disparity_adjustment: i32,
}

impl BoxBody for Dadj {
    open spec fn spec_kind() -> FourCC {
        FourCC(0x6461646a)
    }

    open spec fn spec_defined(b: Seq<u8>) -> bool {
        true
    }

    /// 8 bytes, read in order; fewer is an out-of-bounds read.
    open spec fn spec_error(b: Seq<u8>) -> Option<DecodeError> {
        if b.len() >= 8 {
            None
        } else {
            Some(DecodeError::OutOfBounds)
        }
    }

    open spec fn spec_read(b: Seq<u8>) -> nat {
        8
    }

    open spec fn spec_decodes_to(b: Seq<u8>, v: Dadj) -> bool {
        v == (Dadj { disparity_adjustment: (be_value(b, 4, 4) as u32) as i32 })
    }

    fn kind() -> (k: FourCC) {
        FourCC(0x6461646a)
    }

    fn decode_body(data: &[u8]) -> (r: Result<(Dadj, usize), DecodeError>) {
        let _ = read_u32(data, 0)?;
        let disparity_adjustment = read_u32(data, 4)? as i32;
        Ok((Dadj { disparity_adjustment }, 8))
    }
}

} // verus!
