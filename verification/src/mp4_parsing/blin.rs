use vstd::prelude::*;
use crate::bytes::{be_value, BoxBody, DecodeError, FourCC, read_u32};

verus! {

/// StereoCameraSystemBaselineBox, ISO/IEC 23001-18.
#[derive(Debug, Clone, PartialEq, Eq, Structural)]
pub struct Blin {
    pub baseline_value: u32,
}

impl BoxBody for Blin {
    open spec fn spec_kind() -> FourCC {
        FourCC(0x626c696e)
    }

    open spec fn spec_defined(b: Seq<u8>) -> bool {
        true
    }

    /// 8 bytes, read in order; fewer is an out-of-bounds read.
    open spec fn spec_error(b: Seq<u8>) -> Option<DecodeError> {
        if b.len() >= 8 {
            None
        } else {
            Some(DecodeError::OutOfBounds)
        }
    }

    open spec fn spec_read(b: Seq<u8>) -> nat {
        8
    }

    open spec fn spec_decodes_to(b: Seq<u8>, v: Blin) -> bool {
        v == (Blin { baseline_value: be_value(b, 4, 4) as u32 })
    }

    fn kind() -> (k: FourCC) {
        FourCC(0x626c696e)
    }

    fn decode_body(data: &[u8]) -> (r: Result<(Blin, usize), DecodeError>) {
        let _ = read_u32(data, 0)?;
        let baseline_value = read_u32(data, 4)?;
        Ok((Blin { baseline_value }, 8))
    }
}

} // verus!
