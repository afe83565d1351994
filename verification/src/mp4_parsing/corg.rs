use vstd::prelude::*;
use crate::bytes::{be_value, BoxBody, DecodeError, FourCC, read_u32};

verus! {

/// CameraSystemOriginSourceBox, from the QuickTime spatial and immersive media extensions.
#[derive(Debug, Clone, PartialEq, Eq, Structural)]
pub struct Corg {
    pub source_of_origin: FourCC,
}

impl BoxBody for Corg {
    open spec fn spec_kind() -> FourCC {
        FourCC(0x636f7267)
    }

    open spec fn spec_defined(b: Seq<u8>) -> bool {
        true
    }

    /// 8 bytes, read in order; fewer is an out-of-bounds read.
    open spec fn spec_error(b: Seq<u8>) -> Option<DecodeError> {
        if b.len() >= 8 {
            None
        } else {
            Some(DecodeError::OutOfBounds)
        }
    }

    open spec fn spec_read(b: Seq<u8>) -> nat {
        8
    }

    open spec fn spec_decodes_to(b: Seq<u8>, v: Corg) -> bool {
        v == (Corg { source_of_origin: FourCC(be_value(b, 4, 4) as u32) })
    }

    fn kind() -> (k: FourCC) {
        FourCC(0x636f7267)
    }

    fn decode_body(data: &[u8]) -> (r: Result<(Corg, usize), DecodeError>) {
        let _ = read_u32(data, 0)?;
        let source_of_origin = FourCC(read_u32(data, 4)?);
        Ok((Corg { source_of_origin }, 8))
    }
}

} // verus!
