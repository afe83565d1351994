use vstd::prelude::*;
use crate::bytes::{be_value, BoxBody, DecodeError, FourCC, read_u32};

verus! {

/// ProjectionInformationBox, from the QuickTime spatial and immersive media extensions.
#[derive(Debug, Clone, PartialEq, Eq, Structural)]
pub struct Prji {
    pub projection_kind: FourCC,
}

impl BoxBody for Prji {
    open spec fn spec_kind() -> FourCC {
        FourCC(0x70726a69)
    }

    open spec fn spec_defined(b: Seq<u8>) -> bool {
        true
    }

    /// 8 bytes, read in order; fewer is an out-of-bounds read.
    open spec fn spec_error(b: Seq<u8>) -> Option<DecodeError> {
        if b.len() >= 8 {
            None
        } else {
            Some(DecodeError::OutOfBounds)
        }
    }

    open spec fn spec_read(b: Seq<u8>) -> nat {
        8
    }

    open spec fn spec_decodes_to(b: Seq<u8>, v: Prji) -> bool {
        v == (Prji { projection_kind: FourCC(be_value(b, 4, 4) as u32) })
    }

    fn kind() -> (k: FourCC) {
        FourCC(0x70726a69)
    }

    fn decode_body(data: &[u8]) -> (r: Result<(Prji, usize), DecodeError>) {
        let _ = read_u32(data, 0)?;
        let projection_kind = FourCC(read_u32(data, 4)?);
        Ok((Prji { projection_kind }, 8))
    }
}

} // verus!
