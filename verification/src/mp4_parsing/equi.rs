use vstd::prelude::*;
use crate::bytes::{BoxBody, DecodeError, FourCC, read_u32};

verus! {

/// FullEquirectangularProjectionBox, ISO/IEC 23001-18.
#[derive(Debug, Clone, PartialEq, Eq, Structural)]
pub struct Equi ;

impl BoxBody for Equi {
    open spec fn spec_kind() -> FourCC {
        FourCC(0x65717569)
    }

    open spec fn spec_defined(b: Seq<u8>) -> bool {
        true
    }

    /// 4 bytes, read in order; fewer is an out-of-bounds read.
    open spec fn spec_error(b: Seq<u8>) -> Option<DecodeError> {
        if b.len() >= 4 {
            None
        } else {
            Some(DecodeError::OutOfBounds)
        }
    }

    open spec fn spec_read(b: Seq<u8>) -> nat {
        4
    }

    open spec fn spec_decodes_to(b: Seq<u8>, v: Equi) -> bool {
        v == Equi
    }

    fn kind() -> (k: FourCC) {
        FourCC(0x65717569)
    }

    fn decode_body(data: &[u8]) -> (r: Result<(Equi, usize), DecodeError>) {
        let _ = read_u32(data, 0)?;
        Ok((Equi, 4))
    }
}

} // verus!
