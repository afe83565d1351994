use vstd::prelude::*;
use crate::bytes::{be_value, BoxBody, DecodeError, FourCC, read_u32};

verus! {

/// HorizontalFieldOfViewBox, ISO/IEC 23001-18.
#[derive(Debug, Clone, PartialEq, Eq, Structural)]
pub struct Hfov {
    pub field_of_view: u32,
}

impl BoxBody for Hfov {
    open spec fn spec_kind() -> FourCC {
        FourCC(0x68666f76)
    }

    open spec fn spec_defined(b: Seq<u8>) -> bool {
        true
    }

    /// 4 bytes, read in order; fewer is an out-of-bounds read.
    open spec fn spec_error(b: Seq<u8>) -> Option<DecodeError> {
        if b.len() >= 4 {
            None
        } else {
            Some(DecodeError::OutOfBounds)
        }
    }

    open spec fn spec_read(b: Seq<u8>) -> nat {
        4
    }

    open spec fn spec_decodes_to(b: Seq<u8>, v: Hfov) -> bool {
        v == (Hfov { field_of_view: be_value(b, 0, 4) as u32 })
    }

    fn kind() -> (k: FourCC) {
        FourCC(0x68666f76)
    }

    fn decode_body(data: &[u8]) -> (r: Result<(Hfov, usize), DecodeError>) {
        let field_of_view = read_u32(data, 0)?;
        Ok((Hfov { field_of_view }, 4))
    }
}

} // verus!
