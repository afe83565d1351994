use vstd::prelude::*;
use crate::bytes::{be_value, BoxBody, DecodeError, FourCC, read_u32};

verus! {

/// OriginalFormatBox, ISO/IEC 14496-12:2024 Sect 13.4.3.
#[derive(Debug, Clone, PartialEq, Eq, Structural)]
pub struct Frma {
    pub data_format: FourCC,
}

impl BoxBody for Frma {
    open spec fn spec_kind() -> FourCC {
        FourCC(0x66726d61)
    }

    open spec fn spec_defined(b: Seq<u8>) -> bool {
        true
    }

    /// 4 bytes, read in order; fewer is an out-of-bounds read.
    open spec fn spec_error(b: Seq<u8>) -> Option<DecodeError> {
        if b.len() >= 4 {
            None
        } else {
            Some(DecodeError::OutOfBounds)
        }
    }

    open spec fn spec_read(b: Seq<u8>) -> nat {
        4
    }

    open spec fn spec_decodes_to(b: Seq<u8>, v: Frma) -> bool {
        v == (Frma { data_format: FourCC(be_value(b, 0, 4) as u32) })
    }

    fn kind() -> (k: FourCC) {
        FourCC(0x66726d61)
    }

    fn decode_body(data: &[u8]) -> (r: Result<(Frma, usize), DecodeError>) {
        let data_format = FourCC(read_u32(data, 0)?);
        Ok((Frma { data_format }, 4))
    }
}

} // verus!
