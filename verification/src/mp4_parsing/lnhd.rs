use vstd::prelude::*;
use crate::bytes::{be_value, BoxBody, DecodeError, FourCC, read_u32};

verus! {

/// CameraSystemLensHeaderBox, from the QuickTime spatial and immersive media extensions.
#[derive(Debug, Clone, PartialEq, Eq, Structural)]
pub struct Lnhd {
    pub lens_identifier: u32,
    pub lens_algorithm_kind: FourCC,
    pub lens_domain: FourCC,
    pub lens_role: FourCC,
}

impl BoxBody for Lnhd {
    open spec fn spec_kind() -> FourCC {
        FourCC(0x6c6e6864)
    }

    open spec fn spec_defined(b: Seq<u8>) -> bool {
        true
    }

    /// 20 bytes, read in order; fewer is an out-of-bounds read.
    open spec fn spec_error(b: Seq<u8>) -> Option<DecodeError> {
        if b.len() >= 20 {
            None
        } else {
            Some(DecodeError::OutOfBounds)
        }
    }

    open spec fn spec_read(b: Seq<u8>) -> nat {
        20
    }

    open spec fn spec_decodes_to(b: Seq<u8>, v: Lnhd) -> bool {
        v == (Lnhd { lens_identifier: be_value(b, 4, 4) as u32, lens_algorithm_kind: FourCC(be_value(b, 8, 4) as u32), lens_domain: FourCC(be_value(b, 12, 4) as u32), lens_role: FourCC(be_value(b, 16, 4) as u32) })
    }

    fn kind() -> (k: FourCC) {
        FourCC(0x6c6e6864)
    }

    fn decode_body(data: &[u8]) -> (r: Result<(Lnhd, usize), DecodeError>) {
        let _ = read_u32(data, 0)?;
        let lens_identifier = read_u32(data, 4)?;
        let lens_algorithm_kind = FourCC(read_u32(data, 8)?);
        let lens_domain = FourCC(read_u32(data, 12)?);
        let lens_role = FourCC(read_u32(data, 16)?);
        Ok((Lnhd { lens_identifier, lens_algorithm_kind, lens_domain, lens_role }, 20))
    }
}

} // verus!
