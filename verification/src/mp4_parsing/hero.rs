use vstd::prelude::*;
use crate::bytes::{BoxBody, DecodeError, FourCC, read_u32, read_u8};

verus! {

/// HeroStereoEyeDescriptionBox, from the QuickTime spatial and immersive media extensions.
#[derive(Debug, Clone, PartialEq, Eq, Structural)]
pub struct Hero {
    pub hero_eye_indicator: u8,
}

impl BoxBody for Hero {
    open spec fn spec_kind() -> FourCC {
        FourCC(0x6865726f)
    }

    open spec fn spec_defined(b: Seq<u8>) -> bool {
        true
    }

    /// 5 bytes, read in order; fewer is an out-of-bounds read.
    open spec fn spec_error(b: Seq<u8>) -> Option<DecodeError> {
        if b.len() >= 5 {
            None
        } else {
            Some(DecodeError::OutOfBounds)
        }
    }

    open spec fn spec_read(b: Seq<u8>) -> nat {
        5
    }

    open spec fn spec_decodes_to(b: Seq<u8>, v: Hero) -> bool {
        v == (Hero { hero_eye_indicator: b[4] })
    }

    fn kind() -> (k: FourCC) {
        FourCC(0x6865726f)
    }

    fn decode_body(data: &[u8]) -> (r: Result<(Hero, usize), DecodeError>) {
        let _ = read_u32(data, 0)?;
        let hero_eye_indicator = read_u8(data, 4)?;
        Ok((Hero { hero_eye_indicator }, 5))
    }
}

} // verus!
