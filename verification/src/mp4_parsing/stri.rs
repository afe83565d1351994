use vstd::prelude::*;
use crate::bytes::{BoxBody, DecodeError, FourCC, read_u32, read_u8};

verus! {

/// StereoViewInformationBox, from the QuickTime spatial and immersive media extensions.
#[derive(Debug, Clone, PartialEq, Eq, Structural)]
pub struct Stri {
    pub eye_views_reversed: bool,
    pub has_additional_views: bool,
    pub has_right_eye_view: bool,
    pub has_left_eye_view: bool,
}

impl BoxBody for Stri {
    open spec fn spec_kind() -> FourCC {
        FourCC(0x73747269)
    }

    open spec fn spec_defined(b: Seq<u8>) -> bool {
        true
    }

    /// A version-and-flags word, then one byte whose low four bits are the view flags.
    open spec fn spec_error(b: Seq<u8>) -> Option<DecodeError> {
        if b.len() >= 5 {
            None
        } else {
            Some(DecodeError::OutOfBounds)
        }
    }

    open spec fn spec_read(b: Seq<u8>) -> nat {
        5
    }

    open spec fn spec_decodes_to(b: Seq<u8>, v: Stri) -> bool {
        &&& v.eye_views_reversed == (b[4] & 0b1000u8 != 0)
        &&& v.has_additional_views == (b[4] & 0b0100u8 != 0)
        &&& v.has_right_eye_view == (b[4] & 0b0010u8 != 0)
        &&& v.has_left_eye_view == (b[4] & 0b0001u8 != 0)
    }

    fn kind() -> (k: FourCC) {
        FourCC(0x73747269)
    }

    fn decode_body(data: &[u8]) -> (r: Result<(Stri, usize), DecodeError>) {
        let _ = read_u32(data, 0)?;
        let byte = read_u8(data, 4)?;
        Ok((Stri {
            eye_views_reversed: byte & 0b1000u8 != 0,
            has_additional_views: byte & 0b0100u8 != 0,
            has_right_eye_view: byte & 0b0010u8 != 0,
            has_left_eye_view: byte & 0b0001u8 != 0,
        }, 5))
    }
}

} // verus!
