use vstd::prelude::*;
use vstd::utf8::{decode_utf8, valid_utf8};
use crate::bytes::{cstring_end, nul_index, read_cstring, BoxBody, DecodeError, FourCC};

verus! {

/// MetadataLocaleBox, ISO/IEC 14496-12:2024 Sect 12.9.4.5.
#[derive(Debug, Clone, PartialEq, Eq)]
pub struct Loca {
    pub locale: String,
}

impl BoxBody for Loca {
    open spec fn spec_kind() -> FourCC {
        FourCC(0x6c6f6361)
    }

    open spec fn spec_defined(b: Seq<u8>) -> bool {
        true
    }

    /// One null-terminated UTF-8 string.
    open spec fn spec_error(b: Seq<u8>) -> Option<DecodeError> {
        if valid_utf8(b.subrange(0, nul_index(b, 0))) {
            None
        } else {
            Some(DecodeError::InvalidString)
        }
    }

    open spec fn spec_read(b: Seq<u8>) -> nat {
        cstring_end(b, 0) as nat
    }

    open spec fn spec_decodes_to(b: Seq<u8>, v: Loca) -> bool {
        v.locale@ == decode_utf8(b.subrange(0, nul_index(b, 0)))
    }

    fn kind() -> (k: FourCC) {
        FourCC(0x6c6f6361)
    }

    fn decode_body(data: &[u8]) -> (r: Result<(Loca, usize), DecodeError>) {
        let (locale, end) = read_cstring(data, 0)?;
        Ok((Loca { locale }, end))
    }
}

} // verus!
