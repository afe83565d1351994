use vstd::prelude::*;
use vstd::utf8::{decode_utf8, valid_utf8};
use crate::bytes::{
    be_value, cstring_end, nul_index, read_cstring, read_u32, BoxBody, DecodeError, FourCC,
};

verus! {

/// SchemeTypeBox, ISO/IEC 14496-12:2024 Sect 8.12.6.
#[derive(Debug, Clone, PartialEq, Eq)]
pub struct Schm {
    pub scheme_type: FourCC,
    pub scheme_version: u32,
    pub scheme_uri: Option<String>,
}

/// Whether the low flag bit announces a browser URI after the version.
pub open spec fn spec_has_browser_uri(b: Seq<u8>) -> bool {
    b[3] % 2 == 1
}

impl BoxBody for Schm {
    open spec fn spec_kind() -> FourCC {
        FourCC(0x7363686d)
    }

    open spec fn spec_defined(b: Seq<u8>) -> bool {
        true
    }

    /// Version and flags, the scheme's four-character code and version, then a
    /// null-terminated URI when the low flag bit is set.
    open spec fn spec_error(b: Seq<u8>) -> Option<DecodeError> {
        if b.len() < 12 {
            Some(DecodeError::OutOfBounds)
        } else if spec_has_browser_uri(b) && !valid_utf8(b.subrange(12, nul_index(b, 12))) {
            Some(DecodeError::InvalidString)
        } else {
            None
        }
    }

    open spec fn spec_read(b: Seq<u8>) -> nat {
        if spec_has_browser_uri(b) {
            cstring_end(b, 12) as nat
        } else {
            12
        }
    }

    open spec fn spec_decodes_to(b: Seq<u8>, v: Schm) -> bool {
        &&& v.scheme_type == FourCC(be_value(b, 4, 4) as u32)
        &&& v.scheme_version == be_value(b, 8, 4)
        &&& if spec_has_browser_uri(b) {
            v.scheme_uri matches Some(u) && u@ == decode_utf8(b.subrange(12, nul_index(b, 12)))
        } else {
            v.scheme_uri is None
        }
    }

    fn kind() -> (k: FourCC) {
        FourCC(0x7363686d)
    }

    fn decode_body(data: &[u8]) -> (r: Result<(Schm, usize), DecodeError>) {
        let _ = read_u32(data, 0)?;
        let scheme_type = FourCC(read_u32(data, 4)?);
        let scheme_version = read_u32(data, 8)?;
        if data[3] % 2 == 1 {
            let (uri, end) = read_cstring(data, 12)?;
            Ok((Schm { scheme_type, scheme_version, scheme_uri: Some(uri) }, end))
        } else {
            Ok((Schm { scheme_type, scheme_version, scheme_uri: None }, 12))
        }
    }
}

} // verus!
