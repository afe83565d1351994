use vstd::prelude::*;
use crate::bytes::{be_value, copy_range, read_u32, BoxBody, DecodeError, FourCC};

verus! {

/// MetadataKeyDeclarationBox, ISO/IEC 14496-12:2024 Sect 12.9.4.4.
#[derive(Debug, Clone, PartialEq, Eq)]
pub struct Keyd {
    pub key_namespace: FourCC,
    pub key_value: Vec<u8>,
}

impl BoxBody for Keyd {
    open spec fn spec_kind() -> FourCC {
        FourCC(0x6b657964)
    }

    open spec fn spec_defined(b: Seq<u8>) -> bool {
        true
    }

    /// The key namespace, then the rest of the body as the key value.
    open spec fn spec_error(b: Seq<u8>) -> Option<DecodeError> {
        if b.len() >= 4 {
            None
        } else {
            Some(DecodeError::OutOfBounds)
        }
    }

    open spec fn spec_read(b: Seq<u8>) -> nat {
        b.len()
    }

    open spec fn spec_decodes_to(b: Seq<u8>, v: Keyd) -> bool {
        &&& v.key_namespace == FourCC(be_value(b, 0, 4) as u32)
        &&& v.key_value@ == b.subrange(4, b.len() as int)
    }

    fn kind() -> (k: FourCC) {
        FourCC(0x6b657964)
    }

    fn decode_body(data: &[u8]) -> (r: Result<(Keyd, usize), DecodeError>) {
        let key_namespace = FourCC(read_u32(data, 0)?);
        let key_value = copy_range(data, 4, data.len());
        Ok((Keyd { key_namespace, key_value }, data.len()))
    }
}

} // verus!
