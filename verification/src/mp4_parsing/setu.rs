use vstd::prelude::*;
use crate::bytes::{copy_range, BoxBody, DecodeError, FourCC};

verus! {

/// MetadataSetupBox, ISO/IEC 14496-12:2024 Sect 12.9.4.6.
#[derive(Debug, Clone, PartialEq, Eq)]
pub struct Setu {
    pub namespace_defined_data: Vec<u8>,
}

impl BoxBody for Setu {
    open spec fn spec_kind() -> FourCC {
        FourCC(0x73657475)
    }

    open spec fn spec_defined(b: Seq<u8>) -> bool {
        true
    }

    /// The whole body is the namespace-defined data.
    open spec fn spec_error(b: Seq<u8>) -> Option<DecodeError> {
        None
    }

    open spec fn spec_read(b: Seq<u8>) -> nat {
        b.len()
    }

    open spec fn spec_decodes_to(b: Seq<u8>, v: Setu) -> bool {
        v.namespace_defined_data@ == b
    }

    fn kind() -> (k: FourCC) {
        FourCC(0x73657475)
    }

    fn decode_body(data: &[u8]) -> (r: Result<(Setu, usize), DecodeError>) {
        let v = copy_range(data, 0, data.len());
        assert(data@.subrange(0, data@.len() as int) =~= data@);
        Ok((Setu { namespace_defined_data: v }, data.len()))
    }
}

} // verus!
