use vstd::prelude::*;
use crate::bytes::{be_value, read_u32, BoxBody, DecodeError, FourCC};

verus! {

/// RequiredBoxTypesBox, ISO/IEC 23001-18.
#[derive(Debug, Clone, PartialEq, Eq)]
pub struct Must {
    pub required_box_types: Vec<FourCC>,
}

/// How many whole four-character codes follow the version-and-flags word.
pub open spec fn must_count(b: Seq<u8>) -> int {
    (b.len() - 4) / 4
}

impl BoxBody for Must {
    open spec fn spec_kind() -> FourCC {
        FourCC(0x6d757374)
    }

    open spec fn spec_defined(b: Seq<u8>) -> bool {
        true
    }

    /// A version-and-flags word, then four-character codes for as long as four bytes
    /// remain. Fewer than four trailing bytes are left unread.
    open spec fn spec_error(b: Seq<u8>) -> Option<DecodeError> {
        if b.len() >= 4 {
            None
        } else {
            Some(DecodeError::OutOfBounds)
        }
    }

    open spec fn spec_read(b: Seq<u8>) -> nat {
        (4 + 4 * must_count(b)) as nat
    }

    open spec fn spec_decodes_to(b: Seq<u8>, v: Must) -> bool {
        &&& v.required_box_types@.len() == must_count(b)
        &&& forall|i: int|
            0 <= i < must_count(b) ==> #[trigger] v.required_box_types@[i] == FourCC(
                be_value(b, 4 + 4 * i, 4) as u32,
            )
    }

    fn kind() -> (k: FourCC) {
        FourCC(0x6d757374)
    }

    fn decode_body(data: &[u8]) -> (r: Result<(Must, usize), DecodeError>) {
        let _ = read_u32(data, 0)?;
        let mut required_box_types: Vec<FourCC> = Vec::new();
        let mut pos: usize = 4;
        while data.len() - pos >= 4
            invariant
                4 <= pos <= data@.len(),
                pos == 4 + 4 * required_box_types@.len(),
                forall|i: int|
                    0 <= i < required_box_types@.len() ==> #[trigger] required_box_types@[i]
                        == FourCC(be_value(data@, 4 + 4 * i, 4) as u32),
            decreases data.len() - pos,
        {
            let k = read_u32(data, pos)?;
            required_box_types.push(FourCC(k));
            pos = pos + 4;
        }
        assert(required_box_types@.len() == must_count(data@));
        Ok((Must { required_box_types }, pos))
    }
}

} // verus!
