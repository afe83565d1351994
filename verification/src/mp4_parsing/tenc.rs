use vstd::prelude::*;
use crate::bytes::{copy_range, read_u32, read_u8, BoxBody, DecodeError, FourCC};

verus! {

/// TrackEncryptionBox, ISO/IEC 23001-7:2016 Sect 8.2.
#[derive(Debug, Clone, PartialEq, Eq)]
pub struct Tenc {
    pub default_is_protected: u8,
    pub default_per_sample_iv_size: u8,
    pub default_key_id: [u8; 16],
    pub default_constant_iv: Option<Vec<u8>>,
    pub default_crypt_byte_block: Option<u8>,
    pub default_skip_byte_block: Option<u8>,
}

/// Whether a body carries a constant IV: protected samples without a per-sample IV.
pub open spec fn spec_has_constant_iv(b: Seq<u8>) -> bool {
    b[6] == 1 && b[7] == 0
}

/// How many bytes of a `tenc` body are read: the fixed 24, then the constant IV's size
/// byte and the IV itself when there is one.
pub open spec fn spec_tenc_end(b: Seq<u8>) -> int {
    if spec_has_constant_iv(b) {
        25 + b[24]
    } else {
        24
    }
}

pub open spec fn spec_is_protected_text(v: u8) -> Seq<char> {
    if v == 0 {
        "Not protected"@
    } else if v == 1 {
        "Protected"@
    } else {
        "Reserved"@
    }
}

pub open spec fn spec_per_sample_iv_size_text(is_protected: u8, iv_size: u8) -> Seq<char> {
    if iv_size == 0 && is_protected == 0 {
        "Not protected"@
    } else if iv_size == 0 {
        "Constant IV"@
    } else if iv_size == 8 {
        "64-bit"@
    } else if iv_size == 16 {
        "128-bit"@
    } else {
        "Undocumented in ISO/IEC 23001-7:2016"@
    }
}

pub open spec fn spec_constant_iv_size_text(iv: Option<Vec<u8>>) -> Seq<char> {
    match iv {
        None => "None"@,
        Some(v) => if v@.len() == 8 {
            "64-bit"@
        } else if v@.len() == 16 {
            "128-bit"@
        } else {
            "Undocumented size in ISO/IEC 23001-7:2016"@
        },
    }
}

impl Tenc {
    /// What `default_isProtected` says.
    pub fn is_protected(&self) -> (r: &'static str)
        ensures
            r@ == spec_is_protected_text(self.default_is_protected),
    {
        match self.default_is_protected {
            0 => "Not protected",
            1 => "Protected",
            _ => "Reserved",
        }
    }

    /// What `default_Per_Sample_IV_Size` says, given whether samples are protected.
    pub fn per_sample_iv_size(&self) -> (r: &'static str)
        ensures
            r@ == spec_per_sample_iv_size_text(
                self.default_is_protected,
                self.default_per_sample_iv_size,
            ),
    {
        match self.default_per_sample_iv_size {
            0 => if self.default_is_protected == 0 {
                "Not protected"
            } else {
                "Constant IV"
            },
            8 => "64-bit",
            16 => "128-bit",
            _ => "Undocumented in ISO/IEC 23001-7:2016",
        }
    }

    /// The size of the constant IV, when there is one.
    pub fn constant_iv_size(&self) -> (r: &'static str)
        ensures
            r@ == spec_constant_iv_size_text(self.default_constant_iv),
    {
        match &self.default_constant_iv {
            None => "None",
            Some(iv) => match iv.len() {
                8 => "64-bit",
                16 => "128-bit",
                _ => "Undocumented size in ISO/IEC 23001-7:2016",
            },
        }
    }
}

impl BoxBody for Tenc {
    open spec fn spec_kind() -> FourCC {
        FourCC(0x74656e63)
    }

    open spec fn spec_defined(b: Seq<u8>) -> bool {
        true
    }

    /// Version and flags, a reserved byte, the byte-block pattern (version 1 and later),
    /// the protection flag, the IV size, the 16-byte key id, then the constant IV with its
    /// size byte when samples are protected without a per-sample IV.
    open spec fn spec_error(b: Seq<u8>) -> Option<DecodeError> {
        if b.len() < 24 || (spec_has_constant_iv(b) && (b.len() < 25 || b.len() < 25 + b[24])) {
            Some(DecodeError::OutOfBounds)
        } else {
            None
        }
    }

    open spec fn spec_read(b: Seq<u8>) -> nat {
        spec_tenc_end(b) as nat
    }

    open spec fn spec_decodes_to(b: Seq<u8>, v: Tenc) -> bool {
        &&& v.default_is_protected == b[6]
        &&& v.default_per_sample_iv_size == b[7]
        &&& v.default_key_id@ == b.subrange(8, 24)
        &&& if b[0] == 0 {
            v.default_crypt_byte_block is None && v.default_skip_byte_block is None
        } else {
            v.default_crypt_byte_block == Some(b[5] / 16) && v.default_skip_byte_block == Some(
                b[5] % 16,
            )
        }
        &&& if spec_has_constant_iv(b) {
            v.default_constant_iv matches Some(iv) && iv@ == b.subrange(25, 25 + b[24])
        } else {
            v.default_constant_iv is None
        }
    }

    fn kind() -> (k: FourCC) {
        FourCC(0x74656e63)
    }

    fn decode_body(data: &[u8]) -> (r: Result<(Tenc, usize), DecodeError>) {
        if data.len() < 24 {
            return Err(DecodeError::OutOfBounds);
        }
        let _ = read_u32(data, 0)?;
        let version = data[0];
        let pattern = data[5];
        let (default_crypt_byte_block, default_skip_byte_block) = if version == 0 {
            (None, None)
        } else {
            (Some(pattern / 16), Some(pattern % 16))
        };
        let default_is_protected = data[6];
        let default_per_sample_iv_size = data[7];
        let default_key_id: [u8; 16] = [
            data[8], data[9], data[10], data[11], data[12], data[13], data[14], data[15],
            data[16], data[17], data[18], data[19], data[20], data[21], data[22], data[23],
        ];
        assert(default_key_id@ =~= data@.subrange(8, 24));
        if default_is_protected == 1 && default_per_sample_iv_size == 0 {
            let iv_size = read_u8(data, 24)?;
            if data.len() - 25 < iv_size as usize {
                return Err(DecodeError::OutOfBounds);
            }
            let end = 25 + iv_size as usize;
            let iv = copy_range(data, 25, end);
            Ok((Tenc {
                default_is_protected,
                default_per_sample_iv_size,
                default_key_id,
                default_constant_iv: Some(iv),
                default_crypt_byte_block,
                default_skip_byte_block,
            }, end))
        } else {
            Ok((Tenc {
                default_is_protected,
                default_per_sample_iv_size,
                default_key_id,
                default_constant_iv: None,
                default_crypt_byte_block,
                default_skip_byte_block,
            }, 24))
        }
    }
}

} // verus!
