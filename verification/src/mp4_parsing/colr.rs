use vstd::prelude::*;
use crate::bytes::{be_value, copy_range, BoxBody, DecodeError, FourCC, read_u16, read_u32, read_u8};

verus! {

/// ColourInformationBox, ISO/IEC 14496-12:2024 Sect 12.1.5, with the `nclc` type of the
/// QuickTime File Format. A colour type it does not know keeps its bytes.
#[derive(Debug, Clone, PartialEq, Eq)]
pub enum Colr {
    Nclx {
        colour_primaries: u16,
        transfer_characteristics: u16,
        matrix_coefficients: u16,
        full_range_flag: bool,
    },
    Ricc { profile: Vec<u8> },
    Prof { profile: Vec<u8> },
    Nclc { primaries_index: u16, transfer_function_index: u16, matrix_index: u16 },
    Unknown { colour_type: FourCC, bytes: Vec<u8> },
}

/// The colour type `nclx`.
pub const NCLX: u32 = 0x6e636c78;

/// The colour type `prof`.
pub const PROF: u32 = 0x70726f66;

/// The colour type `rICC`.
pub const RICC: u32 = 0x72494343;

/// The colour type `nclc`.
pub const NCLC: u32 = 0x6e636c63;

/// How many bytes a `colr` body of colour type `t` fills: the type and its fields, or the
/// type and all that follows for a profile or an unknown type.
pub open spec fn spec_colr_len(b: Seq<u8>, t: u32) -> int {
    if t == NCLX {
        11
    } else if t == NCLC {
        10
    } else {
        b.len() as int
    }
}

impl BoxBody for Colr {
    open spec fn spec_kind() -> FourCC {
        FourCC(0x636f6c72)
    }

    open spec fn spec_defined(b: Seq<u8>) -> bool {
        true
    }

    open spec fn spec_error(b: Seq<u8>) -> Option<DecodeError> {
        if b.len() < 4 || b.len() < spec_colr_len(b, be_value(b, 0, 4) as u32) {
            Some(DecodeError::OutOfBounds)
        } else {
            None
        }
    }

    open spec fn spec_read(b: Seq<u8>) -> nat {
        spec_colr_len(b, be_value(b, 0, 4) as u32) as nat
    }

    open spec fn spec_decodes_to(b: Seq<u8>, v: Colr) -> bool {
        let t = be_value(b, 0, 4) as u32;
        if t == NCLX {
            v == Colr::Nclx {
                colour_primaries: be_value(b, 4, 2) as u16,
                transfer_characteristics: be_value(b, 6, 2) as u16,
                matrix_coefficients: be_value(b, 8, 2) as u16,
                full_range_flag: b[10] == 0x80,
            }
        } else if t == NCLC {
            v == Colr::Nclc {
                primaries_index: be_value(b, 4, 2) as u16,
                transfer_function_index: be_value(b, 6, 2) as u16,
                matrix_index: be_value(b, 8, 2) as u16,
            }
        } else if t == PROF {
            v matches Colr::Prof { profile } && profile@ == b.subrange(4, b.len() as int)
        } else if t == RICC {
            v matches Colr::Ricc { profile } && profile@ == b.subrange(4, b.len() as int)
        } else {
            v matches Colr::Unknown { colour_type, bytes } && colour_type == FourCC(t) && bytes@ == b.subrange(4, b.len() as int)
        }
    }

    fn kind() -> (k: FourCC) {
        FourCC(0x636f6c72)
    }

    fn decode_body(data: &[u8]) -> (r: Result<(Colr, usize), DecodeError>) {
        let t = read_u32(data, 0)?;
        if t == NCLX {
            let colour_primaries = read_u16(data, 4)?;
            let transfer_characteristics = read_u16(data, 6)?;
            let matrix_coefficients = read_u16(data, 8)?;
            let full_range_flag = read_u8(data, 10)? == 0x80;
            Ok((Colr::Nclx { colour_primaries, transfer_characteristics, matrix_coefficients, full_range_flag }, 11))
        } else if t == NCLC {
            let primaries_index = read_u16(data, 4)?;
            let transfer_function_index = read_u16(data, 6)?;
            let matrix_index = read_u16(data, 8)?;
            Ok((Colr::Nclc { primaries_index, transfer_function_index, matrix_index }, 10))
        } else {
            let rest = copy_range(data, 4, data.len());
            let v = if t == PROF {
                Colr::Prof { profile: rest }
            } else if t == RICC {
                Colr::Ricc { profile: rest }
            } else {
                Colr::Unknown { colour_type: FourCC(t), bytes: rest }
            };
            Ok((v, data.len()))
        }
    }
}

} // verus!
