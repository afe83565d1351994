use vstd::prelude::*;
use crate::bytes::{be_value, BoxBody, DecodeError, FourCC, read_u16, read_u24, read_u32, read_u64, read_u8};
use crate::mp4_parsing::dvcc::Dvcc;

verus! {

/// DOVIDecoderConfigurationRecord, Dolby Vision Streams Within the ISO Base Media File
/// Format, Section 2.2.
#[derive(Debug, Clone, Copy, PartialEq, Eq, Structural)]
pub struct Dvvc {
    pub dv_version_major: u8,
    pub dv_version_minor: u8,
    pub dv_profile: u8,
    pub dv_level: u8,
    pub rpu_present: bool,
    pub el_present: bool,
    pub bl_present: bool,
    pub dv_bl_signal_compatibility_id: u8,
    pub dv_md_compression: u8,
}

/// The configuration record both `dvvC` and `dvcC` carry: two version bytes, a 16-bit word
/// of profile(7) level(6) rpu(1) el(1) bl(1), a byte of compatibility id(4) and metadata
/// compression(2), then 26 reserved bits and four reserved 32-bit words: 24 bytes in all.
pub open spec fn spec_dovi_record(b: Seq<u8>) -> Result<(Dvvc, usize), DecodeError> {
    let word = be_value(b, 2, 2) as u16;
    let byte = b[4];
    if b.len() >= 24 {
        Ok((Dvvc {
            dv_version_major: b[0],
            dv_version_minor: b[1],
            dv_profile: ((word >> 9u16) & 0x7fu16) as u8,
            dv_level: ((word >> 3u16) & 0x3fu16) as u8,
            rpu_present: (word >> 2u16) & 0x01u16 == 1,
            el_present: (word >> 1u16) & 0x01u16 == 1,
            bl_present: word & 0x01u16 == 1,
            dv_bl_signal_compatibility_id: (byte >> 4u8) & 0x0fu8,
            dv_md_compression: (byte >> 2u8) & 0x03u8,
        }, 24))
    } else {
        Err(DecodeError::OutOfBounds)
    }
}

impl Dvvc {
    /// Decodes the configuration record shared with `dvcC`.
    pub fn decode_record(data: &[u8]) -> (r: Result<(Dvvc, usize), DecodeError>)
        ensures
            r == spec_dovi_record(data@),
    {
        let dv_version_major = read_u8(data, 0)?;
        let dv_version_minor = read_u8(data, 1)?;
        let word = read_u16(data, 2)?;
        let dv_profile = ((word >> 9u16) & 0x7fu16) as u8;
        let dv_level = ((word >> 3u16) & 0x3fu16) as u8;
        let rpu_present = (word >> 2u16) & 0x01u16 == 1;
        let el_present = (word >> 1u16) & 0x01u16 == 1;
        let bl_present = word & 0x01u16 == 1;
        let byte = read_u8(data, 4)?;
        let dv_bl_signal_compatibility_id = (byte >> 4u8) & 0x0fu8;
        let dv_md_compression = (byte >> 2u8) & 0x03u8;
        let _ = read_u24(data, 5)?;
        let _ = read_u64(data, 8)?;
        let _ = read_u64(data, 16)?;
        Ok((Dvvc {
            dv_version_major,
            dv_version_minor,
            dv_profile,
            dv_level,
            rpu_present,
            el_present,
            bl_present,
            dv_bl_signal_compatibility_id,
            dv_md_compression,
        }, 24))
    }

    /// The same record, named as a `dvvC`.
    pub fn from_dvcc(dvcc: Dvcc) -> (r: Dvvc)
        ensures
            r.dv_version_major == dvcc.dv_version_major,
            r.dv_version_minor == dvcc.dv_version_minor,
            r.dv_profile == dvcc.dv_profile,
            r.dv_level == dvcc.dv_level,
            r.rpu_present == dvcc.rpu_present,
            r.el_present == dvcc.el_present,
            r.bl_present == dvcc.bl_present,
            r.dv_bl_signal_compatibility_id == dvcc.dv_bl_signal_compatibility_id,
            r.dv_md_compression == dvcc.dv_md_compression,
    {
        Dvvc {
            dv_version_major: dvcc.dv_version_major,
            dv_version_minor: dvcc.dv_version_minor,
            dv_profile: dvcc.dv_profile,
            dv_level: dvcc.dv_level,
            rpu_present: dvcc.rpu_present,
            el_present: dvcc.el_present,
            bl_present: dvcc.bl_present,
            dv_bl_signal_compatibility_id: dvcc.dv_bl_signal_compatibility_id,
            dv_md_compression: dvcc.dv_md_compression,
        }
    }
}

impl BoxBody for Dvvc {
    open spec fn spec_kind() -> FourCC {
        FourCC(0x64767643)
    }

    open spec fn spec_defined(b: Seq<u8>) -> bool {
        true
    }

    open spec fn spec_error(b: Seq<u8>) -> Option<DecodeError> {
        match spec_dovi_record(b) {
            Ok(_) => None,
            Err(e) => Some(e),
        }
    }

    open spec fn spec_read(b: Seq<u8>) -> nat {
        24
    }

    open spec fn spec_decodes_to(b: Seq<u8>, v: Dvvc) -> bool {
        spec_dovi_record(b) == Ok::<(Dvvc, usize), DecodeError>((v, 24))
    }

    fn kind() -> (k: FourCC) {
        FourCC(0x64767643)
    }

    fn decode_body(data: &[u8]) -> (r: Result<(Dvvc, usize), DecodeError>) {
        Dvvc::decode_record(data)
    }
}

} // verus!
