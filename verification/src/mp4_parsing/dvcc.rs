use vstd::prelude::*;
use crate::bytes::{BoxBody, DecodeError, FourCC};
use crate::mp4_parsing::dvvc::{spec_dovi_record, Dvvc};

verus! {

/// DOVIDecoderConfigurationRecord carried in a `dvcC` box, Dolby Vision Streams Within the
/// ISO Base Media File Format, Section 2.2. Same record as [`Dvvc`].
#[derive(Debug, Clone, Copy, PartialEq, Eq, Structural)]
pub struct Dvcc {
    pub dv_version_major: u8,
    pub dv_version_minor: u8,
    pub dv_profile: u8,
    pub dv_level: u8,
    pub rpu_present: bool,
    pub el_present: bool,
    pub bl_present: bool,
    pub dv_bl_signal_compatibility_id: u8,
    pub dv_md_compression: u8,
}

/// The `dvcC` naming of a decoded record.
pub open spec fn spec_dvcc_of(d: Dvvc) -> Dvcc {
    Dvcc {
        dv_version_major: d.dv_version_major,
        dv_version_minor: d.dv_version_minor,
        dv_profile: d.dv_profile,
        dv_level: d.dv_level,
        rpu_present: d.rpu_present,
        el_present: d.el_present,
        bl_present: d.bl_present,
        dv_bl_signal_compatibility_id: d.dv_bl_signal_compatibility_id,
        dv_md_compression: d.dv_md_compression,
    }
}

impl Dvcc {
    /// The same record, named as a `dvcC`.
    pub fn from_dvvc(dvvc: Dvvc) -> (r: Dvcc)
        ensures
            r == spec_dvcc_of(dvvc),
    {
        Dvcc {
            dv_version_major: dvvc.dv_version_major,
            dv_version_minor: dvvc.dv_version_minor,
            dv_profile: dvvc.dv_profile,
            dv_level: dvvc.dv_level,
            rpu_present: dvvc.rpu_present,
            el_present: dvvc.el_present,
            bl_present: dvvc.bl_present,
            dv_bl_signal_compatibility_id: dvvc.dv_bl_signal_compatibility_id,
            dv_md_compression: dvvc.dv_md_compression,
        }
    }
}

impl BoxBody for Dvcc {
    open spec fn spec_kind() -> FourCC {
        FourCC(0x64766343)
    }

    open spec fn spec_defined(b: Seq<u8>) -> bool {
        true
    }

    open spec fn spec_error(b: Seq<u8>) -> Option<DecodeError> {
        match spec_dovi_record(b) {
            Ok(_) => None,
            Err(e) => Some(e),
        }
    }

    open spec fn spec_read(b: Seq<u8>) -> nat {
        24
    }

    open spec fn spec_decodes_to(b: Seq<u8>, v: Dvcc) -> bool {
        match spec_dovi_record(b) {
            Ok((d, _)) => v == spec_dvcc_of(d),
            Err(_) => false,
        }
    }

    fn kind() -> (k: FourCC) {
        FourCC(0x64766343)
    }

    fn decode_body(data: &[u8]) -> (r: Result<(Dvcc, usize), DecodeError>) {
        let (d, n) = Dvvc::decode_record(data)?;
        Ok((Dvcc::from_dvvc(d), n))
    }
}

} // verus!
