//! The data a PlayReady Object holds.

use vstd::prelude::*;

verus! {

/// A PlayReady Object: its records in order.
#[derive(Debug, Default, Clone, PartialEq, Eq)]
pub struct PlayReadyPsshData {
    pub record: Vec<PlayReadyRecord>,
}

/// One PlayReady Object record.
#[derive(Default, Debug, Clone, PartialEq, Eq)]
pub struct PlayReadyRecord {
    pub record_type: PlayReadyRecordType,
    pub record_value: WRMHeader,
}

/// The record types a PlayReady Object defines.
#[derive(Default, Debug, Clone, Copy, PartialEq, Eq)]
pub enum PlayReadyRecordType {
    #[default]
    RightsManagement,
    Reserved,
    EmbeddedLicenseStore,
}

impl PlayReadyRecordType {
    /// The record type a type number names, or the number back where it names none.
    pub fn try_from_u16(value: u16) -> (r: Result<PlayReadyRecordType, u16>)
        ensures
            value == 1 ==> r == Ok::<PlayReadyRecordType, u16>(PlayReadyRecordType::RightsManagement),
            value == 2 ==> r == Ok::<PlayReadyRecordType, u16>(PlayReadyRecordType::Reserved),
            value == 3 ==> r == Ok::<PlayReadyRecordType, u16>(PlayReadyRecordType::EmbeddedLicenseStore),
            !(1 <= value <= 3) ==> r == Err::<PlayReadyRecordType, u16>(value),
    {
        match value {
            1 => Ok(PlayReadyRecordType::RightsManagement),
            2 => Ok(PlayReadyRecordType::Reserved),
            3 => Ok(PlayReadyRecordType::EmbeddedLicenseStore),
            _ => Err(value),
        }
    }
}

/// The WRM header of a rights-management record.
#[derive(Default, Debug, Clone, PartialEq, Eq)]
pub struct WRMHeader {
    pub xmlns: String,
    pub version: String,
    pub data: WRMData,
}

/// The DATA element of a WRM header.
#[derive(Default, Debug, Clone, PartialEq, Eq)]
pub struct WRMData {
    pub kids: Vec<PlayReadyKid>,
    pub protect_info: Option<ProtectInfo>,
    pub checksum: Option<String>,
    pub la_url: Option<String>,
    pub lui_url: Option<String>,
    pub ds_id: Option<String>,
    pub custom_attributes: Option<String>,
    pub decryptor_setup: Option<String>,
}

/// A KID element: a key identifier and what it was written with.
#[derive(Default, Debug, Clone, PartialEq, Eq)]
pub struct PlayReadyKid {
    pub value: Option<String>,
    pub algid: Option<String>,
    pub checksum: Option<String>,
}

/// A PROTECTINFO element.
#[derive(Default, Debug, Clone, PartialEq, Eq)]
pub struct ProtectInfo {
    pub keylen: Option<u32>,
    pub algid: Option<String>,
    pub kids: Vec<PlayReadyKid>,
}

/// Why a PlayReady Object could not be read.
#[derive(Debug)]
pub enum ParseError {
    /// The data ended inside a length, a count or a record header.
    Io,
    /// A record's XML is not UTF-16.
    Utf16,
    /// A record's XML is not well formed.
    Xml(quick_xml::Error),
    /// A record of a type other than rights management.
    UnknownType(u16),
    /// The object's length field disagrees with the data's length.
    UnexpectedDataLength { actual: u32, expected: u32 },
    /// The WRM header has no DATA element.
    NoWrmData,
    /// The WRM header has no version attribute.
    NoVersion,
    /// The XML ended inside an element.
    UnexpectedEndOfXml,
}

#[verifier::external_type_specification]
#[verifier::external_body]
pub struct ExXmlError(quick_xml::Error);

// ── Views ────────────────────────────────────────────────────────────────────

/// The text of an optional string.
pub open spec fn spec_opt_view(o: Option<String>) -> Option<Seq<char>> {
    match o {
        Some(s) => Some(s@),
        None => None,
    }
}

/// A KID as plain values.
pub struct KidView {
    pub value: Option<Seq<char>>,
    pub algid: Option<Seq<char>>,
    pub checksum: Option<Seq<char>>,
}

/// A PROTECTINFO as plain values.
pub struct ProtectInfoView {
    pub keylen: Option<u32>,
    pub algid: Option<Seq<char>>,
    pub kids: Seq<KidView>,
}

/// A DATA element as plain values, its custom attributes left aside.
pub struct WrmDataView {
    pub kids: Seq<KidView>,
    pub protect_info: Option<ProtectInfoView>,
    pub checksum: Option<Seq<char>>,
    pub la_url: Option<Seq<char>>,
    pub lui_url: Option<Seq<char>>,
    pub ds_id: Option<Seq<char>>,
    pub decryptor_setup: Option<Seq<char>>,
}

pub open spec fn spec_kid_view(k: PlayReadyKid) -> KidView {
    KidView {
        value: spec_opt_view(k.value),
        algid: spec_opt_view(k.algid),
        checksum: spec_opt_view(k.checksum),
    }
}

pub open spec fn spec_kids_view(ks: Seq<PlayReadyKid>) -> Seq<KidView> {
    ks.map_values(|k: PlayReadyKid| spec_kid_view(k))
}

pub open spec fn spec_protect_info_view(p: ProtectInfo) -> ProtectInfoView {
    ProtectInfoView { keylen: p.keylen, algid: spec_opt_view(p.algid), kids: spec_kids_view(p.kids@) }
}

pub open spec fn spec_opt_protect_info_view(p: Option<ProtectInfo>) -> Option<ProtectInfoView> {
    match p {
        Some(p) => Some(spec_protect_info_view(p)),
        None => None,
    }
}

pub open spec fn spec_data_view(d: WRMData) -> WrmDataView {
    WrmDataView {
        kids: spec_kids_view(d.kids@),
        protect_info: spec_opt_protect_info_view(d.protect_info),
        checksum: spec_opt_view(d.checksum),
        la_url: spec_opt_view(d.la_url),
        lui_url: spec_opt_view(d.lui_url),
        ds_id: spec_opt_view(d.ds_id),
        decryptor_setup: spec_opt_view(d.decryptor_setup),
    }
}

} // verus!
