use vstd::prelude::*;
use vstd::arithmetic::power2::lemma2_to64;
use vstd::utf8::{decode_utf8, valid_utf8};
use crate::bits::{
    spec_aligned, spec_bit_bytes, spec_bits, spec_bytes_remaining, spec_has_bits, BitReader,
};
use crate::bytes::{BoxBody, DecodeError, FourCC, Unsupported};

verus! {

/// AC4SpecificBox, ETSI TS 103 190-2 V1.2.1 (2018-02) Sect E.5.1.
#[derive(Debug, Clone, PartialEq, Eq)]
pub struct Dac4 {
    pub ac4_dsi_version: u8,
    pub bitstream_version: u8,
    pub fs_index: bool,
    pub frame_rate_index: u8,
    pub short_program_id: Option<u16>,
    pub program_uuid: Option<[u8; 16]>,
    pub bit_rate_mode: Ac4BitrateMode,
    pub bit_rate: u32,
    pub bit_rate_precision: u32,
    pub presentations: Vec<Ac4Presentation>,
}

#[derive(Debug, Clone, Copy, PartialEq, Eq, Structural)]
pub enum Ac4BitrateMode {
    NotSpecified,
    Constant,
    Average,
    Variable,
}

pub open spec fn spec_bitrate_mode(v: u8) -> Ac4BitrateMode {
    if v == 1 {
        Ac4BitrateMode::Constant
    } else if v == 2 {
        Ac4BitrateMode::Average
    } else if v == 3 {
        Ac4BitrateMode::Variable
    } else {
        Ac4BitrateMode::NotSpecified
    }
}

impl From<u8> for Ac4BitrateMode {
    fn from(value: u8) -> (r: Ac4BitrateMode) {
        match value {
            1 => Ac4BitrateMode::Constant,
            2 => Ac4BitrateMode::Average,
            3 => Ac4BitrateMode::Variable,
            _ => Ac4BitrateMode::NotSpecified,
        }
    }
}

impl vstd::std_specs::convert::FromSpecImpl<u8> for Ac4BitrateMode {
    open spec fn obeys_from_spec() -> bool {
        true
    }

    open spec fn from_spec(v: u8) -> Ac4BitrateMode {
        spec_bitrate_mode(v)
    }
}

#[derive(Debug, Clone, PartialEq, Eq)]
pub enum Ac4Presentation {
    V0(Ac4PresentationV0),
    V1(Ac4PresentationV1),
    /// The version 2 extension of the Dolby AC-4 DASH broadcast specification, which has
    /// the layout of version 1.
    V2(Ac4PresentationV1),
    UnknownVersion(u8),
}

#[derive(Debug, Clone, PartialEq, Eq)]
pub struct Ac4PresentationV0 {
    pub presentation_config: u8,
    pub md_compat: Option<u8>,
    pub presentation_id: Option<u8>,
    pub dsi_frame_rate_multiply_info: Option<u8>,
    pub presentation_emdf_version: Option<u8>,
    pub presentation_key_id: Option<u16>,
    pub presentation_channel_mask: Option<[u8; 3]>,
    pub b_hsf_ext: Option<bool>,
    pub substream_groups: Option<Vec<Ac4SubstreamGroup>>,
    pub b_pre_virtualized: Option<bool>,
    pub emdf_substreams: Vec<EmdfSubstream>,
}

#[derive(Debug, Clone, PartialEq, Eq)]
pub struct Ac4PresentationV1 {
    pub presentation_config_v1: u8,
    pub md_compat: Option<u8>,
    pub presentation_id: Option<u8>,
    pub dsi_frame_rate_multiply_info: Option<u8>,
    pub dsi_frame_rate_fraction_info: Option<u8>,
    pub presentation_emdf_version: Option<u8>,
    pub presentation_key_id: Option<u16>,
    pub b_presentation_channel_coded: Option<bool>,
    pub dsi_presentation_ch_mode: Option<u8>,
    pub pres_b_4_back_channels_present: Option<bool>,
    pub pres_top_channel_pairs: Option<u8>,
    pub presentation_channel_mask_v1: Option<[u8; 3]>,
    pub b_presentation_core_differs: Option<bool>,
    pub b_presentation_core_channel_coded: Option<bool>,
    pub dsi_presentation_channel_mode_core: Option<u8>,
    pub b_presentation_filter: Option<bool>,
    pub b_enable_presentation: Option<bool>,
    pub filter_data: Option<Vec<u8>>,
    pub b_multi_pid: Option<bool>,
    pub substream_groups: Option<Vec<Ac4SubstreamGroup>>,
    pub b_pre_virtualized: Option<bool>,
    pub emdf_substreams: Vec<EmdfSubstream>,
    pub bit_rate_mode: Option<Ac4BitrateMode>,
    pub bit_rate: Option<u32>,
    pub bit_rate_precision: Option<u32>,
    pub alternative_info: Option<Ac4AlternativeInfo>,
    pub de_indicator: Option<bool>,
    pub immersive_audio_indicator: Option<bool>,
    pub extended_presentation_id: Option<u16>,
}

#[derive(Debug, Clone, PartialEq, Eq)]
pub struct Ac4SubstreamGroup {
    pub b_substreams_present: bool,
    pub b_hsf_ext: bool,
    pub b_channel_coded: bool,
    pub substreams: Vec<Ac4PresentationSubstream>,
    pub content_classifier: Option<Ac4ContentClassifier>,
    pub language_tag: Option<String>,
}

#[derive(Debug, Clone, Copy, PartialEq, Eq, Structural)]
pub struct EmdfSubstream {
    pub emdf_version: u8,
    pub key_id: u16,
}

#[derive(Debug, Clone, Copy, PartialEq, Eq)]
pub struct Ac4PresentationSubstream {
    pub dsi_sf_multiplier: u8,
    pub bitrate_indicator: Option<u8>,
    pub channel_mask: Option<[u8; 3]>,
    pub n_dmx_objects_minus1: Option<u8>,
    pub n_umx_objects_minus1: Option<u8>,
    pub contains_bed_objects: Option<bool>,
    pub contains_dynamic_objects: Option<bool>,
    pub contains_isf_objects: Option<bool>,
}

/// Content classifiers, ETSI TS 103 190-1 Table 82, by their three-bit codes.
#[derive(Debug, Clone, Copy, PartialEq, Eq, Structural)]
pub enum Ac4ContentClassifier {
    CompleteMain,
    MusicAndEffects,
    VisuallyImpaired,
    HearingImpaired,
    Dialogue,
    Commentary,
    Emergency,
    VoiceOver,
}

pub open spec fn spec_content_classifier(v: u8) -> Ac4ContentClassifier {
    if v == 1 {
        Ac4ContentClassifier::MusicAndEffects
    } else if v == 2 {
        Ac4ContentClassifier::VisuallyImpaired
    } else if v == 3 {
        Ac4ContentClassifier::HearingImpaired
    } else if v == 4 {
        Ac4ContentClassifier::Dialogue
    } else if v == 5 {
        Ac4ContentClassifier::Commentary
    } else if v == 6 {
        Ac4ContentClassifier::Emergency
    } else if v == 7 {
        Ac4ContentClassifier::VoiceOver
    } else {
        Ac4ContentClassifier::CompleteMain
    }
}

impl From<u8> for Ac4ContentClassifier {
    fn from(value: u8) -> (r: Ac4ContentClassifier) {
        match value {
            0b001 => Ac4ContentClassifier::MusicAndEffects,
            0b010 => Ac4ContentClassifier::VisuallyImpaired,
            0b011 => Ac4ContentClassifier::HearingImpaired,
            0b100 => Ac4ContentClassifier::Dialogue,
            0b101 => Ac4ContentClassifier::Commentary,
            0b110 => Ac4ContentClassifier::Emergency,
            0b111 => Ac4ContentClassifier::VoiceOver,
            _ => Ac4ContentClassifier::CompleteMain,
        }
    }
}

impl vstd::std_specs::convert::FromSpecImpl<u8> for Ac4ContentClassifier {
    open spec fn obeys_from_spec() -> bool {
        true
    }

    open spec fn from_spec(v: u8) -> Ac4ContentClassifier {
        spec_content_classifier(v)
    }
}

#[derive(Debug, Clone, PartialEq, Eq)]
pub struct Ac4AlternativeInfo {
    pub presentation_name: String,
    pub targets: Vec<Ac4AlternativeInfoTarget>,
}

#[derive(Debug, Clone, Copy, PartialEq, Eq, Structural)]
pub struct Ac4AlternativeInfoTarget {
    pub md_compat: u8,
    pub device_category: u8,
}

/// The text that a lossy UTF-8 conversion gives for some bytes: their decoding where they
/// are valid UTF-8, with replacement characters where they are not.
pub uninterp spec fn spec_utf8_lossy(bytes: Seq<u8>) -> Seq<char>;

/// `String::from_utf8_lossy`, owned: claims that the result is the named text of the
/// bytes, and that this is their plain decoding when they are valid UTF-8.
#[verifier::external_body]
fn utf8_lossy(bytes: &[u8]) -> (r: String)
    ensures
        r@ == spec_utf8_lossy(bytes@),
        valid_utf8(bytes@) ==> r@ == decode_utf8(bytes@),
{
    String::from_utf8_lossy(bytes).to_string()
}

// Plain-value models of the decoded records, in which byte arrays, vectors and strings
// are sequences.

pub struct SubstreamModel {
    pub dsi_sf_multiplier: u8,
    pub bitrate_indicator: Option<u8>,
    pub channel_mask: Option<Seq<u8>>,
    pub n_dmx_objects_minus1: Option<u8>,
    pub n_umx_objects_minus1: Option<u8>,
    pub contains_bed_objects: Option<bool>,
    pub contains_dynamic_objects: Option<bool>,
    pub contains_isf_objects: Option<bool>,
}

pub struct GroupModel {
    pub b_substreams_present: bool,
    pub b_hsf_ext: bool,
    pub b_channel_coded: bool,
    pub substreams: Seq<SubstreamModel>,
    pub content_classifier: Option<Ac4ContentClassifier>,
    pub language_tag: Option<Seq<char>>,
}

pub struct V0Model {
    pub presentation_config: u8,
    pub md_compat: Option<u8>,
    pub presentation_id: Option<u8>,
    pub dsi_frame_rate_multiply_info: Option<u8>,
    pub presentation_emdf_version: Option<u8>,
    pub presentation_key_id: Option<u16>,
    pub presentation_channel_mask: Option<Seq<u8>>,
    pub b_hsf_ext: Option<bool>,
    pub substream_groups: Option<Seq<GroupModel>>,
    pub b_pre_virtualized: Option<bool>,
    pub emdf_substreams: Seq<EmdfSubstream>,
}

pub struct AlternativeModel {
    pub presentation_name: Seq<char>,
    pub targets: Seq<Ac4AlternativeInfoTarget>,
}

pub struct V1Model {
    pub presentation_config_v1: u8,
    pub md_compat: Option<u8>,
    pub presentation_id: Option<u8>,
    pub dsi_frame_rate_multiply_info: Option<u8>,
    pub dsi_frame_rate_fraction_info: Option<u8>,
    pub presentation_emdf_version: Option<u8>,
    pub presentation_key_id: Option<u16>,
    pub b_presentation_channel_coded: Option<bool>,
    pub dsi_presentation_ch_mode: Option<u8>,
    pub pres_b_4_back_channels_present: Option<bool>,
    pub pres_top_channel_pairs: Option<u8>,
    pub presentation_channel_mask_v1: Option<Seq<u8>>,
    pub b_presentation_core_differs: Option<bool>,
    pub b_presentation_core_channel_coded: Option<bool>,
    pub dsi_presentation_channel_mode_core: Option<u8>,
    pub b_presentation_filter: Option<bool>,
    pub b_enable_presentation: Option<bool>,
    pub filter_data: Option<Seq<u8>>,
    pub b_multi_pid: Option<bool>,
    pub substream_groups: Option<Seq<GroupModel>>,
    pub b_pre_virtualized: Option<bool>,
    pub emdf_substreams: Seq<EmdfSubstream>,
    pub bit_rate_mode: Option<Ac4BitrateMode>,
    pub bit_rate: Option<u32>,
    pub bit_rate_precision: Option<u32>,
    pub alternative_info: Option<AlternativeModel>,
    pub de_indicator: Option<bool>,
    pub immersive_audio_indicator: Option<bool>,
    pub extended_presentation_id: Option<u16>,
}

pub enum PresentationModel {
    V0(V0Model),
    V1(V1Model),
    V2(V1Model),
    UnknownVersion(u8),
}

pub struct Dac4Model {
    pub ac4_dsi_version: u8,
    pub bitstream_version: u8,
    pub fs_index: bool,
    pub frame_rate_index: u8,
    pub short_program_id: Option<u16>,
    pub program_uuid: Option<Seq<u8>>,
    pub bit_rate_mode: Ac4BitrateMode,
    pub bit_rate: u32,
    pub bit_rate_precision: u32,
    pub presentations: Seq<PresentationModel>,
}

pub open spec fn spec_mask_view(m: Option<[u8; 3]>) -> Option<Seq<u8>> {
    match m {
        Some(a) => Some(a@),
        None => None,
    }
}

pub open spec fn spec_substream_view(s: Ac4PresentationSubstream) -> SubstreamModel {
    SubstreamModel {
        dsi_sf_multiplier: s.dsi_sf_multiplier,
        bitrate_indicator: s.bitrate_indicator,
        channel_mask: spec_mask_view(s.channel_mask),
        n_dmx_objects_minus1: s.n_dmx_objects_minus1,
        n_umx_objects_minus1: s.n_umx_objects_minus1,
        contains_bed_objects: s.contains_bed_objects,
        contains_dynamic_objects: s.contains_dynamic_objects,
        contains_isf_objects: s.contains_isf_objects,
    }
}

pub open spec fn spec_substreams_view(s: Seq<Ac4PresentationSubstream>) -> Seq<SubstreamModel> {
    s.map_values(|x: Ac4PresentationSubstream| spec_substream_view(x))
}

pub open spec fn spec_text_view(t: Option<String>) -> Option<Seq<char>> {
    match t {
        Some(s) => Some(s@),
        None => None,
    }
}

pub open spec fn spec_group_view(g: Ac4SubstreamGroup) -> GroupModel {
    GroupModel {
        b_substreams_present: g.b_substreams_present,
        b_hsf_ext: g.b_hsf_ext,
        b_channel_coded: g.b_channel_coded,
        substreams: spec_substreams_view(g.substreams@),
        content_classifier: g.content_classifier,
        language_tag: spec_text_view(g.language_tag),
    }
}

pub open spec fn spec_groups_view(g: Seq<Ac4SubstreamGroup>) -> Seq<GroupModel> {
    g.map_values(|x: Ac4SubstreamGroup| spec_group_view(x))
}

pub open spec fn spec_opt_groups_view(g: Option<Vec<Ac4SubstreamGroup>>) -> Option<Seq<GroupModel>> {
    match g {
        Some(v) => Some(spec_groups_view(v@)),
        None => None,
    }
}

pub open spec fn spec_v0_view(p: Ac4PresentationV0) -> V0Model {
    V0Model {
        presentation_config: p.presentation_config,
        md_compat: p.md_compat,
        presentation_id: p.presentation_id,
        dsi_frame_rate_multiply_info: p.dsi_frame_rate_multiply_info,
        presentation_emdf_version: p.presentation_emdf_version,
        presentation_key_id: p.presentation_key_id,
        presentation_channel_mask: spec_mask_view(p.presentation_channel_mask),
        b_hsf_ext: p.b_hsf_ext,
        substream_groups: spec_opt_groups_view(p.substream_groups),
        b_pre_virtualized: p.b_pre_virtualized,
        emdf_substreams: p.emdf_substreams@,
    }
}

pub open spec fn spec_alternative_view(a: Option<Ac4AlternativeInfo>) -> Option<AlternativeModel> {
    match a {
        Some(x) => Some(AlternativeModel { presentation_name: x.presentation_name@, targets: x.targets@ }),
        None => None,
    }
}

pub open spec fn spec_bytes_view(v: Option<Vec<u8>>) -> Option<Seq<u8>> {
    match v {
        Some(x) => Some(x@),
        None => None,
    }
}

pub open spec fn spec_v1_view(p: Ac4PresentationV1) -> V1Model {
    V1Model {
        presentation_config_v1: p.presentation_config_v1,
        md_compat: p.md_compat,
        presentation_id: p.presentation_id,
        dsi_frame_rate_multiply_info: p.dsi_frame_rate_multiply_info,
        dsi_frame_rate_fraction_info: p.dsi_frame_rate_fraction_info,
        presentation_emdf_version: p.presentation_emdf_version,
        presentation_key_id: p.presentation_key_id,
        b_presentation_channel_coded: p.b_presentation_channel_coded,
        dsi_presentation_ch_mode: p.dsi_presentation_ch_mode,
        pres_b_4_back_channels_present: p.pres_b_4_back_channels_present,
        pres_top_channel_pairs: p.pres_top_channel_pairs,
        presentation_channel_mask_v1: spec_mask_view(p.presentation_channel_mask_v1),
        b_presentation_core_differs: p.b_presentation_core_differs,
        b_presentation_core_channel_coded: p.b_presentation_core_channel_coded,
        dsi_presentation_channel_mode_core: p.dsi_presentation_channel_mode_core,
        b_presentation_filter: p.b_presentation_filter,
        b_enable_presentation: p.b_enable_presentation,
        filter_data: spec_bytes_view(p.filter_data),
        b_multi_pid: p.b_multi_pid,
        substream_groups: spec_opt_groups_view(p.substream_groups),
        b_pre_virtualized: p.b_pre_virtualized,
        emdf_substreams: p.emdf_substreams@,
        bit_rate_mode: p.bit_rate_mode,
        bit_rate: p.bit_rate,
        bit_rate_precision: p.bit_rate_precision,
        alternative_info: spec_alternative_view(p.alternative_info),
        de_indicator: p.de_indicator,
        immersive_audio_indicator: p.immersive_audio_indicator,
        extended_presentation_id: p.extended_presentation_id,
    }
}

pub open spec fn spec_presentation_view(p: Ac4Presentation) -> PresentationModel {
    match p {
        Ac4Presentation::V0(x) => PresentationModel::V0(spec_v0_view(x)),
        Ac4Presentation::V1(x) => PresentationModel::V1(spec_v1_view(x)),
        Ac4Presentation::V2(x) => PresentationModel::V2(spec_v1_view(x)),
        Ac4Presentation::UnknownVersion(v) => PresentationModel::UnknownVersion(v),
    }
}

pub open spec fn spec_presentations_view(p: Seq<Ac4Presentation>) -> Seq<PresentationModel> {
    p.map_values(|x: Ac4Presentation| spec_presentation_view(x))
}

pub open spec fn spec_uuid_view(u: Option<[u8; 16]>) -> Option<Seq<u8>> {
    match u {
        Some(a) => Some(a@),
        None => None,
    }
}

pub open spec fn spec_dac4_view(d: Dac4) -> Dac4Model {
    Dac4Model {
        ac4_dsi_version: d.ac4_dsi_version,
        bitstream_version: d.bitstream_version,
        fs_index: d.fs_index,
        frame_rate_index: d.frame_rate_index,
        short_program_id: d.short_program_id,
        program_uuid: spec_uuid_view(d.program_uuid),
        bit_rate_mode: d.bit_rate_mode,
        bit_rate: d.bit_rate,
        bit_rate_precision: d.bit_rate_precision,
        presentations: spec_presentations_view(d.presentations@),
    }
}

/// One bit as a flag.
pub open spec fn spec_flag(b: Seq<u8>, p: int) -> bool {
    spec_bits(b, p, 1) == 1
}

#[verifier::opaque]
/// One substream description at bit `p` of a group whose substreams are channel coded
/// when `cc` holds (ETSI TS 103 190-2 Table E.11), and where it ends.
pub open spec fn spec_substream(b: Seq<u8>, p: int, cc: bool) -> Option<(SubstreamModel, int)> {
    if !spec_has_bits(b, p, 3) {
        None
    } else {
        let sf = spec_bits(b, p, 2) as u8;
        let bri = spec_flag(b, p + 2);
        let p1 = p + 3;
        if bri && !spec_has_bits(b, p1, 5) {
            None
        } else {
            let br: Option<u8> = if bri { Some(spec_bits(b, p1, 5) as u8) } else { None };
            let p2 = if bri { p1 + 5 } else { p1 };
            if cc {
                if !spec_has_bits(b, p2, 24) {
                    None
                } else {
                    Some((SubstreamModel {
                        dsi_sf_multiplier: sf,
                        bitrate_indicator: br,
                        channel_mask: Some(spec_bit_bytes(b, p2, 3)),
                        n_dmx_objects_minus1: None,
                        n_umx_objects_minus1: None,
                        contains_bed_objects: None,
                        contains_dynamic_objects: None,
                        contains_isf_objects: None,
                    }, p2 + 24))
                }
            } else if !spec_has_bits(b, p2, 1) {
                None
            } else {
                let ajoc = spec_flag(b, p2);
                let p3 = p2 + 1;
                if ajoc && !spec_has_bits(b, p3, 1) {
                    None
                } else {
                    let dyn_dmx = ajoc && !spec_flag(b, p3);
                    let p4 = if ajoc { p3 + 1 } else { p3 };
                    if dyn_dmx && !spec_has_bits(b, p4, 4) {
                        None
                    } else {
                        let dmx: Option<u8> = if dyn_dmx { Some(spec_bits(b, p4, 4) as u8) } else { None };
                        let p5 = if dyn_dmx { p4 + 4 } else { p4 };
                        if ajoc && !spec_has_bits(b, p5, 6) {
                            None
                        } else {
                            let umx: Option<u8> = if ajoc { Some(spec_bits(b, p5, 6) as u8) } else { None };
                            let p6 = if ajoc { p5 + 6 } else { p5 };
                            if !spec_has_bits(b, p6, 4) {
                                None
                            } else {
                                Some((SubstreamModel {
                                    dsi_sf_multiplier: sf,
                                    bitrate_indicator: br,
                                    channel_mask: None,
                                    n_dmx_objects_minus1: dmx,
                                    n_umx_objects_minus1: umx,
                                    contains_bed_objects: Some(spec_flag(b, p6)),
                                    contains_dynamic_objects: Some(spec_flag(b, p6 + 1)),
                                    contains_isf_objects: Some(spec_flag(b, p6 + 2)),
                                }, p6 + 4))
                            }
                        }
                    }
                }
            }
        }
    }
}

/// `n` substream descriptions from bit `p`.
pub open spec fn spec_substreams(b: Seq<u8>, p: int, n: nat, cc: bool) -> Option<(Seq<SubstreamModel>, int)>
    decreases n,
{
    if n == 0 {
        Some((Seq::empty(), p))
    } else {
        match spec_substream(b, p, cc) {
            None => None,
            Some((s, q)) => match spec_substreams(b, q, (n - 1) as nat, cc) {
                None => None,
                Some((rest, e)) => Some((seq![s] + rest, e)),
            },
        }
    }
}

/// The requirements shared by every reader of the body.
pub open spec fn spec_reader_ok(r: BitReader) -> bool {
    &&& r.pos <= 8 * r.data@.len()
    &&& 8 * r.data@.len() <= usize::MAX
}

/// Three bytes as an array.
fn read_mask(reader: &mut BitReader) -> (r: Option<[u8; 3]>)
    requires
        spec_reader_ok(*old(reader)),
    ensures
        spec_reader_ok(*final(reader)),
        final(reader).data@ == old(reader).data@,
        final(reader).pos >= old(reader).pos,
        match r {
            Some(m) => spec_has_bits(old(reader).data@, old(reader).pos as int, 24)
                && m@ == spec_bit_bytes(old(reader).data@, old(reader).pos as int, 3)
                && final(reader).pos == old(reader).pos + 24,
            None => !spec_has_bits(old(reader).data@, old(reader).pos as int, 24),
        },
{
    match reader.read_bytes(3) {
        Some(v) => {
            let m = [v[0], v[1], v[2]];
            assert(m@ =~= v@);
            Some(m)
        },
        None => None,
    }
}

#[verifier::rlimit(40)]
fn read_substream(reader: &mut BitReader, cc: bool) -> (r: Option<Ac4PresentationSubstream>)
    requires
        spec_reader_ok(*old(reader)),
    ensures
        spec_reader_ok(*final(reader)),
        final(reader).data@ == old(reader).data@,
        final(reader).pos >= old(reader).pos,
        match r {
            Some(s) => spec_substream(old(reader).data@, old(reader).pos as int, cc) == Some(
                (spec_substream_view(s), final(reader).pos as int),
            ),
            None => spec_substream(old(reader).data@, old(reader).pos as int, cc) is None,
        },
{
    proof {
        lemma2_to64();
        reveal(spec_substream);
    }
    if !reader.has_bits(3) {
        return None;
    }
    let sf = reader.read_bits(2).unwrap() as u8;
    let bri = reader.read_bits(1).unwrap() == 1;
    if bri && !reader.has_bits(5) {
        return None;
    }
    let br = if bri {
        Some(reader.read_bits(5).unwrap() as u8)
    } else {
        None
    };
    if cc {
        match read_mask(reader) {
            None => None,
            Some(m) => Some(Ac4PresentationSubstream {
                dsi_sf_multiplier: sf,
                bitrate_indicator: br,
                channel_mask: Some(m),
                n_dmx_objects_minus1: None,
                n_umx_objects_minus1: None,
                contains_bed_objects: None,
                contains_dynamic_objects: None,
                contains_isf_objects: None,
            }),
        }
    } else {
        if !reader.has_bits(1) {
            return None;
        }
        let ajoc = reader.read_bits(1).unwrap() == 1;
        if ajoc && !reader.has_bits(1) {
            return None;
        }
        let dyn_dmx = if ajoc {
            reader.read_bits(1).unwrap() == 0
        } else {
            false
        };
        if dyn_dmx && !reader.has_bits(4) {
            return None;
        }
        let dmx = if dyn_dmx {
            Some(reader.read_bits(4).unwrap() as u8)
        } else {
            None
        };
        if ajoc && !reader.has_bits(6) {
            return None;
        }
        let umx = if ajoc {
            Some(reader.read_bits(6).unwrap() as u8)
        } else {
            None
        };
        if !reader.has_bits(4) {
            return None;
        }
        let bed = reader.read_bits(1).unwrap() == 1;
        let dynamic = reader.read_bits(1).unwrap() == 1;
        let isf = reader.read_bits(1).unwrap() == 1;
        let _ = reader.read_bits(1).unwrap();
        Some(Ac4PresentationSubstream {
            dsi_sf_multiplier: sf,
            bitrate_indicator: br,
            channel_mask: None,
            n_dmx_objects_minus1: dmx,
            n_umx_objects_minus1: umx,
            contains_bed_objects: Some(bed),
            contains_dynamic_objects: Some(dynamic),
            contains_isf_objects: Some(isf),
        })
    }
}

#[verifier::opaque]
/// One substream group at bit `p` (ETSI TS 103 190-2 Table E.10), and where it ends.
pub open spec fn spec_group(b: Seq<u8>, p: int) -> Option<(GroupModel, int)> {
    if !spec_has_bits(b, p, 11) {
        None
    } else {
        let cc = spec_flag(b, p + 2);
        match spec_substreams(b, p + 11, spec_bits(b, p + 3, 8), cc) {
            None => None,
            Some((subs, p2)) => {
                let g = GroupModel {
                    b_substreams_present: spec_flag(b, p),
                    b_hsf_ext: spec_flag(b, p + 1),
                    b_channel_coded: cc,
                    substreams: subs,
                    content_classifier: None,
                    language_tag: None,
                };
                if !spec_has_bits(b, p2, 1) {
                    None
                } else if !spec_flag(b, p2) {
                    Some((g, p2 + 1))
                } else {
                    let p3 = p2 + 1;
                    if !spec_has_bits(b, p3, 4) {
                        None
                    } else {
                        let cls = spec_content_classifier(spec_bits(b, p3, 3) as u8);
                        let p4 = p3 + 4;
                        if !spec_flag(b, p3 + 3) {
                            Some((GroupModel { content_classifier: Some(cls), ..g }, p4))
                        } else if !spec_has_bits(b, p4, 6) {
                            None
                        } else {
                            let k = spec_bits(b, p4, 6);
                            let p5 = p4 + 6;
                            if !spec_has_bits(b, p5, (8 * k) as int) {
                                None
                            } else {
                                Some((GroupModel {
                                    content_classifier: Some(cls),
                                    language_tag: Some(spec_utf8_lossy(spec_bit_bytes(b, p5, k))),
                                    ..g
                                }, p5 + 8 * k))
                            }
                        }
                    }
                }
            },
        }
    }
}

/// `n` substream groups from bit `p`.
pub open spec fn spec_groups(b: Seq<u8>, p: int, n: nat) -> Option<(Seq<GroupModel>, int)>
    decreases n,
{
    if n == 0 {
        Some((Seq::empty(), p))
    } else {
        match spec_group(b, p) {
            None => None,
            Some((g, q)) => match spec_groups(b, q, (n - 1) as nat) {
                None => None,
                Some((rest, e)) => Some((seq![g] + rest, e)),
            },
        }
    }
}

/// The substream groups of a presentation whose configuration is `cfg`, read after the
/// flag that precedes them: two groups for configurations 0 to 2, three for 3 and 4, a
/// counted number for 5, and skipped bytes, with no groups, for the others.
pub open spec fn spec_group_block(b: Seq<u8>, p: int, cfg: u8) -> Option<(Option<Seq<GroupModel>>, int)> {
    if cfg <= 4 {
        match spec_groups(b, p, if cfg <= 2 { 2 } else { 3 }) {
            None => None,
            Some((g, q)) => Some((Some(g), q)),
        }
    } else if cfg == 5 {
        if !spec_has_bits(b, p, 3) {
            None
        } else {
            match spec_groups(b, p + 3, spec_bits(b, p, 3) + 2) {
                None => None,
                Some((g, q)) => Some((Some(g), q)),
            }
        }
    } else if !spec_has_bits(b, p, 7) {
        None
    } else {
        let k = spec_bits(b, p, 7);
        if !spec_has_bits(b, p + 7, (8 * k) as int) {
            None
        } else {
            Some((None, p + 7 + 8 * k))
        }
    }
}

/// The `i`-th of the EMDF substream entries that start at bit `p`.
pub open spec fn spec_emdf_at(b: Seq<u8>, p: int, i: int) -> EmdfSubstream {
    EmdfSubstream {
        emdf_version: spec_bits(b, p + 15 * i, 5) as u8,
        key_id: spec_bits(b, p + 15 * i + 5, 10) as u16,
    }
}

/// The additional EMDF substreams, when `add` announces them: a seven-bit count, then a
/// five-bit version and a ten-bit key id for each.
pub open spec fn spec_emdf_block(b: Seq<u8>, p: int, add: bool) -> Option<(Seq<EmdfSubstream>, int)> {
    if !add {
        Some((Seq::empty(), p))
    } else if !spec_has_bits(b, p, 7) {
        None
    } else {
        let n = spec_bits(b, p, 7);
        if !spec_has_bits(b, p + 7, (15 * n) as int) {
            None
        } else {
            Some((Seq::new(n, |i: int| spec_emdf_at(b, p + 7, i)), p + 7 + 15 * n))
        }
    }
}

pub open spec fn spec_then_seq<T>(done: Seq<T>, rest: Option<(Seq<T>, int)>) -> Option<(Seq<T>, int)> {
    match rest {
        Some((s, e)) => Some((done + s, e)),
        None => None,
    }
}

fn read_group(reader: &mut BitReader) -> (r: Option<Ac4SubstreamGroup>)
    requires
        spec_reader_ok(*old(reader)),
    ensures
        spec_reader_ok(*final(reader)),
        final(reader).data@ == old(reader).data@,
        final(reader).pos >= old(reader).pos,
        match r {
            Some(g) => spec_group(old(reader).data@, old(reader).pos as int) == Some(
                (spec_group_view(g), final(reader).pos as int),
            ),
            None => spec_group(old(reader).data@, old(reader).pos as int) is None,
        },
{
    proof {
        lemma2_to64();
        reveal(spec_group);
    }
    let ghost b = reader.data@;
    let ghost p = reader.pos as int;
    if !reader.has_bits(11) {
        return None;
    }
    let b_substreams_present = reader.read_bits(1).unwrap() == 1;
    let b_hsf_ext = reader.read_bits(1).unwrap() == 1;
    let b_channel_coded = reader.read_bits(1).unwrap() == 1;
    let n = reader.read_bits(8).unwrap();
    let mut substreams: Vec<Ac4PresentationSubstream> = Vec::new();
    let mut i: u32 = 0;
    assert(spec_substreams_view(substreams@) =~= Seq::<SubstreamModel>::empty());
    while i < n
        invariant
            i <= n,
            spec_reader_ok(*reader),
            reader.data@ == b,
            b == old(reader).data@,
            p == old(reader).pos as int,
            reader.pos >= p,
            spec_has_bits(b, p, 11),
            b_channel_coded == spec_flag(b, p + 2),
            n == spec_bits(b, p + 3, 8),
            spec_substreams(b, p + 11, n as nat, b_channel_coded) == spec_then_seq(
                spec_substreams_view(substreams@),
                spec_substreams(b, reader.pos as int, (n - i) as nat, b_channel_coded),
            ),
        decreases n - i,
    {
        let ghost before = spec_substreams_view(substreams@);
        match read_substream(reader, b_channel_coded) {
            None => {
                proof {
                    reveal(spec_group);
                }
                return None;
            },
            Some(s) => {
                substreams.push(s);
                proof {
                    assert(spec_substreams_view(substreams@) =~= before.push(spec_substream_view(s)));
                    match spec_substreams(b, reader.pos as int, (n - i - 1) as nat, b_channel_coded) {
                        Some((rest, e)) => {
                            assert(before + (seq![spec_substream_view(s)] + rest) =~= before.push(
                                spec_substream_view(s),
                            ) + rest);
                        },
                        None => {},
                    }
                }
            },
        }
        i = i + 1;
    }
    assert(spec_substreams_view(substreams@) + Seq::<SubstreamModel>::empty() =~= spec_substreams_view(substreams@));
    if !reader.has_bits(1) {
        return None;
    }
    let b_content_type = reader.read_bits(1).unwrap() == 1;
    if !b_content_type {
        return Some(Ac4SubstreamGroup {
            b_substreams_present,
            b_hsf_ext,
            b_channel_coded,
            substreams,
            content_classifier: None,
            language_tag: None,
        });
    }
    if !reader.has_bits(4) {
        return None;
    }
    let content_classifier = Ac4ContentClassifier::from(reader.read_bits(3).unwrap() as u8);
    let b_language_indicator = reader.read_bits(1).unwrap() == 1;
    if !b_language_indicator {
        return Some(Ac4SubstreamGroup {
            b_substreams_present,
            b_hsf_ext,
            b_channel_coded,
            substreams,
            content_classifier: Some(content_classifier),
            language_tag: None,
        });
    }
    if !reader.has_bits(6) {
        return None;
    }
    let k = reader.read_bits(6).unwrap();
    match reader.read_bytes(k as usize) {
        None => None,
        Some(tag) => {
            let language_tag = utf8_lossy(tag.as_slice());
            Some(Ac4SubstreamGroup {
                b_substreams_present,
                b_hsf_ext,
                b_channel_coded,
                substreams,
                content_classifier: Some(content_classifier),
                language_tag: Some(language_tag),
            })
        },
    }
}

fn read_groups(reader: &mut BitReader, n: u32) -> (r: Option<Vec<Ac4SubstreamGroup>>)
    requires
        spec_reader_ok(*old(reader)),
    ensures
        spec_reader_ok(*final(reader)),
        final(reader).data@ == old(reader).data@,
        final(reader).pos >= old(reader).pos,
        match r {
            Some(g) => spec_groups(old(reader).data@, old(reader).pos as int, n as nat) == Some(
                (spec_groups_view(g@), final(reader).pos as int),
            ),
            None => spec_groups(old(reader).data@, old(reader).pos as int, n as nat) is None,
        },
{
    let ghost b = reader.data@;
    let ghost p = reader.pos as int;
    let mut groups: Vec<Ac4SubstreamGroup> = Vec::new();
    let mut i: u32 = 0;
    assert(spec_groups_view(groups@) =~= Seq::<GroupModel>::empty());
    while i < n
        invariant
            i <= n,
            spec_reader_ok(*reader),
            reader.data@ == b,
            b == old(reader).data@,
            p == old(reader).pos as int,
            reader.pos >= p,
            spec_groups(b, p, n as nat) == spec_then_seq(
                spec_groups_view(groups@),
                spec_groups(b, reader.pos as int, (n - i) as nat),
            ),
        decreases n - i,
    {
        let ghost before = spec_groups_view(groups@);
        match read_group(reader) {
            None => {
                return None;
            },
            Some(g) => {
                groups.push(g);
                proof {
                    assert(spec_groups_view(groups@) =~= before.push(spec_group_view(g)));
                    match spec_groups(b, reader.pos as int, (n - i - 1) as nat) {
                        Some((rest, e)) => {
                            assert(before + (seq![spec_group_view(g)] + rest) =~= before.push(
                                spec_group_view(g),
                            ) + rest);
                        },
                        None => {},
                    }
                }
            },
        }
        i = i + 1;
    }
    assert(spec_groups_view(groups@) + Seq::<GroupModel>::empty() =~= spec_groups_view(groups@));
    Some(groups)
}

/// Skips `k` bytes.
fn skip_bytes(reader: &mut BitReader, k: usize) -> (r: bool)
    requires
        spec_reader_ok(*old(reader)),
    ensures
        spec_reader_ok(*final(reader)),
        final(reader).data@ == old(reader).data@,
        final(reader).pos >= old(reader).pos,
        r == spec_has_bits(old(reader).data@, old(reader).pos as int, 8 * k),
        r ==> final(reader).pos == old(reader).pos + 8 * k,
{
    reader.read_bytes(k).is_some()
}

fn read_group_block(reader: &mut BitReader, cfg: u8) -> (r: Option<Option<Vec<Ac4SubstreamGroup>>>)
    requires
        spec_reader_ok(*old(reader)),
    ensures
        spec_reader_ok(*final(reader)),
        final(reader).data@ == old(reader).data@,
        final(reader).pos >= old(reader).pos,
        match r {
            Some(g) => spec_group_block(old(reader).data@, old(reader).pos as int, cfg) == Some(
                (spec_opt_groups_view(g), final(reader).pos as int),
            ),
            None => spec_group_block(old(reader).data@, old(reader).pos as int, cfg) is None,
        },
{
    proof {
        lemma2_to64();
    }
    if cfg <= 4 {
        let n: u32 = if cfg <= 2 { 2 } else { 3 };
        match read_groups(reader, n) {
            None => None,
            Some(g) => Some(Some(g)),
        }
    } else if cfg == 5 {
        if !reader.has_bits(3) {
            return None;
        }
        let n = reader.read_bits(3).unwrap() + 2;
        match read_groups(reader, n) {
            None => None,
            Some(g) => Some(Some(g)),
        }
    } else {
        if !reader.has_bits(7) {
            return None;
        }
        let k = reader.read_bits(7).unwrap();
        if skip_bytes(reader, k as usize) {
            Some(None)
        } else {
            None
        }
    }
}

fn read_emdf_block(reader: &mut BitReader, add: bool) -> (r: Option<Vec<EmdfSubstream>>)
    requires
        spec_reader_ok(*old(reader)),
    ensures
        spec_reader_ok(*final(reader)),
        final(reader).data@ == old(reader).data@,
        final(reader).pos >= old(reader).pos,
        match r {
            Some(e) => spec_emdf_block(old(reader).data@, old(reader).pos as int, add) == Some(
                (e@, final(reader).pos as int),
            ),
            None => spec_emdf_block(old(reader).data@, old(reader).pos as int, add) is None,
        },
{
    proof {
        lemma2_to64();
    }
    let ghost b = reader.data@;
    let mut out: Vec<EmdfSubstream> = Vec::new();
    if !add {
        assert(out@ =~= Seq::<EmdfSubstream>::empty());
        return Some(out);
    }
    if !reader.has_bits(7) {
        return None;
    }
    let n = reader.read_bits(7).unwrap();
    if !reader.has_bits(15 * n as usize) {
        return None;
    }
    let ghost start = reader.pos as int;
    let mut i: u32 = 0;
    assert(out@ =~= Seq::new(0, |j: int| spec_emdf_at(b, start, j)));
    while i < n
        invariant
            i <= n < 128,
            spec_reader_ok(*reader),
            reader.data@ == b,
            b == old(reader).data@,
            start >= old(reader).pos,
            spec_has_bits(b, start, (15 * n) as int),
            reader.pos == start + 15 * i,
            out@ == Seq::new(i as nat, |j: int| spec_emdf_at(b, start, j)),
        decreases n - i,
    {
        let emdf_version = reader.read_bits(5).unwrap() as u8;
        let key_id = reader.read_bits(10).unwrap() as u16;
        let ghost before = out@;
        out.push(EmdfSubstream { emdf_version, key_id });
        assert(out@ =~= Seq::new((i + 1) as nat, |j: int| spec_emdf_at(b, start, j)));
        i = i + 1;
    }
    Some(out)
}

/// The groups that follow the fixed fields of a presentation: a single group for
/// configuration 0x1F, else a flag (`b_hsf_ext` in version 0, `b_multi_pid` in version 1)
/// and the groups that the configuration calls for.
pub open spec fn spec_groups_part(b: Seq<u8>, p: int, cfg: u8) -> Option<
    (Option<bool>, Option<Seq<GroupModel>>, int),
> {
    if cfg == 31 {
        match spec_group(b, p) {
            None => None,
            Some((g, q)) => Some((None, Some(seq![g]), q)),
        }
    } else if !spec_has_bits(b, p, 1) {
        None
    } else {
        match spec_group_block(b, p + 1, cfg) {
            None => None,
            Some((gs, q)) => Some((Some(spec_flag(b, p)), gs, q)),
        }
    }
}

fn read_groups_part(reader: &mut BitReader, cfg: u8) -> (r: Option<(Option<bool>, Option<Vec<Ac4SubstreamGroup>>)>)
    requires
        spec_reader_ok(*old(reader)),
    ensures
        spec_reader_ok(*final(reader)),
        final(reader).data@ == old(reader).data@,
        final(reader).pos >= old(reader).pos,
        match r {
            Some((f, g)) => spec_groups_part(old(reader).data@, old(reader).pos as int, cfg) == Some(
                (f, spec_opt_groups_view(g), final(reader).pos as int),
            ),
            None => spec_groups_part(old(reader).data@, old(reader).pos as int, cfg) is None,
        },
{
    if cfg == 31 {
        match read_group(reader) {
            None => None,
            Some(g) => {
                let mut v: Vec<Ac4SubstreamGroup> = Vec::new();
                v.push(g);
                assert(spec_groups_view(v@) =~= seq![spec_group_view(g)]);
                Some((None, Some(v)))
            },
        }
    } else {
        if !reader.has_bits(1) {
            return None;
        }
        let flag = reader.read_bits(1).unwrap() == 1;
        match read_group_block(reader, cfg) {
            None => None,
            Some(g) => Some((Some(flag), g)),
        }
    }
}

/// The end of a version 0 presentation: its EMDF substreams, then a skip to the next byte.
pub open spec fn spec_v0_tail(b: Seq<u8>, q: int, m: V0Model, add: bool) -> Option<(V0Model, int)> {
    match spec_emdf_block(b, q, add) {
        None => None,
        Some((e, r)) => Some((V0Model { emdf_substreams: e, ..m }, spec_aligned(r))),
    }
}

/// A version 0 presentation at bit `p` (ETSI TS 103 190-2 Table E.3), and where it ends.
#[verifier::opaque]
pub open spec fn spec_v0(b: Seq<u8>, p: int) -> Option<(V0Model, int)> {
    if !spec_has_bits(b, p, 5) {
        None
    } else {
        let cfg = spec_bits(b, p, 5) as u8;
        let p1 = p + 5;
        let empty = V0Model {
            presentation_config: cfg,
            md_compat: None,
            presentation_id: None,
            dsi_frame_rate_multiply_info: None,
            presentation_emdf_version: None,
            presentation_key_id: None,
            presentation_channel_mask: None,
            b_hsf_ext: None,
            substream_groups: None,
            b_pre_virtualized: None,
            emdf_substreams: Seq::empty(),
        };
        if cfg == 6 {
            spec_v0_tail(b, p1, empty, true)
        } else if !spec_has_bits(b, p1, 4) {
            None
        } else {
            let bpid = spec_flag(b, p1 + 3);
            let p2 = p1 + 4;
            if bpid && !spec_has_bits(b, p2, 5) {
                None
            } else {
                let pid: Option<u8> = if bpid { Some(spec_bits(b, p2, 5) as u8) } else { None };
                let p3 = if bpid { p2 + 5 } else { p2 };
                if !spec_has_bits(b, p3, 41) {
                    None
                } else {
                    match spec_groups_part(b, p3 + 41, cfg) {
                        None => None,
                        Some((hsf, gs, q)) => if !spec_has_bits(b, q, 2) {
                            None
                        } else {
                            spec_v0_tail(b, q + 2, V0Model {
                                md_compat: Some(spec_bits(b, p1, 3) as u8),
                                presentation_id: pid,
                                dsi_frame_rate_multiply_info: Some(spec_bits(b, p3, 2) as u8),
                                presentation_emdf_version: Some(spec_bits(b, p3 + 2, 5) as u8),
                                presentation_key_id: Some(spec_bits(b, p3 + 7, 10) as u16),
                                presentation_channel_mask: Some(spec_bit_bytes(b, p3 + 17, 3)),
                                b_hsf_ext: hsf,
                                substream_groups: gs,
                                b_pre_virtualized: Some(spec_flag(b, q)),
                                ..empty
                            }, spec_flag(b, q + 1))
                        },
                    }
                }
            }
        }
    }
}

fn read_v0(reader: &mut BitReader) -> (r: Option<Ac4PresentationV0>)
    requires
        spec_reader_ok(*old(reader)),
    ensures
        spec_reader_ok(*final(reader)),
        final(reader).data@ == old(reader).data@,
        final(reader).pos >= old(reader).pos,
        match r {
            Some(v) => spec_v0(old(reader).data@, old(reader).pos as int) == Some(
                (spec_v0_view(v), final(reader).pos as int),
            ),
            None => spec_v0(old(reader).data@, old(reader).pos as int) is None,
        },
{
    proof {
        lemma2_to64();
        reveal(spec_v0);
    }
    if !reader.has_bits(5) {
        return None;
    }
    let presentation_config = reader.read_bits(5).unwrap() as u8;
    if presentation_config == 6 {
        return match read_emdf_block(reader, true) {
            None => None,
            Some(emdf_substreams) => {
                reader.align();
                Some(Ac4PresentationV0 {
                    presentation_config,
                    md_compat: None,
                    presentation_id: None,
                    dsi_frame_rate_multiply_info: None,
                    presentation_emdf_version: None,
                    presentation_key_id: None,
                    presentation_channel_mask: None,
                    b_hsf_ext: None,
                    substream_groups: None,
                    b_pre_virtualized: None,
                    emdf_substreams,
                })
            },
        };
    }
    if !reader.has_bits(4) {
        return None;
    }
    let md_compat = reader.read_bits(3).unwrap() as u8;
    let b_presentation_id = reader.read_bits(1).unwrap() == 1;
    if b_presentation_id && !reader.has_bits(5) {
        return None;
    }
    let presentation_id = if b_presentation_id {
        Some(reader.read_bits(5).unwrap() as u8)
    } else {
        None
    };
    if !reader.has_bits(41) {
        return None;
    }
    let dsi_frame_rate_multiply_info = reader.read_bits(2).unwrap() as u8;
    let presentation_emdf_version = reader.read_bits(5).unwrap() as u8;
    let presentation_key_id = reader.read_bits(10).unwrap() as u16;
    let presentation_channel_mask = read_mask(reader).unwrap();
    let (b_hsf_ext, substream_groups) = match read_groups_part(reader, presentation_config) {
        None => {
            return None;
        },
        Some(x) => x,
    };
    if !reader.has_bits(2) {
        return None;
    }
    let b_pre_virtualized = reader.read_bits(1).unwrap() == 1;
    let b_add_emdf_substreams = reader.read_bits(1).unwrap() == 1;
    match read_emdf_block(reader, b_add_emdf_substreams) {
        None => None,
        Some(emdf_substreams) => {
            reader.align();
            Some(Ac4PresentationV0 {
                presentation_config,
                md_compat: Some(md_compat),
                presentation_id,
                dsi_frame_rate_multiply_info: Some(dsi_frame_rate_multiply_info),
                presentation_emdf_version: Some(presentation_emdf_version),
                presentation_key_id: Some(presentation_key_id),
                presentation_channel_mask: Some(presentation_channel_mask),
                b_hsf_ext,
                substream_groups,
                b_pre_virtualized: Some(b_pre_virtualized),
                emdf_substreams,
            })
        },
    }
}

/// A version 1 presentation with nothing read but its configuration.
pub open spec fn spec_v1_empty(cfg: u8) -> V1Model {
    V1Model {
        presentation_config_v1: cfg,
        md_compat: None,
        presentation_id: None,
        dsi_frame_rate_multiply_info: None,
        dsi_frame_rate_fraction_info: None,
        presentation_emdf_version: None,
        presentation_key_id: None,
        b_presentation_channel_coded: None,
        dsi_presentation_ch_mode: None,
        pres_b_4_back_channels_present: None,
        pres_top_channel_pairs: None,
        presentation_channel_mask_v1: None,
        b_presentation_core_differs: None,
        b_presentation_core_channel_coded: None,
        dsi_presentation_channel_mode_core: None,
        b_presentation_filter: None,
        b_enable_presentation: None,
        filter_data: None,
        b_multi_pid: None,
        substream_groups: None,
        b_pre_virtualized: None,
        emdf_substreams: Seq::empty(),
        bit_rate_mode: None,
        bit_rate: None,
        bit_rate_precision: None,
        alternative_info: None,
        de_indicator: None,
        immersive_audio_indicator: None,
        extended_presentation_id: None,
    }
}

/// Compatibility, presentation id, frame rate, EMDF version, key id and the channel-coded
/// flag (ETSI TS 103 190-2 Table E.4).
pub open spec fn spec_v1_ids(b: Seq<u8>, p: int, m: V1Model) -> Option<(V1Model, int)> {
    if !spec_has_bits(b, p, 4) {
        None
    } else {
        let bpid = spec_flag(b, p + 3);
        let p2 = p + 4;
        if bpid && !spec_has_bits(b, p2, 5) {
            None
        } else {
            let p3 = if bpid { p2 + 5 } else { p2 };
            if !spec_has_bits(b, p3, 20) {
                None
            } else {
                Some((V1Model {
                    md_compat: Some(spec_bits(b, p, 3) as u8),
                    presentation_id: if bpid { Some(spec_bits(b, p2, 5) as u8) } else { None },
                    dsi_frame_rate_multiply_info: Some(spec_bits(b, p3, 2) as u8),
                    dsi_frame_rate_fraction_info: Some(spec_bits(b, p3 + 2, 2) as u8),
                    presentation_emdf_version: Some(spec_bits(b, p3 + 4, 5) as u8),
                    presentation_key_id: Some(spec_bits(b, p3 + 9, 10) as u16),
                    b_presentation_channel_coded: Some(spec_flag(b, p3 + 19)),
                    ..m
                }, p3 + 20))
            }
        }
    }
}

/// For a channel-coded presentation: its channel mode, the back-channel and top-pair
/// fields for modes 11 to 14, and its channel mask.
pub open spec fn spec_v1_channels(b: Seq<u8>, p: int, m: V1Model) -> Option<(V1Model, int)> {
    if m.b_presentation_channel_coded != Some(true) {
        Some((m, p))
    } else if !spec_has_bits(b, p, 5) {
        None
    } else {
        let mode = spec_bits(b, p, 5) as u8;
        let p5 = p + 5;
        let back = 11 <= mode <= 14;
        if back && !spec_has_bits(b, p5, 3) {
            None
        } else {
            let p6 = if back { p5 + 3 } else { p5 };
            if !spec_has_bits(b, p6, 24) {
                None
            } else {
                Some((V1Model {
                    dsi_presentation_ch_mode: Some(mode),
                    pres_b_4_back_channels_present: if back { Some(spec_flag(b, p5)) } else { None },
                    pres_top_channel_pairs: if back { Some(spec_bits(b, p5 + 1, 2) as u8) } else { None },
                    presentation_channel_mask_v1: Some(spec_bit_bytes(b, p6, 3)),
                    ..m
                }, p6 + 24))
            }
        }
    }
}

/// Whether the core differs, and if so whether it is channel coded and its channel mode.
pub open spec fn spec_v1_core(b: Seq<u8>, p: int, m: V1Model) -> Option<(V1Model, int)> {
    if !spec_has_bits(b, p, 1) {
        None
    } else if !spec_flag(b, p) {
        Some((V1Model { b_presentation_core_differs: Some(false), ..m }, p + 1))
    } else if !spec_has_bits(b, p + 1, 1) {
        None
    } else {
        let ccc = spec_flag(b, p + 1);
        let m1 = V1Model {
            b_presentation_core_differs: Some(true),
            b_presentation_core_channel_coded: Some(ccc),
            ..m
        };
        if !ccc {
            Some((m1, p + 2))
        } else if !spec_has_bits(b, p + 2, 2) {
            None
        } else {
            Some((V1Model { dsi_presentation_channel_mode_core: Some(spec_bits(b, p + 2, 2) as u8), ..m1 }, p + 4))
        }
    }
}

/// The presentation filter: a flag, and when set an enable flag and counted filter bytes.
pub open spec fn spec_v1_filter(b: Seq<u8>, p: int, m: V1Model) -> Option<(V1Model, int)> {
    if !spec_has_bits(b, p, 1) {
        None
    } else if !spec_flag(b, p) {
        Some((V1Model { b_presentation_filter: Some(false), ..m }, p + 1))
    } else if !spec_has_bits(b, p + 1, 9) {
        None
    } else {
        let nf = spec_bits(b, p + 2, 8);
        if !spec_has_bits(b, p + 10, (8 * nf) as int) {
            None
        } else {
            Some((V1Model {
                b_presentation_filter: Some(true),
                b_enable_presentation: Some(spec_flag(b, p + 1)),
                filter_data: Some(spec_bit_bytes(b, p + 10, nf)),
                ..m
            }, p + 10 + 8 * nf))
        }
    }
}

/// The substream groups, then `b_pre_virtualized` and the `b_add_emdf_substreams` flag,
/// which is given apart.
pub open spec fn spec_v1_groups(b: Seq<u8>, p: int, m: V1Model) -> Option<(V1Model, bool, int)> {
    match spec_groups_part(b, p, m.presentation_config_v1) {
        None => None,
        Some((mp, gs, q)) => if !spec_has_bits(b, q, 2) {
            None
        } else {
            Some((V1Model {
                b_multi_pid: mp,
                substream_groups: gs,
                b_pre_virtualized: Some(spec_flag(b, q)),
                ..m
            }, spec_flag(b, q + 1), q + 2))
        },
    }
}

/// The version 1 fields before the EMDF substreams (ETSI TS 103 190-2 Table E.4), read
/// after the five-bit configuration. Configuration 6 has none and always adds EMDF
/// substreams.
#[verifier::opaque]
pub open spec fn spec_v1_head(b: Seq<u8>, p1: int, cfg: u8) -> Option<(V1Model, bool, int)> {
    if cfg == 6 {
        Some((spec_v1_empty(cfg), true, p1))
    } else {
        match spec_v1_ids(b, p1, spec_v1_empty(cfg)) {
            None => None,
            Some((m1, q1)) => match spec_v1_channels(b, q1, m1) {
                None => None,
                Some((m2, q2)) => match spec_v1_core(b, q2, m2) {
                    None => None,
                    Some((m3, q3)) => match spec_v1_filter(b, q3, m3) {
                        None => None,
                        Some((m4, q4)) => spec_v1_groups(b, q4, m4),
                    },
                },
            },
        }
    }
}

/// The alternative presentation info at bit `a` (ETSI TS 103 190-2 Table E.9), read from
/// a byte boundary: a 16-bit name length, the name's bytes, a five-bit target count and
/// eleven bits per target.
pub open spec fn spec_alternative(b: Seq<u8>, a: int) -> Option<(AlternativeModel, int)> {
    if !spec_has_bits(b, a, 16) {
        None
    } else {
        let nl = spec_bits(b, a, 16);
        let a1 = a + 16;
        if !spec_has_bits(b, a1, (8 * nl) as int) {
            None
        } else {
            let a2 = a1 + 8 * nl;
            if !spec_has_bits(b, a2, 5) {
                None
            } else {
                let nt = spec_bits(b, a2, 5);
                let a3 = a2 + 5;
                if !spec_has_bits(b, a3, (11 * nt) as int) {
                    None
                } else {
                    Some((AlternativeModel {
                        presentation_name: spec_utf8_lossy(spec_bit_bytes(b, a1, nl)),
                        targets: Seq::new(nt, |i: int| spec_target_at(b, a3, i)),
                    }, a3 + 11 * nt))
                }
            }
        }
    }
}

/// The `j`-th alternative target of those that start at bit `p`.
pub open spec fn spec_target_at(b: Seq<u8>, p: int, j: int) -> Ac4AlternativeInfoTarget {
    Ac4AlternativeInfoTarget {
        md_compat: spec_bits(b, p + 11 * j, 3) as u8,
        device_category: spec_bits(b, p + 11 * j + 3, 8) as u8,
    }
}

/// After the head: the EMDF substreams, the optional bit rate, the optional alternative
/// info, and a skip to the next byte boundary.
pub open spec fn spec_v1_tail(b: Seq<u8>, q: int, m: V1Model, add: bool) -> Option<(V1Model, int)> {
    match spec_emdf_block(b, q, add) {
        None => None,
        Some((e, r)) => if !spec_has_bits(b, r, 1) {
            None
        } else {
            let bri = spec_flag(b, r);
            let r1 = r + 1;
            if bri && !spec_has_bits(b, r1, 66) {
                None
            } else {
                let r2 = if bri { r1 + 66 } else { r1 };
                if !spec_has_bits(b, r2, 1) {
                    None
                } else {
                    let m1 = V1Model {
                        emdf_substreams: e,
                        bit_rate_mode: if bri { Some(spec_bitrate_mode(spec_bits(b, r1, 2) as u8)) } else { None },
                        bit_rate: if bri { Some(spec_bits(b, r1 + 2, 32) as u32) } else { None },
                        bit_rate_precision: if bri { Some(spec_bits(b, r1 + 34, 32) as u32) } else { None },
                        ..m
                    };
                    if !spec_flag(b, r2) {
                        Some((m1, spec_aligned(r2 + 1)))
                    } else {
                        match spec_alternative(b, spec_aligned(r2 + 1)) {
                            None => None,
                            Some((alt, r4)) => Some((V1Model { alternative_info: Some(alt), ..m1 }, spec_aligned(r4))),
                        }
                    }
                }
            }
        },
    }
}

/// A version 1 presentation at bit `p` up to the byte boundary after its alternative info.
#[verifier::opaque]
pub open spec fn spec_v1_body(b: Seq<u8>, p: int) -> Option<(V1Model, int)> {
    if !spec_has_bits(b, p, 5) {
        None
    } else {
        match spec_v1_head(b, p + 5, spec_bits(b, p, 5) as u8) {
            None => None,
            Some((m, add, q)) => spec_v1_tail(b, q, m, add),
        }
    }
}

/// Whether the bytes read so far leave room, within `pres_bytes`, for the trailing
/// indicator fields.
pub open spec fn spec_v1_has_trailer(b: Seq<u8>, p: int, r: int, pres_bytes: int) -> bool {
    (spec_bytes_remaining(b, p) - spec_bytes_remaining(b, r)) * 8 <= (pres_bytes - 1) * 8
}

/// A whole version 1 presentation of `pres_bytes` bytes at bit `p`: the body, then the
/// dialogue-enhancement and immersive indicators and the optional extended presentation
/// id when the bytes read so far leave room for them. Not defined for `pres_bytes` of zero.
#[verifier::opaque]
pub open spec fn spec_v1(b: Seq<u8>, p: int, pres_bytes: int) -> Option<(V1Model, int)> {
    match spec_v1_body(b, p) {
        None => None,
        Some((m, r)) => if !spec_v1_has_trailer(b, p, r, pres_bytes) {
            Some((m, r))
        } else if !spec_has_bits(b, r, 7) {
            None
        } else {
            let m1 = V1Model {
                de_indicator: Some(spec_flag(b, r)),
                immersive_audio_indicator: Some(spec_flag(b, r + 1)),
                ..m
            };
            let r1 = r + 7;
            if spec_flag(b, r + 6) {
                if !spec_has_bits(b, r1, 9) {
                    None
                } else {
                    Some((V1Model { extended_presentation_id: Some(spec_bits(b, r1, 9) as u16), ..m1 }, r1 + 9))
                }
            } else if !spec_has_bits(b, r1, 1) {
                None
            } else {
                Some((m1, r1 + 1))
            }
        },
    }
}

/// What every stage of the version 1 reader keeps and promises.
pub open spec fn spec_stage(
    old_reader: BitReader,
    new_reader: BitReader,
    old_v: Ac4PresentationV1,
    new_v: Ac4PresentationV1,
    ok: bool,
    step: Option<(V1Model, int)>,
) -> bool {
    &&& spec_reader_ok(new_reader)
    &&& new_reader.data@ == old_reader.data@
    &&& new_v.emdf_substreams@ == old_v.emdf_substreams@
    &&& new_reader.pos >= old_reader.pos
    &&& if ok {
        step == Some((spec_v1_view(new_v), new_reader.pos as int))
    } else {
        step is None
    }
}

fn read_v1_ids(reader: &mut BitReader, v: &mut Ac4PresentationV1) -> (ok: bool)
    requires
        spec_reader_ok(*old(reader)),
    ensures
        spec_stage(*old(reader), *final(reader), *old(v), *final(v), ok, spec_v1_ids(
            old(reader).data@,
            old(reader).pos as int,
            spec_v1_view(*old(v)),
        )),
{
    proof {
        lemma2_to64();
    }
    if !reader.has_bits(4) {
        return false;
    }
    let md_compat = reader.read_bits(3).unwrap() as u8;
    let b_presentation_id = reader.read_bits(1).unwrap() == 1;
    if b_presentation_id && !reader.has_bits(5) {
        return false;
    }
    let presentation_id = if b_presentation_id {
        Some(reader.read_bits(5).unwrap() as u8)
    } else {
        None
    };
    if !reader.has_bits(20) {
        return false;
    }
    v.md_compat = Some(md_compat);
    v.presentation_id = presentation_id;
    v.dsi_frame_rate_multiply_info = Some(reader.read_bits(2).unwrap() as u8);
    v.dsi_frame_rate_fraction_info = Some(reader.read_bits(2).unwrap() as u8);
    v.presentation_emdf_version = Some(reader.read_bits(5).unwrap() as u8);
    v.presentation_key_id = Some(reader.read_bits(10).unwrap() as u16);
    v.b_presentation_channel_coded = Some(reader.read_bits(1).unwrap() == 1);
    true
}

fn read_v1_channels(reader: &mut BitReader, v: &mut Ac4PresentationV1) -> (ok: bool)
    requires
        spec_reader_ok(*old(reader)),
    ensures
        spec_stage(*old(reader), *final(reader), *old(v), *final(v), ok, spec_v1_channels(
            old(reader).data@,
            old(reader).pos as int,
            spec_v1_view(*old(v)),
        )),
{
    proof {
        lemma2_to64();
    }
    if v.b_presentation_channel_coded != Some(true) {
        return true;
    }
    if !reader.has_bits(5) {
        return false;
    }
    let mode = reader.read_bits(5).unwrap() as u8;
    let back = 11 <= mode && mode <= 14;
    if back && !reader.has_bits(3) {
        return false;
    }
    let (b4, tcp) = if back {
        let b4 = reader.read_bits(1).unwrap() == 1;
        let tcp = reader.read_bits(2).unwrap() as u8;
        (Some(b4), Some(tcp))
    } else {
        (None, None)
    };
    match read_mask(reader) {
        None => false,
        Some(m) => {
            v.dsi_presentation_ch_mode = Some(mode);
            v.pres_b_4_back_channels_present = b4;
            v.pres_top_channel_pairs = tcp;
            v.presentation_channel_mask_v1 = Some(m);
            true
        },
    }
}

fn read_v1_core(reader: &mut BitReader, v: &mut Ac4PresentationV1) -> (ok: bool)
    requires
        spec_reader_ok(*old(reader)),
    ensures
        spec_stage(*old(reader), *final(reader), *old(v), *final(v), ok, spec_v1_core(
            old(reader).data@,
            old(reader).pos as int,
            spec_v1_view(*old(v)),
        )),
{
    proof {
        lemma2_to64();
    }
    if !reader.has_bits(1) {
        return false;
    }
    let cd = reader.read_bits(1).unwrap() == 1;
    if !cd {
        v.b_presentation_core_differs = Some(false);
        return true;
    }
    if !reader.has_bits(1) {
        return false;
    }
    let ccc = reader.read_bits(1).unwrap() == 1;
    if ccc && !reader.has_bits(2) {
        return false;
    }
    v.b_presentation_core_differs = Some(true);
    v.b_presentation_core_channel_coded = Some(ccc);
    if ccc {
        v.dsi_presentation_channel_mode_core = Some(reader.read_bits(2).unwrap() as u8);
    }
    true
}

fn read_v1_filter(reader: &mut BitReader, v: &mut Ac4PresentationV1) -> (ok: bool)
    requires
        spec_reader_ok(*old(reader)),
    ensures
        spec_stage(*old(reader), *final(reader), *old(v), *final(v), ok, spec_v1_filter(
            old(reader).data@,
            old(reader).pos as int,
            spec_v1_view(*old(v)),
        )),
{
    proof {
        lemma2_to64();
    }
    if !reader.has_bits(1) {
        return false;
    }
    let pf = reader.read_bits(1).unwrap() == 1;
    if !pf {
        v.b_presentation_filter = Some(false);
        return true;
    }
    if !reader.has_bits(9) {
        return false;
    }
    let en = reader.read_bits(1).unwrap() == 1;
    let nf = reader.read_bits(8).unwrap();
    match reader.read_bytes(nf as usize) {
        None => false,
        Some(d) => {
            v.b_presentation_filter = Some(true);
            v.b_enable_presentation = Some(en);
            v.filter_data = Some(d);
            true
        },
    }
}

fn read_v1_groups(reader: &mut BitReader, v: &mut Ac4PresentationV1) -> (r: Option<bool>)
    requires
        spec_reader_ok(*old(reader)),
    ensures
        spec_reader_ok(*final(reader)),
        final(reader).data@ == old(reader).data@,
        final(reader).pos >= old(reader).pos,
        final(v).emdf_substreams@ == old(v).emdf_substreams@,
        match r {
            Some(add) => spec_v1_groups(old(reader).data@, old(reader).pos as int, spec_v1_view(*old(v)))
                == Some((spec_v1_view(*final(v)), add, final(reader).pos as int)),
            None => spec_v1_groups(old(reader).data@, old(reader).pos as int, spec_v1_view(*old(v))) is None,
        },
{
    proof {
        lemma2_to64();
    }
    match read_groups_part(reader, v.presentation_config_v1) {
        None => None,
        Some((mp, gs)) => {
            if !reader.has_bits(2) {
                return None;
            }
            v.b_multi_pid = mp;
            v.substream_groups = gs;
            v.b_pre_virtualized = Some(reader.read_bits(1).unwrap() == 1);
            Some(reader.read_bits(1).unwrap() == 1)
        },
    }
}

fn read_v1_head(reader: &mut BitReader, cfg: u8) -> (r: Option<(Ac4PresentationV1, bool)>)
    requires
        spec_reader_ok(*old(reader)),
    ensures
        spec_reader_ok(*final(reader)),
        final(reader).data@ == old(reader).data@,
        final(reader).pos >= old(reader).pos,
        match r {
            Some((v, add)) => spec_v1_head(old(reader).data@, old(reader).pos as int, cfg) == Some(
                (spec_v1_view(v), add, final(reader).pos as int),
            ) && v.emdf_substreams@.len() == 0,
            None => spec_v1_head(old(reader).data@, old(reader).pos as int, cfg) is None,
        },
{
    proof {
        reveal(spec_v1_head);
    }
    let mut v = Ac4PresentationV1 {
        presentation_config_v1: cfg,
        md_compat: None,
        presentation_id: None,
        dsi_frame_rate_multiply_info: None,
        dsi_frame_rate_fraction_info: None,
        presentation_emdf_version: None,
        presentation_key_id: None,
        b_presentation_channel_coded: None,
        dsi_presentation_ch_mode: None,
        pres_b_4_back_channels_present: None,
        pres_top_channel_pairs: None,
        presentation_channel_mask_v1: None,
        b_presentation_core_differs: None,
        b_presentation_core_channel_coded: None,
        dsi_presentation_channel_mode_core: None,
        b_presentation_filter: None,
        b_enable_presentation: None,
        filter_data: None,
        b_multi_pid: None,
        substream_groups: None,
        b_pre_virtualized: None,
        emdf_substreams: Vec::new(),
        bit_rate_mode: None,
        bit_rate: None,
        bit_rate_precision: None,
        alternative_info: None,
        de_indicator: None,
        immersive_audio_indicator: None,
        extended_presentation_id: None,
    };
    assert(spec_v1_view(v) == spec_v1_empty(cfg));
    if cfg == 6 {
        return Some((v, true));
    }
    if !read_v1_ids(reader, &mut v) {
        return None;
    }
    if !read_v1_channels(reader, &mut v) {
        return None;
    }
    if !read_v1_core(reader, &mut v) {
        return None;
    }
    if !read_v1_filter(reader, &mut v) {
        return None;
    }
    match read_v1_groups(reader, &mut v) {
        None => None,
        Some(add) => Some((v, add)),
    }
}

fn read_alternative(reader: &mut BitReader) -> (r: Option<Ac4AlternativeInfo>)
    requires
        spec_reader_ok(*old(reader)),
    ensures
        spec_reader_ok(*final(reader)),
        final(reader).data@ == old(reader).data@,
        final(reader).pos >= old(reader).pos,
        match r {
            Some(a) => spec_alternative(old(reader).data@, old(reader).pos as int) == Some(
                (spec_alternative_view(Some(a))->0, final(reader).pos as int),
            ),
            None => spec_alternative(old(reader).data@, old(reader).pos as int) is None,
        },
{
    proof {
        lemma2_to64();
    }
    let ghost b = reader.data@;
    if !reader.has_bits(16) {
        return None;
    }
    let nl = reader.read_bits(16).unwrap();
    let name = match reader.read_bytes(nl as usize) {
        None => {
            return None;
        },
        Some(n) => n,
    };
    let presentation_name = utf8_lossy(name.as_slice());
    if !reader.has_bits(5) {
        return None;
    }
    let nt = reader.read_bits(5).unwrap();
    if !reader.has_bits(11 * nt as usize) {
        return None;
    }
    let ghost start = reader.pos as int;
    let mut targets: Vec<Ac4AlternativeInfoTarget> = Vec::new();
    let mut i: u32 = 0;
    assert(targets@ =~= Seq::new(0, |j: int| spec_target_at(b, start, j)));
    while i < nt
        invariant
            i <= nt < 32,
            spec_reader_ok(*reader),
            reader.data@ == b,
            b == old(reader).data@,
            start >= old(reader).pos,
            spec_has_bits(b, start, (11 * nt) as int),
            reader.pos == start + 11 * i,
            targets@ == Seq::new(i as nat, |j: int| spec_target_at(b, start, j)),
        decreases nt - i,
    {
        let md_compat = reader.read_bits(3).unwrap() as u8;
        let device_category = reader.read_bits(8).unwrap() as u8;
        targets.push(Ac4AlternativeInfoTarget { md_compat, device_category });
        assert(targets@ =~= Seq::new((i + 1) as nat, |j: int| spec_target_at(b, start, j)));
        i = i + 1;
    }
    Some(Ac4AlternativeInfo { presentation_name, targets })
}

fn read_v1_tail(reader: &mut BitReader, v: &mut Ac4PresentationV1, add: bool) -> (ok: bool)
    requires
        spec_reader_ok(*old(reader)),
    ensures
        spec_reader_ok(*final(reader)),
        final(reader).data@ == old(reader).data@,
        final(reader).pos >= old(reader).pos,
        if ok {
            spec_v1_tail(old(reader).data@, old(reader).pos as int, spec_v1_view(*old(v)), add)
                == Some((spec_v1_view(*final(v)), final(reader).pos as int))
        } else {
            spec_v1_tail(old(reader).data@, old(reader).pos as int, spec_v1_view(*old(v)), add) is None
        },
{
    proof {
        lemma2_to64();
    }
    match read_emdf_block(reader, add) {
        None => {
            return false;
        },
        Some(e) => {
            v.emdf_substreams = e;
        },
    }
    if !reader.has_bits(1) {
        return false;
    }
    let bri = reader.read_bits(1).unwrap() == 1;
    if bri {
        if !reader.has_bits(66) {
            return false;
        }
        v.bit_rate_mode = Some(Ac4BitrateMode::from(reader.read_bits(2).unwrap() as u8));
        v.bit_rate = Some(reader.read_bits(32).unwrap());
        v.bit_rate_precision = Some(reader.read_bits(32).unwrap());
    } else {
        v.bit_rate_mode = None;
        v.bit_rate = None;
        v.bit_rate_precision = None;
    }
    if !reader.has_bits(1) {
        return false;
    }
    let alt = reader.read_bits(1).unwrap() == 1;
    if alt {
        reader.align();
        match read_alternative(reader) {
            None => {
                return false;
            },
            Some(a) => {
                v.alternative_info = Some(a);
            },
        }
    }
    reader.align();
    true
}

fn read_v1_body(reader: &mut BitReader) -> (r: Option<Ac4PresentationV1>)
    requires
        spec_reader_ok(*old(reader)),
    ensures
        spec_reader_ok(*final(reader)),
        final(reader).data@ == old(reader).data@,
        final(reader).pos >= old(reader).pos,
        match r {
            Some(v) => spec_v1_body(old(reader).data@, old(reader).pos as int) == Some(
                (spec_v1_view(v), final(reader).pos as int),
            ),
            None => spec_v1_body(old(reader).data@, old(reader).pos as int) is None,
        },
{
    proof {
        reveal(spec_v1_body);
    }
    proof {
        lemma2_to64();
    }
    if !reader.has_bits(5) {
        return None;
    }
    let cfg = reader.read_bits(5).unwrap() as u8;
    let (mut v, add) = match read_v1_head(reader, cfg) {
        None => {
            return None;
        },
        Some(x) => x,
    };
    if read_v1_tail(reader, &mut v, add) {
        Some(v)
    } else {
        None
    }
}

proof fn lemma_remaining_monotone(b: Seq<u8>, p: int, r: int)
    requires
        0 <= p <= r <= 8 * b.len(),
    ensures
        spec_bytes_remaining(b, r) <= spec_bytes_remaining(b, p),
        0 <= spec_bytes_remaining(b, r),
        spec_bytes_remaining(b, p) <= b.len(),
{
    assert((8 * b.len() - r) / 8 <= (8 * b.len() - p) / 8) by (nonlinear_arith)
        requires
            0 <= p <= r <= 8 * b.len(),
    ;
    assert(0 <= (8 * b.len() - r) / 8) by (nonlinear_arith)
        requires
            r <= 8 * b.len(),
    ;
    assert((8 * b.len() - p) / 8 <= b.len()) by (nonlinear_arith)
        requires
            0 <= p,
    ;
}

fn read_v1(reader: &mut BitReader, pres_bytes: usize) -> (r: Option<Ac4PresentationV1>)
    requires
        spec_reader_ok(*old(reader)),
        spec_v1_body(old(reader).data@, old(reader).pos as int) is Some ==> pres_bytes >= 1,
        pres_bytes <= 0x1_0000 + 255,
    ensures
        spec_reader_ok(*final(reader)),
        final(reader).data@ == old(reader).data@,
        final(reader).pos >= old(reader).pos,
        match r {
            Some(v) => spec_v1(old(reader).data@, old(reader).pos as int, pres_bytes as int) == Some(
                (spec_v1_view(v), final(reader).pos as int),
            ),
            None => spec_v1(old(reader).data@, old(reader).pos as int, pres_bytes as int) is None,
        },
{
    proof {
        reveal(spec_v1);
    }
    proof {
        lemma2_to64();
    }
    let ghost p0 = reader.pos as int;
    let starting_bytes = reader.bytes_remaining();
    let mut v = match read_v1_body(reader) {
        None => {
            return None;
        },
        Some(v) => v,
    };
    proof {
        lemma_remaining_monotone(reader.data@, p0, reader.pos as int);
    }
    let bits_read = (starting_bytes - reader.bytes_remaining()) * 8;
    if bits_read <= (pres_bytes - 1) * 8 {
        if !reader.has_bits(7) {
            return None;
        }
        v.de_indicator = Some(reader.read_bits(1).unwrap() == 1);
        v.immersive_audio_indicator = Some(reader.read_bits(1).unwrap() == 1);
        let _ = reader.read_bits(4).unwrap();
        let ext = reader.read_bits(1).unwrap() == 1;
        if ext {
            if !reader.has_bits(9) {
                return None;
            }
            v.extended_presentation_id = Some(reader.read_bits(9).unwrap() as u16);
        } else {
            if !reader.has_bits(1) {
                return None;
            }
            let _ = reader.read_bits(1).unwrap();
        }
    }
    Some(v)
}

/// A presentation's header at bit `p`: version, size byte and, for a size byte of 255, 16
/// more bits of size. Gives the version, the size and where the header ends.
pub open spec fn spec_pres_header(b: Seq<u8>, p: int) -> Option<(u8, int, int)> {
    if !spec_has_bits(b, p, 16) {
        None
    } else {
        let ver = spec_bits(b, p, 8) as u8;
        let pb0 = spec_bits(b, p + 8, 8);
        if pb0 == 255 {
            if !spec_has_bits(b, p + 16, 16) {
                None
            } else {
                Some((ver, (255 + spec_bits(b, p + 16, 16)) as int, p + 32))
            }
        } else {
            Some((ver, pb0 as int, p + 16))
        }
    }
}

/// The presentation body of a version at bit `p`, and where it ends.
pub open spec fn spec_pres_body(b: Seq<u8>, p: int, ver: u8, pres_bytes: int) -> Option<(PresentationModel, int)> {
    if ver == 0 {
        match spec_v0(b, p) {
            None => None,
            Some((m, q)) => Some((PresentationModel::V0(m), q)),
        }
    } else if ver == 1 || ver == 2 {
        match spec_v1(b, p, pres_bytes) {
            None => None,
            Some((m, q)) => Some((if ver == 1 { PresentationModel::V1(m) } else { PresentationModel::V2(m) }, q)),
        }
    } else {
        Some((PresentationModel::UnknownVersion(ver), p))
    }
}

/// One presentation at bit `p`: its header, its body by version, then the bytes that its
/// size announces beyond what the body read, which are skipped. A body that reads more
/// bytes than announced is refused.
#[verifier::opaque]
pub open spec fn spec_presentation(b: Seq<u8>, p: int) -> Result<(PresentationModel, int), DecodeError> {
    match spec_pres_header(b, p) {
        None => Err(DecodeError::OutOfBounds),
        Some((ver, pb, p2)) => match spec_pres_body(b, p2, ver, pb) {
            None => Err(DecodeError::OutOfBounds),
            Some((m, q)) => {
                let used = spec_bytes_remaining(b, p2) - spec_bytes_remaining(b, q);
                if pb < used {
                    Err(DecodeError::Unsupported(Unsupported::Dac4PresentationBytes))
                } else if !spec_has_bits(b, q, (8 * (pb - used)) as int) {
                    Err(DecodeError::OutOfBounds)
                } else {
                    Ok((m, q + 8 * (pb - used)))
                }
            },
        },
    }
}

/// Whether reading the presentation at bit `p` reaches the size check of a version 1 or 2
/// body with a size of zero, where the reading is not defined.
pub open spec fn spec_presentation_undefined(b: Seq<u8>, p: int) -> bool {
    match spec_pres_header(b, p) {
        None => false,
        Some((ver, pb, p2)) => (ver == 1 || ver == 2) && pb == 0 && spec_v1_body(b, p2) is Some,
    }
}

/// `n` presentations from bit `p`, or the first error.
pub open spec fn spec_presentations(b: Seq<u8>, p: int, n: nat) -> Result<(Seq<PresentationModel>, int), DecodeError>
    decreases n,
{
    if n == 0 {
        Ok((Seq::empty(), p))
    } else {
        match spec_presentation(b, p) {
            Err(e) => Err(e),
            Ok((m, q)) => match spec_presentations(b, q, (n - 1) as nat) {
                Err(e) => Err(e),
                Ok((rest, end)) => Ok((seq![m] + rest, end)),
            },
        }
    }
}

/// Whether no presentation that is read among `n` from bit `p` is undefined.
pub open spec fn spec_presentations_defined(b: Seq<u8>, p: int, n: nat) -> bool
    decreases n,
{
    if n == 0 {
        true
    } else if spec_presentation_undefined(b, p) {
        false
    } else {
        match spec_presentation(b, p) {
            Err(_) => true,
            Ok((_, q)) => spec_presentations_defined(b, q, (n - 1) as nat),
        }
    }
}

/// The fields before the presentations (ETSI TS 103 190-2 Table E.1), the presentation
/// count, and the byte boundary where the presentations start.
pub open spec fn spec_dac4_header(b: Seq<u8>) -> Option<(Dac4Model, nat, int)> {
    if !spec_has_bits(b, 0, 24) {
        None
    } else {
        let bsv = spec_bits(b, 3, 7) as u8;
        let np = spec_bits(b, 15, 9);
        let has_id_flag = bsv > 1;
        if has_id_flag && !spec_has_bits(b, 24, 1) {
            None
        } else {
            let bp = has_id_flag && spec_flag(b, 24);
            let p1 = if has_id_flag { 25 } else { 24 };
            if bp && !spec_has_bits(b, p1, 17) {
                None
            } else {
                let bu = bp && spec_flag(b, p1 + 16);
                let p2 = if bp { p1 + 17 } else { p1 };
                if bu && !spec_has_bits(b, p2, 128) {
                    None
                } else {
                    let q = if bu { p2 + 128 } else { p2 };
                    if !spec_has_bits(b, q, 66) {
                        None
                    } else {
                        Some((Dac4Model {
                            ac4_dsi_version: spec_bits(b, 0, 3) as u8,
                            bitstream_version: bsv,
                            fs_index: spec_flag(b, 10),
                            frame_rate_index: spec_bits(b, 11, 4) as u8,
                            short_program_id: if bp { Some(spec_bits(b, p1, 16) as u16) } else { None },
                            program_uuid: if bu { Some(spec_bit_bytes(b, p2, 16)) } else { None },
                            bit_rate_mode: spec_bitrate_mode(spec_bits(b, q, 2) as u8),
                            bit_rate: spec_bits(b, q + 2, 32) as u32,
                            bit_rate_precision: spec_bits(b, q + 34, 32) as u32,
                            presentations: Seq::empty(),
                        }, np, spec_aligned(q + 66)))
                    }
                }
            }
        }
    }
}

/// A whole `dac4` body: the header, then the presentations. Gives the record and the bit
/// where reading stopped.
pub open spec fn spec_dac4(b: Seq<u8>) -> Result<(Dac4Model, int), DecodeError> {
    match spec_dac4_header(b) {
        None => Err(DecodeError::OutOfBounds),
        Some((m, n, r)) => match spec_presentations(b, r, n) {
            Err(e) => Err(e),
            Ok((ps, end)) => Ok((Dac4Model { presentations: ps, ..m }, end)),
        },
    }
}

pub open spec fn spec_then_pres(
    done: Seq<PresentationModel>,
    rest: Result<(Seq<PresentationModel>, int), DecodeError>,
) -> Result<(Seq<PresentationModel>, int), DecodeError> {
    match rest {
        Ok((s, e)) => Ok((done + s, e)),
        Err(e) => Err(e),
    }
}

fn read_presentation(reader: &mut BitReader) -> (r: Result<Ac4Presentation, DecodeError>)
    requires
        spec_reader_ok(*old(reader)),
        !spec_presentation_undefined(old(reader).data@, old(reader).pos as int),
    ensures
        spec_reader_ok(*final(reader)),
        final(reader).data@ == old(reader).data@,
        final(reader).pos >= old(reader).pos,
        match r {
            Ok(m) => spec_presentation(old(reader).data@, old(reader).pos as int) == Ok::<(PresentationModel, int), DecodeError>(
                (spec_presentation_view(m), final(reader).pos as int),
            ),
            Err(e) => spec_presentation(old(reader).data@, old(reader).pos as int) == Err::<(PresentationModel, int), DecodeError>(e),
        },
{
    proof {
        reveal(spec_presentation);
    }
    proof {
        lemma2_to64();
    }
    if !reader.has_bits(16) {
        return Err(DecodeError::OutOfBounds);
    }
    let version = reader.read_bits(8).unwrap() as u8;
    let mut pres_bytes = reader.read_bits(8).unwrap() as usize;
    if pres_bytes == 255 {
        if !reader.has_bits(16) {
            return Err(DecodeError::OutOfBounds);
        }
        pres_bytes = pres_bytes + reader.read_bits(16).unwrap() as usize;
    }
    let ghost p2 = reader.pos as int;
    let before = reader.bytes_remaining();
    let presentation = if version == 0 {
        match read_v0(reader) {
            None => {
                return Err(DecodeError::OutOfBounds);
            },
            Some(v) => Ac4Presentation::V0(v),
        }
    } else if version == 1 || version == 2 {
        match read_v1(reader, pres_bytes) {
            None => {
                return Err(DecodeError::OutOfBounds);
            },
            Some(v) => if version == 1 {
                Ac4Presentation::V1(v)
            } else {
                Ac4Presentation::V2(v)
            },
        }
    } else {
        Ac4Presentation::UnknownVersion(version)
    };
    proof {
        lemma_remaining_monotone(reader.data@, p2, reader.pos as int);
    }
    let presentation_bytes = before - reader.bytes_remaining();
    if pres_bytes < presentation_bytes {
        return Err(DecodeError::Unsupported(Unsupported::Dac4PresentationBytes));
    }
    if skip_bytes(reader, pres_bytes - presentation_bytes) {
        Ok(presentation)
    } else {
        Err(DecodeError::OutOfBounds)
    }
}

impl BoxBody for Dac4 {
    open spec fn spec_kind() -> FourCC {
        FourCC(0x64616334)
    }

    /// Bit positions must fit in a `usize`, and no version 1 or 2 presentation with a size
    /// of zero may reach the size check.
    open spec fn spec_defined(b: Seq<u8>) -> bool {
        &&& 8 * b.len() <= usize::MAX
        &&& match spec_dac4_header(b) {
            None => true,
            Some((_, n, r)) => spec_presentations_defined(b, r, n),
        }
    }

    open spec fn spec_error(b: Seq<u8>) -> Option<DecodeError> {
        match spec_dac4(b) {
            Ok(_) => None,
            Err(e) => Some(e),
        }
    }

    /// The bytes up to where reading stopped.
    open spec fn spec_read(b: Seq<u8>) -> nat {
        match spec_dac4(b) {
            Ok((_, end)) => (spec_bytes_remaining(b, 0) - spec_bytes_remaining(b, end)) as nat,
            Err(_) => 0,
        }
    }

    open spec fn spec_decodes_to(b: Seq<u8>, v: Dac4) -> bool {
        spec_dac4(b) matches Ok((m, _)) && spec_dac4_view(v) == m
    }

    fn kind() -> (k: FourCC) {
        FourCC(0x64616334)
    }

    fn decode_body(data: &[u8]) -> (r: Result<(Dac4, usize), DecodeError>) {
        proof {
            lemma2_to64();
        }
        let mut reader = BitReader::new(data);
        let starting_bytes = reader.bytes_remaining();
        if !reader.has_bits(24) {
            return Err(DecodeError::OutOfBounds);
        }
        let ac4_dsi_version = reader.read_bits(3).unwrap() as u8;
        let bitstream_version = reader.read_bits(7).unwrap() as u8;
        let fs_index = reader.read_bits(1).unwrap() == 1;
        let frame_rate_index = reader.read_bits(4).unwrap() as u8;
        let n_presentations = reader.read_bits(9).unwrap();
        let mut short_program_id: Option<u16> = None;
        let mut program_uuid: Option<[u8; 16]> = None;
        if bitstream_version > 1 {
            if !reader.has_bits(1) {
                return Err(DecodeError::OutOfBounds);
            }
            let b_program_id = reader.read_bits(1).unwrap() == 1;
            if b_program_id {
                if !reader.has_bits(17) {
                    return Err(DecodeError::OutOfBounds);
                }
                short_program_id = Some(reader.read_bits(16).unwrap() as u16);
                let b_uuid = reader.read_bits(1).unwrap() == 1;
                if b_uuid {
                    match reader.read_bytes(16) {
                        None => {
                            return Err(DecodeError::OutOfBounds);
                        },
                        Some(u) => {
                            let a: [u8; 16] = [
                                u[0], u[1], u[2], u[3], u[4], u[5], u[6], u[7], u[8], u[9], u[10],
                                u[11], u[12], u[13], u[14], u[15],
                            ];
                            assert(a@ =~= u@);
                            program_uuid = Some(a);
                        },
                    }
                }
            }
        }
        if !reader.has_bits(66) {
            return Err(DecodeError::OutOfBounds);
        }
        let bit_rate_mode = Ac4BitrateMode::from(reader.read_bits(2).unwrap() as u8);
        let bit_rate = reader.read_bits(32).unwrap();
        let bit_rate_precision = reader.read_bits(32).unwrap();
        reader.align();
        let ghost header = spec_dac4_header(data@);
        assert(header is Some);
        let ghost start = reader.pos as int;
        let mut presentations: Vec<Ac4Presentation> = Vec::new();
        let mut i: u32 = 0;
        assert(spec_presentations_view(presentations@) =~= Seq::<PresentationModel>::empty());
        while i < n_presentations
            invariant
                i <= n_presentations,
                spec_reader_ok(reader),
                reader.data@ == data@,
                header == spec_dac4_header(data@),
                header matches Some((_, n, r)) && n == n_presentations && r == start,
                spec_presentations_defined(data@, reader.pos as int, (n_presentations - i) as nat),
                spec_presentations(data@, start, n_presentations as nat) == spec_then_pres(
                    spec_presentations_view(presentations@),
                    spec_presentations(data@, reader.pos as int, (n_presentations - i) as nat),
                ),
            decreases n_presentations - i,
        {
            let ghost before = spec_presentations_view(presentations@);
            match read_presentation(&mut reader) {
                Err(e) => {
                    return Err(e);
                },
                Ok(m) => {
                    presentations.push(m);
                    proof {
                        assert(spec_presentations_view(presentations@) =~= before.push(spec_presentation_view(m)));
                        match spec_presentations(data@, reader.pos as int, (n_presentations - i - 1) as nat) {
                            Ok((rest, e)) => {
                                assert(before + (seq![spec_presentation_view(m)] + rest) =~= before.push(
                                    spec_presentation_view(m),
                                ) + rest);
                            },
                            Err(_) => {},
                        }
                    }
                },
            }
            i = i + 1;
        }
        assert(spec_presentations_view(presentations@) + Seq::<PresentationModel>::empty() =~= spec_presentations_view(presentations@));
        proof {
            lemma_remaining_monotone(data@, 0, reader.pos as int);
        }
        let read = starting_bytes - reader.bytes_remaining();
        let dac4 = Dac4 {
            ac4_dsi_version,
            bitstream_version,
            fs_index,
            frame_rate_index,
            short_program_id,
            program_uuid,
            bit_rate_mode,
            bit_rate,
            bit_rate_precision,
            presentations,
        };
        Ok((dac4, read))
    }
}


/// The content classifier codes of ETSI TS 103 190 (the `content_classifier` table): 0 is
/// complete main, 1 music and effects, 2 visually impaired, 3 hearing impaired, 4 dialogue,
/// 5 commentary, 6 emergency and 7 voice over; each code names one classifier only, and a
/// value beyond three bits reads as complete main.
pub proof fn lemma_content_classifier_codes()
    ensures
        forall|v: u8| #[trigger] spec_content_classifier(v) == Ac4ContentClassifier::VisuallyImpaired <==> v == 2,
        forall|v: u8| #[trigger] spec_content_classifier(v) == Ac4ContentClassifier::HearingImpaired <==> v == 3,
        forall|v: u8| #[trigger] spec_content_classifier(v) == Ac4ContentClassifier::MusicAndEffects <==> v == 1,
        forall|v: u8| #[trigger] spec_content_classifier(v) == Ac4ContentClassifier::Dialogue <==> v == 4,
        forall|v: u8| #[trigger] spec_content_classifier(v) == Ac4ContentClassifier::Commentary <==> v == 5,
        forall|v: u8| #[trigger] spec_content_classifier(v) == Ac4ContentClassifier::Emergency <==> v == 6,
        forall|v: u8| #[trigger] spec_content_classifier(v) == Ac4ContentClassifier::VoiceOver <==> v == 7,
        forall|v: u8| #[trigger] spec_content_classifier(v) == Ac4ContentClassifier::CompleteMain <==> (v == 0 || v > 7),
{
}

} // verus!
