use hls_inspect::bytes::{decode_box, FourCC};
use hls_inspect::mp4_parsing::lnin::Lnin;
use hls_inspect::mp4_parsing::ldst::Ldst;
use hls_inspect::mp4_parsing::lfad::Lfad;
use hls_inspect::mp4_parsing::uqua::Uqua;
use hls_inspect::mp4_parsing::dac4::{
    Ac4BitrateMode, Ac4ContentClassifier, Ac4Presentation, Ac4PresentationSubstream,
    Ac4PresentationV1, Ac4SubstreamGroup, Dac4,
};
use hls_inspect::mp4_parsing::colr::Colr;
use hls_inspect::mp4_parsing::dtyp::Dtyp;
use hls_inspect::mp4_parsing::dvcc::Dvcc;
use hls_inspect::mp4_parsing::dvvc::Dvvc;
use hls_inspect::mp4_parsing::keyd::Keyd;
use hls_inspect::mp4_parsing::loca::Loca;
use hls_inspect::mp4_parsing::setu::Setu;

#[test]
fn dac4_test() {
    const DAC4: &[u8] = &[
        0x00, 0x00, 0x00, 0x25, 0x64, 0x61, 0x63, 0x34, 0x20, 0xA6, 0x01, 0x40, 0x00, 0x00,
        0x00, 0x1F, 0xFF, 0xFF, 0xFF, 0xE0, 0x01, 0x0F, 0xF9, 0x80, 0x00, 0x00, 0x48, 0x00,
        0x00, 0x8E, 0x50, 0x10, 0x00, 0x00, 0x8F, 0x00, 0x80,
    ];
    assert_eq!(
        Dac4 {
            ac4_dsi_version: 1,
            bitstream_version: 2,
            fs_index: true,
            frame_rate_index: 3,
            short_program_id: None,
            program_uuid: None,
            bit_rate_mode: Ac4BitrateMode::Average,
            bit_rate: 0,
            bit_rate_precision: 4294967295,
            presentations: vec![Ac4Presentation::V1(Ac4PresentationV1 {
                presentation_config_v1: 31,
                md_compat: Some(1),
                presentation_id: Some(0),
                dsi_frame_rate_multiply_info: Some(0),
                dsi_frame_rate_fraction_info: Some(0),
                presentation_emdf_version: Some(0),
                presentation_key_id: Some(0),
                b_presentation_channel_coded: Some(true),
                dsi_presentation_ch_mode: Some(4),
                pres_b_4_back_channels_present: None,
                pres_top_channel_pairs: None,
                presentation_channel_mask_v1: Some([0, 0, 0b01000111]),
                b_presentation_core_differs: Some(false),
                b_presentation_core_channel_coded: None,
                dsi_presentation_channel_mode_core: None,
                b_presentation_filter: Some(false),
                b_enable_presentation: None,
                filter_data: None,
                b_multi_pid: None,
                substream_groups: Some(vec![Ac4SubstreamGroup {
                    b_substreams_present: true,
                    b_hsf_ext: false,
                    b_channel_coded: true,
                    substreams: vec![Ac4PresentationSubstream {
                        dsi_sf_multiplier: 0,
                        bitrate_indicator: None,
                        channel_mask: Some([0, 0, 0b01000111]),
                        n_dmx_objects_minus1: None,
                        n_umx_objects_minus1: None,
                        contains_bed_objects: None,
                        contains_dynamic_objects: None,
                        contains_isf_objects: None,
                    }],
                    content_classifier: Some(Ac4ContentClassifier::CompleteMain),
                    language_tag: None,
                }]),
                b_pre_virtualized: Some(false),
                emdf_substreams: Vec::new(),
                bit_rate_mode: None,
                bit_rate: None,
                bit_rate_precision: None,
                alternative_info: None,
                de_indicator: Some(true),
                immersive_audio_indicator: Some(false),
                extended_presentation_id: None,
            })]
        },
        decode_box::<Dac4>(DAC4).expect("dac4 should decode successfully"),
    )
}

#[test]
fn dac4_multi_presentation_including_v2() {
    const DAC4: &[u8] = &[
        0x00, 0x00, 0x00, 0x36, 0x64, 0x61, 0x63, 0x34, 0x20, 0xA6, 0x02, 0x40, 0x00, 0x00,
        0x00, 0x1F, 0xFF, 0xFF, 0xFF, 0xE0, 0x02, 0x0F, 0xF8, 0x80, 0x00, 0x00, 0x42, 0x00,
        0x00, 0x02, 0x50, 0x10, 0x00, 0x00, 0x03, 0x08, 0xC0, 0x01, 0x0F, 0xF8, 0x80, 0x00,
        0x00, 0x42, 0x00, 0x00, 0x02, 0x50, 0x10, 0x00, 0x00, 0x03, 0x00, 0x80,
    ];
    assert_eq!(
        Dac4 {
            ac4_dsi_version: 1,
            bitstream_version: 2,
            fs_index: true,
            frame_rate_index: 3,
            short_program_id: None,
            program_uuid: None,
            bit_rate_mode: Ac4BitrateMode::Average,
            bit_rate: 0,
            bit_rate_precision: 4294967295,
            presentations: vec![
                Ac4Presentation::V2(Ac4PresentationV1 {
                    presentation_config_v1: 31,
                    md_compat: Some(0),
                    presentation_id: Some(0),
                    dsi_frame_rate_multiply_info: Some(0),
                    dsi_frame_rate_fraction_info: Some(0),
                    presentation_emdf_version: Some(0),
                    presentation_key_id: Some(0),
                    b_presentation_channel_coded: Some(true),
                    dsi_presentation_ch_mode: Some(1),
                    pres_b_4_back_channels_present: None,
                    pres_top_channel_pairs: None,
                    presentation_channel_mask_v1: Some([0, 0, 1]),
                    b_presentation_core_differs: Some(false),
                    b_presentation_core_channel_coded: None,
                    dsi_presentation_channel_mode_core: None,
                    b_presentation_filter: Some(false),
                    b_enable_presentation: None,
                    filter_data: None,
                    b_multi_pid: None,
                    substream_groups: Some(vec![Ac4SubstreamGroup {
                        b_substreams_present: true,
                        b_hsf_ext: false,
                        b_channel_coded: true,
                        substreams: vec![Ac4PresentationSubstream {
                            dsi_sf_multiplier: 0,
                            bitrate_indicator: None,
                            channel_mask: Some([0, 0, 1]),
                            n_dmx_objects_minus1: None,
                            n_umx_objects_minus1: None,
                            contains_bed_objects: None,
                            contains_dynamic_objects: None,
                            contains_isf_objects: None,
                        }],
                        content_classifier: Some(Ac4ContentClassifier::CompleteMain),
                        language_tag: None,
                    }]),
                    b_pre_virtualized: Some(true),
                    emdf_substreams: Vec::new(),
                    bit_rate_mode: None,
                    bit_rate: None,
                    bit_rate_precision: None,
                    alternative_info: None,
                    de_indicator: Some(true),
                    immersive_audio_indicator: Some(true),
                    extended_presentation_id: None,
                }),
                Ac4Presentation::V1(Ac4PresentationV1 {
                    presentation_config_v1: 31,
                    md_compat: Some(0),
                    presentation_id: Some(0),
                    dsi_frame_rate_multiply_info: Some(0),
                    dsi_frame_rate_fraction_info: Some(0),
                    presentation_emdf_version: Some(0),
                    presentation_key_id: Some(0),
                    b_presentation_channel_coded: Some(true),
                    dsi_presentation_ch_mode: Some(1),
                    pres_b_4_back_channels_present: None,
                    pres_top_channel_pairs: None,
                    presentation_channel_mask_v1: Some([0, 0, 1]),
                    b_presentation_core_differs: Some(false),
                    b_presentation_core_channel_coded: None,
                    dsi_presentation_channel_mode_core: None,
                    b_presentation_filter: Some(false),
                    b_enable_presentation: None,
                    filter_data: None,
                    b_multi_pid: None,
                    substream_groups: Some(vec![Ac4SubstreamGroup {
                        b_substreams_present: true,
                        b_hsf_ext: false,
                        b_channel_coded: true,
                        substreams: vec![Ac4PresentationSubstream {
                            dsi_sf_multiplier: 0,
                            bitrate_indicator: None,
                            channel_mask: Some([0, 0, 1]),
                            n_dmx_objects_minus1: None,
                            n_umx_objects_minus1: None,
                            contains_bed_objects: None,
                            contains_dynamic_objects: None,
                            contains_isf_objects: None,
                        }],
                        content_classifier: Some(Ac4ContentClassifier::CompleteMain),
                        language_tag: None,
                    }]),
                    b_pre_virtualized: Some(false),
                    emdf_substreams: Vec::new(),
                    bit_rate_mode: None,
                    bit_rate: None,
                    bit_rate_precision: None,
                    alternative_info: None,
                    de_indicator: Some(true),
                    immersive_audio_indicator: Some(false),
                    extended_presentation_id: None,
                })
            ]
        },
        decode_box::<Dac4>(DAC4).expect("dac4 should decode successfully"),
    )
}

const DTYP: &[u8] = &[
    0x00, 0x00, 0x00, 0x10, 0x64, 0x74, 0x79, 0x70, 0x00, 0x00, 0x00, 0x00, 0x00, 0x00, 0x00,
    0x00,
];

#[test]
fn dtyp_parses_correctly() {
    assert_eq!(
        Dtyp {
            data_namespace: 0,
            data_value: vec![0, 0, 0, 0],
        },
        decode_box::<Dtyp>(DTYP).expect("dtyp should decode successfully")
    );
}

const KEYD: &[u8] = &[
    0x00, 0x00, 0x00, 0x42, 0x6B, 0x65, 0x79, 0x64, 0x6D, 0x64, 0x74, 0x61, 0x63, 0x6F, 0x6D,
    0x2E, 0x61, 0x70, 0x70, 0x6C, 0x65, 0x2E, 0x71, 0x75, 0x69, 0x63, 0x6B, 0x74, 0x69, 0x6D,
    0x65, 0x2E, 0x76, 0x69, 0x64, 0x65, 0x6F, 0x2E, 0x70, 0x72, 0x65, 0x73, 0x65, 0x6E, 0x74,
    0x61, 0x74, 0x69, 0x6F, 0x6E, 0x2E, 0x69, 0x6D, 0x6D, 0x65, 0x72, 0x73, 0x69, 0x76, 0x65,
    0x2D, 0x6D, 0x65, 0x64, 0x69, 0x61,
];

#[test]
fn keyd_parses_correctly() {
    assert_eq!(
        Keyd {
            key_namespace: FourCC(u32::from_be_bytes(*b"mdta")),
            key_value: b"com.apple.quicktime.video.presentation.immersive-media".to_vec(),
        },
        decode_box::<Keyd>(KEYD).expect("keyd should decode successfully")
    );
}

const LOCA: &[u8] = &[
    0x00, 0x00, 0x00, 0x0D, 0x6C, 0x6F, 0x63, 0x61, 0x65, 0x6E, 0x2D, 0x55, 0x53,
];

#[test]
fn loca_parses_correctly() {
    assert_eq!(
        Loca {
            locale: String::from("en-US")
        },
        decode_box::<Loca>(LOCA).expect("loca should decode successfully")
    );
}

const SETU: &[u8] = &[
    0x00, 0x00, 0x00, 0x15, 0x73, 0x65, 0x74, 0x75, 0x48, 0x65, 0x6C, 0x6C, 0x6F, 0x2C, 0x20,
    0x57, 0x6F, 0x72, 0x6C, 0x64, 0x21,
];

#[test]
fn setu_parses_correctly() {
    assert_eq!(
        Setu {
            namespace_defined_data: b"Hello, World!".to_vec(),
        },
        decode_box::<Setu>(SETU).expect("setu should decode successfully")
    );
}

const DVCC: &[u8] = &[
    0x00, 0x00, 0x00, 0x20, 0x64, 0x76, 0x63, 0x43, 0x01, 0x00, 0x0A, 0x0D, 0x00, 0x00, 0x00,
    0x00, 0x00, 0x00, 0x00, 0x00, 0x00, 0x00, 0x00, 0x00, 0x00, 0x00, 0x00, 0x00, 0x00, 0x00,
    0x00, 0x00,
];

#[test]
fn dvcc_decode_dvvc() {
    assert_eq!(
        Dvcc {
            dv_version_major: 1,
            dv_version_minor: 0,
            dv_profile: 5,
            dv_level: 1,
            rpu_present: true,
            el_present: false,
            bl_present: true,
            dv_bl_signal_compatibility_id: 0,
            dv_md_compression: 0,
        },
        decode_box::<Dvcc>(DVCC).unwrap()
    );
}

const DVVC: &[u8] = &[
    0x00, 0x00, 0x00, 0x20, 0x64, 0x76, 0x76, 0x43, 0x01, 0x00, 0x10, 0x0D, 0x10, 0x00, 0x00,
    0x00, 0x00, 0x00, 0x00, 0x00, 0x00, 0x00, 0x00, 0x00, 0x00, 0x00, 0x00, 0x00, 0x00, 0x00,
    0x00, 0x00,
];

#[test]
fn dvvc_decode_dvvc() {
    assert_eq!(
        Dvvc {
            dv_version_major: 1,
            dv_version_minor: 0,
            dv_profile: 8,
            dv_level: 1,
            rpu_present: true,
            el_present: false,
            bl_present: true,
            dv_bl_signal_compatibility_id: 1,
            dv_md_compression: 0,
        },
        decode_box::<Dvvc>(DVVC).unwrap()
    );
}

#[test]
fn colr_reads_nclx_nclc_and_keeps_unknown_types() {
    let mut nclx = 19u32.to_be_bytes().to_vec();
    nclx.extend_from_slice(b"colr");
    nclx.extend_from_slice(b"nclx");
    nclx.extend_from_slice(&[0, 9, 0, 16, 0, 9, 0x80]);
    assert_eq!(
        decode_box::<Colr>(&nclx),
        Ok(Colr::Nclx { colour_primaries: 9, transfer_characteristics: 16, matrix_coefficients: 9, full_range_flag: true })
    );
    let mut nclc = 18u32.to_be_bytes().to_vec();
    nclc.extend_from_slice(b"colr");
    nclc.extend_from_slice(b"nclc");
    nclc.extend_from_slice(&[0, 1, 0, 1, 0, 1]);
    assert_eq!(
        decode_box::<Colr>(&nclc),
        Ok(Colr::Nclc { primaries_index: 1, transfer_function_index: 1, matrix_index: 1 })
    );
    let mut other = 14u32.to_be_bytes().to_vec();
    other.extend_from_slice(b"colr");
    other.extend_from_slice(b"abcd");
    other.extend_from_slice(&[7, 8]);
    assert_eq!(
        decode_box::<Colr>(&other),
        Ok(Colr::Unknown { colour_type: FourCC(u32::from_be_bytes(*b"abcd")), bytes: vec![7, 8] })
    );
}

fn boxed(kind: &[u8; 4], body: &[u8]) -> Vec<u8> {
    let mut out = ((body.len() + 8) as u32).to_be_bytes().to_vec();
    out.extend_from_slice(kind);
    out.extend_from_slice(body);
    out
}

fn floats(values: &[f32]) -> Vec<u8> {
    let mut out = vec![0u8; 4];
    for v in values {
        out.extend_from_slice(&v.to_bits().to_be_bytes());
    }
    out
}

#[test]
fn uqua_reads_three_components() {
    let data = boxed(b"uqua", &floats(&[0.5, -1.0, 2.25]));
    let q: Uqua = decode_box(&data).unwrap();
    assert_eq!(f32::from_bits(q.x_bits), 0.5);
    assert_eq!(f32::from_bits(q.y_bits), -1.0);
    assert_eq!(f32::from_bits(q.z_bits), 2.25);
    assert!(decode_box::<Uqua>(&boxed(b"uqua", &floats(&[0.5, 1.0]))).is_err());
}

#[test]
fn lfad_reads_both_polynomials() {
    let data = boxed(b"lfad", &floats(&[1.0, 2.0, 3.0, 4.0, 5.0, 6.0]));
    let l: Lfad = decode_box(&data).unwrap();
    assert_eq!(f32::from_bits(l.x2_bits), 3.0);
    assert_eq!(f32::from_bits(l.y0_bits), 4.0);
    assert_eq!(f32::from_bits(l.y2_bits), 6.0);
}

#[test]
fn ldst_reads_the_limit_only_when_flagged() {
    let plain: Ldst = decode_box(&boxed(b"ldst", &floats(&[0.1, 0.2, 0.3, 0.4]))).unwrap();
    assert_eq!(plain.calibration_limit_radial_angle_bits, None);
    assert_eq!(f32::from_bits(plain.p2_bits), 0.4);
    let mut body = floats(&[0.1, 0.2, 0.3, 0.4, 45.0]);
    body[3] = 1;
    let flagged: Ldst = decode_box(&boxed(b"ldst", &body)).unwrap();
    assert_eq!(flagged.calibration_limit_radial_angle_bits.map(f32::from_bits), Some(45.0));
    // A flagged box without its limit is cut short.
    let mut short = floats(&[0.1, 0.2, 0.3, 0.4]);
    short[3] = 1;
    assert!(decode_box::<Ldst>(&boxed(b"ldst", &short)).is_err());
}

#[test]
fn lnin_reads_optional_fields_by_flags() {
    let mut body = vec![0u8, 0, 0, 3];
    body.extend_from_slice(&(-2i16).to_be_bytes());
    body.extend_from_slice(&5i16.to_be_bytes());
    for v in [1000i32, -20, 30, 1200, -7] {
        body.extend_from_slice(&v.to_be_bytes());
    }
    body.extend_from_slice(&1.5f32.to_bits().to_be_bytes());
    let l: Lnin = decode_box(&boxed(b"lnin", &body)).unwrap();
    assert_eq!(l.denominator_shift_operand, -2);
    assert_eq!(l.skew_denominator_shift_operand, 5);
    assert_eq!(l.principal_point_x, -20);
    assert_eq!(l.focal_length_y, Some(1200));
    assert_eq!(l.skew_factor, Some(-7));
    assert_eq!(l.projection_offset_bits.map(f32::from_bits), Some(1.5));
    let mut plain = body[..20].to_vec();
    plain[3] = 0;
    let p: Lnin = decode_box(&boxed(b"lnin", &plain)).unwrap();
    assert_eq!(p.focal_length_y, None);
    assert_eq!(p.projection_offset_bits, None);
}
