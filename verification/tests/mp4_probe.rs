use hls_inspect::mp4_probe::{
    is_plausible_box_at, probe_init_segment, scan_segment_bytes, InitSegmentProbe,
    VideoCodecHint,
};

#[test]
fn box_size_must_fit_the_buffer() {
    let mut data = 64u32.to_be_bytes().to_vec();
    data.extend_from_slice(b"vexu");
    // A 64-byte box in a 12-byte buffer is a truncated read at best.
    data.extend_from_slice(&[0u8; 4]);
    assert!(!is_plausible_box_at(&data, 4));
}

#[test]
fn scan_ts_sync() {
    let mut data = vec![0u8; 188];
    data[0] = 0x47;
    let s = scan_segment_bytes(&data, VideoCodecHint::Unknown);
    assert!(s.looks_like_ts);
}

/// Length-prefixed NAL of `nal_header` padded to `payload_len` bytes.
fn length_prefixed_nal(nal_header: u8, payload_len: usize) -> Vec<u8> {
    let mut out = (payload_len as u32).to_be_bytes().to_vec();
    out.push(nal_header);
    out.resize(4 + payload_len, 0);
    out
}

fn mdat(payload: &[u8]) -> Vec<u8> {
    let mut out = ((payload.len() + 8) as u32).to_be_bytes().to_vec();
    out.extend_from_slice(b"mdat");
    out.extend_from_slice(payload);
    out
}

#[test]
fn idr_count_accumulates_across_mdat_boxes() {
    let mut data = mdat(&length_prefixed_nal(0x65, 32));
    data.extend(mdat(&length_prefixed_nal(0x65, 32)));
    let s = scan_segment_bytes(&data, VideoCodecHint::Avc);
    assert!(s.has_idr_nal_hint);
    assert_eq!(s.idr_count, 2);
}

#[test]
fn avc_sps_is_not_counted_as_idr() {
    // 0x27 is an H.264 SPS, but reads as HEVC NAL type 19 (IDR_W_RADL).
    let data = mdat(&length_prefixed_nal(0x27, 32));
    let avc = scan_segment_bytes(&data, VideoCodecHint::Avc);
    assert!(!avc.has_idr_nal_hint);
    assert_eq!(avc.idr_count, 0);

    let unknown = scan_segment_bytes(&data, VideoCodecHint::Unknown);
    assert!(unknown.has_idr_nal_hint);
}

#[test]
fn annex_b_and_length_prefixed_idr_deduped() {
    // A 4-byte start code also parses as a length prefix of 1, so both passes
    // see the same NAL header and must count it once.
    let mut payload = vec![0u8, 0, 0, 1, 0x65];
    payload.resize(64, 0);
    let s = scan_segment_bytes(&mdat(&payload), VideoCodecHint::Avc);
    assert_eq!(s.idr_count, 1);
}

#[test]
fn codec_hint_from_codec_str() {
    assert_eq!(
        VideoCodecHint::from_codec_str("avc1.640028"),
        VideoCodecHint::Avc
    );
    assert_eq!(
        VideoCodecHint::from_codec_str("hvc1.2.4.L153.B0"),
        VideoCodecHint::Hevc
    );
    assert_eq!(
        VideoCodecHint::from_codec_str("mp4a.40.2"),
        VideoCodecHint::Unknown
    );
}

#[test]
fn codec_hint_ignores_case_and_surrounding_space() {
    assert_eq!(VideoCodecHint::from_codec_str("  DVHE.05.06 "), VideoCodecHint::Hevc);
    assert_eq!(VideoCodecHint::from_codec_str("\tAVC3.4d401f"), VideoCodecHint::Avc);
}

#[test]
fn fourcc_without_a_box_size_is_not_found_by_the_byte_scan() {
    let mut p = InitSegmentProbe::default();
    p.apply_fallback_box_scan(b"free-text-with-vexu-inside-and-tenc-too");
    assert!(!p.has_vexu);
    assert!(!p.has_tenc);
}

#[test]
fn byte_scan_accepts_a_sized_box() {
    let mut data = vec![0u8; 16];
    data.extend_from_slice(&8u32.to_be_bytes());
    data.extend_from_slice(b"vexu");
    let mut p = InitSegmentProbe::default();
    p.apply_fallback_box_scan(&data);
    assert!(p.has_vexu);
    assert!(!p.has_mdcv);
}

#[test]
fn ts_continuity_breaks_when_a_counter_skips() {
    let mut data = vec![0u8; 188 * 3];
    for (k, cc) in [(0usize, 0u8), (1, 1), (2, 3)] {
        data[188 * k] = 0x47;
        data[188 * k + 1] = 0x01;
        data[188 * k + 2] = 0x00;
        data[188 * k + 3] = 0x10 | cc;
    }
    let s = scan_segment_bytes(&data, VideoCodecHint::Unknown);
    assert_eq!(s.ts_continuity_ok, Some(false));
    data[188 * 2 + 3] = 0x12;
    let s = scan_segment_bytes(&data, VideoCodecHint::Unknown);
    assert_eq!(s.ts_continuity_ok, Some(true));
}

#[test]
fn tfdt_decode_time_is_read_from_a_version_1_box() {
    let mut traf_body = Vec::new();
    traf_body.extend_from_slice(&20u32.to_be_bytes());
    traf_body.extend_from_slice(b"tfdt");
    traf_body.extend_from_slice(&[1, 0, 0, 0]);
    traf_body.extend_from_slice(&0x0000_0001_0000_0002u64.to_be_bytes());
    let mut traf = ((traf_body.len() + 8) as u32).to_be_bytes().to_vec();
    traf.extend_from_slice(b"traf");
    traf.extend_from_slice(&traf_body);
    let mut moof = ((traf.len() + 8) as u32).to_be_bytes().to_vec();
    moof.extend_from_slice(b"moof");
    moof.extend_from_slice(&traf);
    let s = scan_segment_bytes(&moof, VideoCodecHint::Unknown);
    assert!(s.has_moof);
    assert!(s.has_tfdt);
    assert_eq!(s.tfdt_base_media_decode_time, Some(0x0000_0001_0000_0002));
}

#[test]
fn brands_are_the_major_then_the_compatible_ones() {
    let p = InitSegmentProbe {
        major_brand: Some(String::from("mp42")),
        compatible_brands: vec![String::from("ISO6"), String::from("avc1")],
        ..InitSegmentProbe::default()
    };
    assert_eq!(p.all_brands(), vec!["mp42", "ISO6", "avc1"]);
    assert!(p.has_iso6_compatible_brand());
    assert!(p.looks_like_fmp4_init());
    assert!(!InitSegmentProbe::default().looks_like_fmp4_init());
}

#[test]
fn unknown_codec_finds_the_idr_that_either_codec_finds() {
    // 0x65 is an H.264 IDR; 0x26 is an HEVC IDR_W_RADL header.
    for header in [0x65u8, 0x26u8] {
        let data = mdat(&length_prefixed_nal(header, 32));
        let unknown = scan_segment_bytes(&data, VideoCodecHint::Unknown);
        for codec in [VideoCodecHint::Avc, VideoCodecHint::Hevc] {
            if scan_segment_bytes(&data, codec).has_idr_nal_hint {
                assert!(unknown.has_idr_nal_hint);
            }
        }
        assert!(unknown.has_idr_nal_hint);
    }
}

#[test]
fn box_size_past_the_end_of_a_64_bit_size_ends_the_walk() {
    // A moof whose 64-bit size runs far past the data: the walk stops at it.
    let mut data = 1u32.to_be_bytes().to_vec();
    data.extend_from_slice(b"moof");
    data.extend_from_slice(&u64::MAX.to_be_bytes());
    data.extend_from_slice(&[0u8; 16]);
    let s = scan_segment_bytes(&data, VideoCodecHint::Unknown);
    assert!(!s.has_moof);
    assert!(!s.looks_like_ts);
}

#[test]
fn empty_probe() {
    let p = probe_init_segment(&[]);
    assert!(p.major_brand.is_none());
}

#[test]
fn ascii_fourcc_without_a_box_size_is_not_a_box() {
    // The four bytes ahead of "vexu" read as a ~1.7 GB size, so nothing here
    // looks like a box even though the fourCC is present verbatim.
    let p = probe_init_segment(b"free-text-with-vexu-inside-and-tenc-too");
    assert!(!p.has_vexu);
    assert!(!p.has_tenc);
}

#[test]
fn fallback_scan_accepts_a_sized_box() {
    let mut data = vec![0u8; 16];
    data.extend_from_slice(&8u32.to_be_bytes());
    data.extend_from_slice(b"vexu");
    assert!(probe_init_segment(&data).has_vexu);
}

fn init_box(kind: &[u8; 4], body: &[u8]) -> Vec<u8> {
    let mut out = ((body.len() + 8) as u32).to_be_bytes().to_vec();
    out.extend_from_slice(kind);
    out.extend_from_slice(body);
    out
}

#[test]
fn header_walk_descends_into_containers_and_marks_boxes() {
    let traf = init_box(b"traf", &[init_box(b"senc", &[0; 8]), init_box(b"saiz", &[0; 4])].concat());
    let moof = init_box(b"moof", &traf);
    let mut data = init_box(b"ftyp", b"isom\0\0\0\0");
    data.extend(moof);
    data.extend(init_box(b"lhvC", &[0; 4]));
    let p = probe_init_segment(&data);
    assert!(p.has_senc);
    assert!(p.has_saiz);
    assert!(!p.has_saio);
    assert!(p.has_lhvc);
}

#[test]
fn header_walk_stops_at_a_box_running_past_the_end() {
    // `free` claims 64 bytes but only 8 follow: the walk stops there, so the `senc` after
    // it is never read (and the byte scan does not look for `senc`).
    let mut data = 64u32.to_be_bytes().to_vec();
    data.extend_from_slice(b"free");
    data.extend(init_box(b"senc", &[0; 0]));
    let p = probe_init_segment(&data);
    assert!(!p.has_senc);
    // A 64-bit size header is read as well.
    let mut big = 1u32.to_be_bytes().to_vec();
    big.extend_from_slice(b"saio");
    big.extend_from_slice(&16u64.to_be_bytes());
    assert!(probe_init_segment(&big).has_saio);
}
