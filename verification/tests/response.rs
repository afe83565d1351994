use hls_inspect::network::FetchArrayBufferResonse;
use hls_inspect::response::{determine_segment_type, probe_is_mp4, probe_is_webvtt, probe_url, SegmentType};

fn response(content_type: Option<&str>, url: &str, body: Vec<u8>) -> FetchArrayBufferResonse {
    FetchArrayBufferResonse {
        response_body: body,
        content_type: content_type.map(str::to_string),
        url: url.to_string(),
        status: 200,
    }
}

#[test]
fn probe_url_mp4_file_extension_should_work() {
    assert_eq!(Some(SegmentType::Mp4), probe_url("https://example.com/file.mp4"));
}

#[test]
fn probe_url_m4s_file_extension_should_work() {
    assert_eq!(Some(SegmentType::Mp4), probe_url("https://example.com/file.m4s"));
}

#[test]
fn probe_url_vtt_file_extension_should_work() {
    assert_eq!(Some(SegmentType::WebVtt), probe_url("https://example.com/file.vtt"));
}

#[test]
fn probe_url_m3u8_file_extension_should_not_work() {
    assert_eq!(None, probe_url("https://example.com/file.m3u8"));
}

#[test]
fn probe_url_no_file_extension_should_not_work() {
    assert_eq!(None, probe_url("https://example.com/file"));
}

#[test]
fn the_content_type_is_read_before_the_url() {
    let r = response(Some("text/vtt"), "https://example.com/file.mp4", Vec::new());
    assert_eq!(determine_segment_type(&r), SegmentType::WebVtt);
    let r = response(Some("video/iso.segment"), "https://example.com/file.vtt", Vec::new());
    assert_eq!(determine_segment_type(&r), SegmentType::Mp4);
}

#[test]
fn the_bytes_decide_where_nothing_else_does() {
    let mut vtt = vec![0xEF, 0xBB, 0xBF];
    vtt.extend_from_slice(b"WEBVTT\n");
    assert!(probe_is_webvtt(&vtt));
    assert!(probe_is_webvtt(b"WEBVTT"));
    assert!(!probe_is_webvtt(b"WEBVT"));
    let r = response(None, "not a url", vtt);
    assert_eq!(determine_segment_type(&r), SegmentType::WebVtt);
    let r = response(Some("application/octet-stream"), "https://example.com/x", b"junk".to_vec());
    assert_eq!(determine_segment_type(&r), SegmentType::Unknown);
}

#[test]
fn an_ftyp_or_moof_box_marks_mp4() {
    let mut ftyp = 16u32.to_be_bytes().to_vec();
    ftyp.extend_from_slice(b"ftyp");
    ftyp.extend_from_slice(b"isom");
    ftyp.extend_from_slice(&0u32.to_be_bytes());
    assert!(probe_is_mp4(&ftyp));
    // A compatible brand that is cut short does not decode.
    let mut short = 18u32.to_be_bytes().to_vec();
    short.extend_from_slice(b"ftyp");
    short.extend_from_slice(&[0u8; 10]);
    assert!(!probe_is_mp4(&short));
    let mut moof = 8u32.to_be_bytes().to_vec();
    moof.extend_from_slice(b"moof");
    assert!(probe_is_mp4(&moof));
    // Header after header, with no body skipped: a `styp` header followed by a `moof` header.
    let mut styp = 8u32.to_be_bytes().to_vec();
    styp.extend_from_slice(b"styp");
    styp.extend_from_slice(&moof);
    assert!(probe_is_mp4(&styp));
    let r = response(None, "https://example.com/x", moof);
    assert_eq!(determine_segment_type(&r), SegmentType::Mp4);
    assert!(!probe_is_mp4(&[0, 0, 0, 4, b'a', b'b', b'c', b'd']));
    assert!(!probe_is_mp4(&[]));
}
