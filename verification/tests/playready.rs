use hls_inspect::playready::object::{parse_pssh_data, parse_wrm_header};
use hls_inspect::playready::types::{ParseError, PlayReadyRecordType};

/// A PlayReady Object holding one rights-management record with `xml` as its WRM header.
fn object(xml: &str) -> Vec<u8> {
    let body: Vec<u8> = xml.encode_utf16().flat_map(|u| u.to_le_bytes()).collect();
    let total = 4 + 2 + 2 + 2 + body.len();
    let mut out = (total as u32).to_le_bytes().to_vec();
    out.extend_from_slice(&1u16.to_le_bytes());
    out.extend_from_slice(&1u16.to_le_bytes());
    out.extend_from_slice(&(body.len() as u16).to_le_bytes());
    out.extend_from_slice(&body);
    out
}

const HEADER: &str = r#"<WRMHEADER xmlns="http://schemas.microsoft.com/DRM/2007/03/PlayReadyHeader" version="4.3.0.0"><DATA><PROTECTINFO><KIDS><KID ALGID="AESCBC" VALUE="AAAAAAAAAAAAAAAAAAAAAA=="></KID></KIDS></PROTECTINFO><LA_URL>https://license.example.com/rightsmanager.asmx?a=1&amp;b=2</LA_URL><CUSTOMATTRIBUTES><IIS_DRM_VERSION>8.0</IIS_DRM_VERSION></CUSTOMATTRIBUTES></DATA></WRMHEADER>"#;

#[test]
fn a_rights_management_record_is_read() {
    let data = parse_pssh_data(&object(HEADER)).expect("a PlayReady Object");
    assert_eq!(data.record.len(), 1);
    let record = &data.record[0];
    assert_eq!(record.record_type, PlayReadyRecordType::RightsManagement);
    let header = &record.record_value;
    assert_eq!(header.version, "4.3.0.0");
    assert_eq!(header.xmlns, "http://schemas.microsoft.com/DRM/2007/03/PlayReadyHeader");
    let pi = header.data.protect_info.as_ref().expect("a PROTECTINFO");
    assert_eq!(pi.kids.len(), 1);
    assert_eq!(pi.kids[0].value.as_deref(), Some("AAAAAAAAAAAAAAAAAAAAAA=="));
    assert_eq!(pi.kids[0].algid.as_deref(), Some("AESCBC"));
    assert!(header.data.kids.is_empty());
    assert_eq!(
        header.data.la_url.as_deref(),
        Some("https://license.example.com/rightsmanager.asmx?a=1&amp;b=2")
    );
    assert_eq!(
        header.data.custom_attributes.as_deref(),
        Some("<CUSTOMATTRIBUTES><IIS_DRM_VERSION>8.0</IIS_DRM_VERSION></CUSTOMATTRIBUTES>")
    );
}

#[test]
fn an_older_header_with_a_kid_under_data_and_a_key_length() {
    let xml = r#"<WRMHEADER version="4.0.0.0"><DATA><PROTECTINFO><KEYLEN>16</KEYLEN><ALGID>AESCTR</ALGID></PROTECTINFO><KID>ABCDEF==</KID><CHECKSUM>xyz</CHECKSUM></DATA></WRMHEADER>"#;
    let header = parse_wrm_header(xml).expect("a header");
    assert_eq!(header.xmlns, "http://schemas.microsoft.com/DRM/2007/03/PlayReadyHeader");
    let pi = header.data.protect_info.as_ref().expect("a PROTECTINFO");
    assert_eq!(pi.keylen, Some(16));
    assert_eq!(pi.algid.as_deref(), Some("AESCTR"));
    assert_eq!(header.data.kids.len(), 1);
    assert_eq!(header.data.kids[0].value.as_deref(), Some("ABCDEF=="));
    assert_eq!(header.data.checksum.as_deref(), Some("xyz"));
    assert_eq!(header.data.custom_attributes.as_deref(), Some(""));
}

#[test]
fn what_a_header_lacks_is_an_error_of_its_own() {
    assert!(matches!(parse_wrm_header(r#"<WRMHEADER version="4.0.0.0"></WRMHEADER>"#), Err(ParseError::NoWrmData)));
    assert!(matches!(parse_wrm_header("<WRMHEADER><DATA></DATA></WRMHEADER>"), Err(ParseError::NoVersion)));
    assert!(matches!(parse_wrm_header(r#"<WRMHEADER version="1"><DATA><LA_URL>x"#), Err(ParseError::UnexpectedEndOfXml)));
}

#[test]
fn the_framing_is_checked_before_the_xml() {
    assert!(matches!(parse_pssh_data(&[1, 2]), Err(ParseError::Io)));
    let mut data = object(HEADER);
    data[0] = data[0].wrapping_add(1);
    match parse_pssh_data(&data) {
        Err(ParseError::UnexpectedDataLength { actual, expected }) => {
            assert_eq!(actual as usize, data.len());
            assert_eq!(expected as usize, data.len() + 1);
        }
        other => panic!("expected a length error, got {other:?}"),
    }
    let mut other_type = object(HEADER);
    other_type[6] = 3;
    assert!(matches!(parse_pssh_data(&other_type), Err(ParseError::UnknownType(3))));
}

#[test]
fn an_unpaired_surrogate_is_not_utf16() {
    let mut data = object("ab");
    let n = data.len();
    data[n - 2] = 0x00;
    data[n - 1] = 0xD8;
    assert!(matches!(parse_pssh_data(&data), Err(ParseError::Utf16)));
}
