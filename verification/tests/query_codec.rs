use hls_inspect::network::RequestRange;
use hls_inspect::query_codec::{
    decode_definitions, encode_definitions, DecodeDefinitionsError,
    MediaSegmentContext, PartSegmentContext, Scte35CommandType, Scte35Context,
    SupplementalViewQueryContext,
};
use hls_inspect::validator::text_map::TextMap;

const URL: &str = "https://example.com/file.mp4";
const URL_ENCODING_NEEDED: &str = "https://example.com/file.mp4?one=1&two=2";
const ENCODED_STR: &str = "https://example.com/file.mp4?one%3D1%26two%3D2";
const MS: u64 = 100;
const BYTERANGE: RequestRange = RequestRange { start: 0, end: 100 };

const SCTE35_OUT_MESSAGE: &str = "0xfc303e0000000000000000c00506fe702f81fa0028022643554549000000017fff0000e297d00e1270636b5f455030343435303730333036393522040695798fb9";
const SCTE35_IN_MESSAGE: &str = "0xfc30390000000000000000c00506fe702f81fa0023022143554549000000037fbf0e1270636b5f455030343435303730333036393521040752f6e800";

fn assert_codec_same(string: String, context: SupplementalViewQueryContext) {
    assert_eq!(string, context.encode());
    assert_eq!(
        Ok(context),
        SupplementalViewQueryContext::try_from_str(string.as_str())
    );
}

fn assert_codec(encoded: String, decoded: String, context: SupplementalViewQueryContext) {
    assert_eq!(encoded, context.encode());
    assert_eq!(
        Ok(context),
        SupplementalViewQueryContext::try_from_str(decoded.as_str())
    );
}

fn media(url: &str, byterange: Option<RequestRange>) -> MediaSegmentContext {
    MediaSegmentContext {
        url: url.to_string(),
        media_sequence: MS,
        byterange,
    }
}

#[test]
fn encode_decode_segment_with_byterange() {
    assert_codec_same(
        format!("SEGMENT,{MS},{},{URL}", BYTERANGE.to_text()),
        SupplementalViewQueryContext::Segment(media(URL, Some(BYTERANGE))),
    );
    assert_codec(
        format!("SEGMENT,{MS},{},{ENCODED_STR}", BYTERANGE.to_text()),
        format!("SEGMENT,{MS},{},{URL_ENCODING_NEEDED}", BYTERANGE.to_text()),
        SupplementalViewQueryContext::Segment(media(URL_ENCODING_NEEDED, Some(BYTERANGE))),
    );
}

#[test]
fn encode_decode_map_with_byterange() {
    assert_codec_same(
        format!("MAP,{MS},{},{URL}", BYTERANGE.to_text()),
        SupplementalViewQueryContext::InitializationMap(media(URL, Some(BYTERANGE))),
    );
    assert_codec(
        format!("MAP,{MS},{},{ENCODED_STR}", BYTERANGE.to_text()),
        format!("MAP,{MS},{},{URL_ENCODING_NEEDED}", BYTERANGE.to_text()),
        SupplementalViewQueryContext::InitializationMap(media(URL_ENCODING_NEEDED, Some(BYTERANGE))),
    );
}

#[test]
fn encode_decode_part_with_byterange() {
    assert_codec_same(
        format!("PART,0,{MS},{},{URL}", BYTERANGE.to_text()),
        SupplementalViewQueryContext::Part(PartSegmentContext {
            segment_context: media(URL, Some(BYTERANGE)),
            part_index: 0,
        }),
    );
    assert_codec(
        format!("PART,0,{MS},{},{ENCODED_STR}", BYTERANGE.to_text()),
        format!("PART,0,{MS},{},{URL_ENCODING_NEEDED}", BYTERANGE.to_text()),
        SupplementalViewQueryContext::Part(PartSegmentContext {
            segment_context: media(URL_ENCODING_NEEDED, Some(BYTERANGE)),
            part_index: 0,
        }),
    );
}

#[test]
fn encode_decode_segment_without_byterange() {
    assert_codec_same(
        format!("SEGMENT,{MS},-,{URL}"),
        SupplementalViewQueryContext::Segment(media(URL, None)),
    );
    assert_codec(
        format!("SEGMENT,{MS},-,{ENCODED_STR}"),
        format!("SEGMENT,{MS},-,{URL_ENCODING_NEEDED}"),
        SupplementalViewQueryContext::Segment(media(URL_ENCODING_NEEDED, None)),
    );
}

#[test]
fn encode_decode_map_without_byterange() {
    assert_codec_same(
        format!("MAP,{MS},-,{URL}"),
        SupplementalViewQueryContext::InitializationMap(media(URL, None)),
    );
    assert_codec(
        format!("MAP,{MS},-,{ENCODED_STR}"),
        format!("MAP,{MS},-,{URL_ENCODING_NEEDED}"),
        SupplementalViewQueryContext::InitializationMap(media(URL_ENCODING_NEEDED, None)),
    );
}

#[test]
fn encode_decode_part_without_byterange() {
    assert_codec_same(
        format!("PART,0,{MS},-,{URL}"),
        SupplementalViewQueryContext::Part(PartSegmentContext {
            segment_context: media(URL, None),
            part_index: 0,
        }),
    );
    assert_codec(
        format!("PART,0,{MS},-,{ENCODED_STR}"),
        format!("PART,0,{MS},-,{URL_ENCODING_NEEDED}"),
        SupplementalViewQueryContext::Part(PartSegmentContext {
            segment_context: media(URL_ENCODING_NEEDED, None),
            part_index: 0,
        }),
    );
}

#[test]
fn encode_scte35_should_encode_out() {
    assert_codec(
        format!("SCTE35,OUT,0x22-1-1755722246%22{SCTE35_OUT_MESSAGE}"),
        format!("SCTE35,OUT,0x22-1-1755722246\"{SCTE35_OUT_MESSAGE}"),
        SupplementalViewQueryContext::Scte35(Scte35Context {
            message: String::from(SCTE35_OUT_MESSAGE),
            daterange_id: String::from("0x22-1-1755722246"),
            command_type: Scte35CommandType::Out,
        }),
    );
}

#[test]
fn encode_scte35_should_encode_in() {
    assert_codec(
        format!("SCTE35,IN,0x20-3-1755721822%22{SCTE35_IN_MESSAGE}"),
        format!("SCTE35,IN,0x20-3-1755721822\"{SCTE35_IN_MESSAGE}"),
        SupplementalViewQueryContext::Scte35(Scte35Context {
            message: String::from(SCTE35_IN_MESSAGE),
            daterange_id: String::from("0x20-3-1755721822"),
            command_type: Scte35CommandType::In,
        }),
    );
}

#[test]
fn encode_scte35_should_encode_and_percent_encode_id() {
    assert_codec(
        format!("SCTE35,CMD,test%3Dtrue%22{SCTE35_IN_MESSAGE}"),
        format!("SCTE35,CMD,test=true\"{SCTE35_IN_MESSAGE}"),
        SupplementalViewQueryContext::Scte35(Scte35Context {
            message: String::from(SCTE35_IN_MESSAGE),
            daterange_id: String::from("test=true"),
            command_type: Scte35CommandType::Cmd,
        }),
    );
}

fn definitions_from(values: &[(&str, &str)]) -> TextMap {
    let mut map = TextMap::new();
    for (key, value) in values {
        map.insert(key.to_string(), value.to_string());
    }
    map
}

fn assert_same_definitions(expected: &TextMap, actual: &TextMap) {
    assert_eq!(expected.entry_count(), actual.entry_count());
    for i in 0..expected.entry_count() {
        let (name, value) = expected.entry_at(i);
        assert_eq!(Some(value), actual.get(name.as_str()));
    }
}

fn assert_definitions_codec(query_value: &str, definitions: &TextMap) {
    assert_eq!(query_value, encode_definitions(definitions).as_str());
    let decoded = decode_definitions(query_value).expect("definitions decode");
    assert_same_definitions(definitions, &decoded);
}

#[test]
fn encode_decode_definitions_for_single_definition() {
    let definitions = definitions_from(&[("hello", "world")]);
    assert_definitions_codec("hello%3Dworld", &definitions);
}

#[test]
fn encode_decode_definitions_for_multiple_definitions() {
    let definitions = definitions_from(&[
        ("hello", "world"),
        ("meaning", "42"),
        ("question", "unknown"),
    ]);
    assert_definitions_codec(
        "hello%3Dworld%22meaning%3D42%22question%3Dunknown",
        &definitions,
    );
}

#[test]
fn encode_decode_definitions_with_some_characters_not_allowed_in_query() {
    let definitions = definitions_from(&[("first", "# <wow>&<now>"), ("next", "<=>")]);
    assert_definitions_codec(
        "first%3D%23%20%3Cwow%3E%26%3Cnow%3E%22next%3D%3C%3D%3E",
        &definitions,
    );
}

#[test]
fn decode_definitions_of_empty_value_gives_one_empty_definition() {
    let decoded = decode_definitions("").expect("empty value decodes");
    assert_eq!(1, decoded.entry_count());
    assert_eq!(Some(&String::new()), decoded.get(""));
}

#[test]
fn decode_definitions_later_definition_replaces_earlier() {
    let decoded = decode_definitions("a%3D1%22a%3D2%22b").expect("decodes");
    assert_eq!(2, decoded.entry_count());
    assert_eq!(Some(&String::from("2")), decoded.get("a"));
    assert_eq!(Some(&String::new()), decoded.get("b"));
}

#[test]
fn decode_definitions_rejects_invalid_utf8() {
    assert!(matches!(
        decode_definitions("a%3D%FF"),
        Err(DecodeDefinitionsError::Utf8Error)
    ));
}

#[test]
fn decode_definitions_keeps_lone_percent() {
    let decoded = decode_definitions("a%3D5%25%2").expect("decodes");
    assert_eq!(Some(&String::from("5%%2")), decoded.get("a"));
}
