use vstd::prelude::*;
use vstd::string::StringExecFns;
use vstd::string::StrSliceExecFns;
use vstd::utf8::{
    decode_utf8, encode_utf8, encode_utf8_decode_utf8, encode_utf8_valid_utf8, is_ascii_chars,
    is_ascii_chars_encode_utf8, valid_utf8,
};
use crate::validator::text_map::{spec_pairs_map, TextMap};
use crate::text::{find_from, lemma_find_from_bounds, spec_find_from};
use std::num::ParseIntError;
use crate::network::{spec_range_text, RequestRange};
use crate::text::{
    lemma_decimal_round_trip, push_char, push_decimal, push_str, spec_decimal,
    spec_unsigned_text,
};

verus! {

#[verifier::external_type_specification]
#[verifier::external_body]
pub struct ExParseIntError(ParseIntError);

/// `Clone` for `ParseIntError`, which the error types here derive; nothing is claimed of
/// the copy.
pub assume_specification[ <ParseIntError as Clone>::clone ](e: &ParseIntError) -> ParseIntError;

/// The value of a `u64` written as text, or `None` when the text is not one.
pub open spec fn spec_u64_text(s: Seq<char>) -> Option<u64> {
    match spec_unsigned_text(s) {
        Some(n) => if n <= u64::MAX {
            Some(n as u64)
        } else {
            None
        },
        None => None,
    }
}

/// The value of a `u32` written as text, or `None` when the text is not one.
pub open spec fn spec_u32_text(s: Seq<char>) -> Option<u32> {
    match spec_unsigned_text(s) {
        Some(n) => if n <= u32::MAX {
            Some(n as u32)
        } else {
            None
        },
        None => None,
    }
}

/// `str::parse::<u64>`: claims, as std documents for unsigned integers, that it accepts
/// exactly an optional `+` followed by one or more decimal digits whose value fits, and
/// returns that value.
#[verifier::external_body]
pub(crate) fn parse_u64(s: &str) -> (r: Result<u64, ParseIntError>)
    ensures
        match r {
            Ok(v) => spec_u64_text(s@) == Some(v),
            Err(_) => spec_u64_text(s@) is None,
        },
{
    s.parse::<u64>()
}

/// `str::parse::<u32>`, with the same claims as for `u64`.
#[verifier::external_body]
pub(crate) fn parse_u32(s: &str) -> (r: Result<u32, ParseIntError>)
    ensures
        match r {
            Ok(v) => spec_u32_text(s@) == Some(v),
            Err(_) => spec_u32_text(s@) is None,
        },
{
    s.parse::<u32>()
}

// ---------------------------------------------------------------------------------------
// Percent encoding

/// The bytes that a query value escapes besides non-ASCII bytes: the C0 controls and DEL,
/// then space, `"`, `#`, `<` and `>` (the URL standard's query set), `&` and `=` (so that
/// an embedded URL cannot split the query), and `%` (so that decoding is unambiguous).
pub open spec fn spec_in_query_set(b: u8) -> bool {
    b < 0x20 || b == 0x7f || b == 0x20 || b == 0x22 || b == 0x23 || b == 0x3c || b == 0x3e
        || b == 0x26 || b == 0x3d || b == 0x25
}

/// The upper-case hexadecimal digit of `n`, for `n` below 16.
pub open spec fn spec_upper_hex(n: int) -> char {
    if n < 10 {
        (48 + n) as char
    } else {
        (55 + n) as char
    }
}

/// One byte of a query value: `%` and two upper-case hexadecimal digits when it is escaped,
/// else the byte's own ASCII character.
pub open spec fn spec_encoded_byte(b: u8) -> Seq<char> {
    if b >= 0x80 || spec_in_query_set(b) {
        seq!['%', spec_upper_hex((b / 16) as int), spec_upper_hex((b % 16) as int)]
    } else {
        seq![b as char]
    }
}

/// Every byte of `bytes`, encoded in turn.
pub open spec fn spec_percent_encoded(bytes: Seq<u8>) -> Seq<char>
    decreases bytes.len(),
{
    if bytes.len() == 0 {
        Seq::empty()
    } else {
        spec_percent_encoded(bytes.drop_last()) + spec_encoded_byte(bytes.last())
    }
}

fn upper_hex(n: u8) -> (c: char)
    requires
        n < 16,
    ensures
        c == spec_upper_hex(n as int),
{
    match n {
        0 => '0',
        1 => '1',
        2 => '2',
        3 => '3',
        4 => '4',
        5 => '5',
        6 => '6',
        7 => '7',
        8 => '8',
        9 => '9',
        10 => 'A',
        11 => 'B',
        12 => 'C',
        13 => 'D',
        14 => 'E',
        _ => 'F',
    }
}

/// Percent-encodes a value for use inside a URL query: each byte of its UTF-8 form that is
/// not ASCII or is in the query set becomes `%XX`, every other byte stays as it is.
pub fn percent_encode(value: &str) -> (r: String)
    ensures
        r@ == spec_percent_encoded(encode_utf8(value@)),
{
    let bytes = value.as_bytes();
    let mut out = String::new();
    let mut i: usize = 0;
    assert(bytes@.subrange(0, 0) =~= Seq::<u8>::empty());
    while i < bytes.len()
        invariant
            i <= bytes@.len(),
            bytes@ == encode_utf8(value@),
            out@ == spec_percent_encoded(bytes@.subrange(0, i as int)),
        decreases bytes.len() - i,
    {
        let b = bytes[i];
        let escaped = b >= 0x80 || b < 0x20 || b == 0x7f || b == 0x20 || b == 0x22 || b == 0x23
            || b == 0x3c || b == 0x3e || b == 0x26 || b == 0x3d || b == 0x25;
        if escaped {
            push_char(&mut out, '%');
            push_char(&mut out, upper_hex(b / 16));
            push_char(&mut out, upper_hex(b % 16));
        } else {
            push_char(&mut out, b as char);
        }
        proof {
            let sub = bytes@.subrange(0, i + 1);
            assert(sub.drop_last() =~= bytes@.subrange(0, i as int));
            assert(sub.last() == b);
            assert(out@ =~= spec_percent_encoded(sub));
        }
        i = i + 1;
    }
    assert(bytes@.subrange(0, bytes@.len() as int) =~= bytes@);
    out
}

// ---------------------------------------------------------------------------------------
// Contexts

#[derive(Debug, Clone, PartialEq)]
pub struct MediaSegmentContext {
    pub url: String,
    pub media_sequence: u64,
    pub byterange: Option<RequestRange>,
}

#[derive(Debug, Clone, PartialEq)]
pub struct PartSegmentContext {
    pub segment_context: MediaSegmentContext,
    pub part_index: u32,
}

#[derive(Debug, Clone, Copy, PartialEq, Eq, Structural)]
pub enum Scte35CommandType {
    Out,
    In,
    Cmd,
}

/// How a command type is written.
pub open spec fn spec_command_text(c: Scte35CommandType) -> Seq<char> {
    match c {
        Scte35CommandType::Out => "OUT"@,
        Scte35CommandType::In => "IN"@,
        Scte35CommandType::Cmd => "CMD"@,
    }
}

/// The command type that some text names, if any.
pub open spec fn spec_command_from(s: Seq<char>) -> Option<Scte35CommandType> {
    if s == "OUT"@ {
        Some(Scte35CommandType::Out)
    } else if s == "IN"@ {
        Some(Scte35CommandType::In)
    } else if s == "CMD"@ {
        Some(Scte35CommandType::Cmd)
    } else {
        None
    }
}

/// A name that is not one of the command types.
#[derive(Debug, Clone, PartialEq)]
pub struct InvalidScte35CommandType(pub String);

impl InvalidScte35CommandType {
    /// The error as text.
    pub fn to_text(&self) -> (r: String)
        ensures
            r@ == "scte35 command type "@ + self.0@ + " is invalid"@,
    {
        let mut s = String::from_str("scte35 command type ");
        push_str(&mut s, self.0.as_str());
        push_str(&mut s, " is invalid");
        s
    }
}

impl Scte35CommandType {
    /// How the command type is written.
    pub fn to_text(&self) -> (r: &'static str)
        ensures
            r@ == spec_command_text(*self),
    {
        match self {
            Scte35CommandType::Out => "OUT",
            Scte35CommandType::In => "IN",
            Scte35CommandType::Cmd => "CMD",
        }
    }

    /// The command type that `value` names.
    pub fn try_from_str(value: &str) -> (r: Result<Scte35CommandType, InvalidScte35CommandType>)
        ensures
            match r {
                Ok(c) => spec_command_from(value@) == Some(c),
                Err(e) => spec_command_from(value@) is None && e.0@ == value@,
            },
    {
        proof {
            reveal_strlit("OUT");
            reveal_strlit("IN");
            reveal_strlit("CMD");
        }
        if str_equals(value, "OUT") {
            Ok(Scte35CommandType::Out)
        } else if str_equals(value, "IN") {
            Ok(Scte35CommandType::In)
        } else if str_equals(value, "CMD") {
            Ok(Scte35CommandType::Cmd)
        } else {
            Err(InvalidScte35CommandType(String::from_str(value)))
        }
    }
}

#[derive(Debug, Clone, PartialEq)]
pub struct Scte35Context {
    pub message: String,
    pub daterange_id: String,
    pub command_type: Scte35CommandType,
}

/// What a supplemental view is opened on, as carried in its query string.
#[derive(Debug, Clone, PartialEq)]
pub enum SupplementalViewQueryContext {
    Segment(MediaSegmentContext),
    InitializationMap(MediaSegmentContext),
    Part(PartSegmentContext),
    Scte35(Scte35Context),
}

#[derive(Debug, Clone, PartialEq)]
pub enum SupplementalViewQueryContextDecodeError {
    NoContextType,
    UnknownContextType(String),
    EmptyContextValue,
    MissingMediaSequencePart,
    MediaSequencePartParseIntFailure(ParseIntError),
    MissingRangePart,
    RangeParseFailure,
    MissingUrlPart,
    MissingPartIndex,
    PartIndexParseIntFailure(ParseIntError),
    MissingCommandType,
    InvalidCommandType(InvalidScte35CommandType),
    MissingDaterangeId,
    MissingScte35Message,
}

#[derive(Debug, Clone, PartialEq)]
pub enum DecodeDefinitionsError {
    Utf8Error,
    MalformedDefinitionMissingName,
}

/// Character-by-character equality of two strings.
pub(crate) fn str_equals(a: &str, b: &str) -> (r: bool)
    ensures
        r == (a@ == b@),
{
    let n = a.unicode_len();
    if n != b.unicode_len() {
        return false;
    }
    let mut i: usize = 0;
    while i < n
        invariant
            i <= n,
            n == a@.len(),
            n == b@.len(),
            forall|j: int| 0 <= j < i ==> a@[j] == b@[j],
        decreases n - i,
    {
        if a.get_char(i) != b.get_char(i) {
            return false;
        }
        i = i + 1;
    }
    assert(a@ =~= b@);
    true
}

// ---------------------------------------------------------------------------------------
// Encoding

/// The range field of a context: the range's text, or `-` for none.
pub open spec fn spec_range_field(b: Option<RequestRange>) -> Seq<char> {
    match b {
        Some(r) => spec_range_text(r),
        None => seq!['-'],
    }
}

/// The fields that segments, maps and parts share: media sequence, range and URL.
pub open spec fn spec_media_fields(url: Seq<char>, media_sequence: u64, byterange: Option<RequestRange>) -> Seq<char> {
    spec_decimal(media_sequence as nat) + seq![','] + spec_range_field(byterange) + seq![','] + url
}

/// The unencoded query value of a segment.
pub open spec fn spec_raw_segment(url: Seq<char>, media_sequence: u64, byterange: Option<RequestRange>) -> Seq<char> {
    "SEGMENT"@ + seq![','] + spec_media_fields(url, media_sequence, byterange)
}

/// The unencoded query value of a map.
pub open spec fn spec_raw_map(url: Seq<char>, media_sequence: u64, byterange: Option<RequestRange>) -> Seq<char> {
    "MAP"@ + seq![','] + spec_media_fields(url, media_sequence, byterange)
}

/// The unencoded query value of a part.
pub open spec fn spec_raw_part(
    url: Seq<char>,
    media_sequence: u64,
    part_index: u32,
    byterange: Option<RequestRange>,
) -> Seq<char> {
    "PART"@ + seq![','] + spec_decimal(part_index as nat) + seq![','] + spec_media_fields(
        url,
        media_sequence,
        byterange,
    )
}

/// The unencoded query value of an SCTE-35 message: the daterange id and the message are
/// separated by a double quote, which a quoted-string attribute value cannot contain.
pub open spec fn spec_raw_scte35(message: Seq<char>, daterange_id: Seq<char>, command_type: Scte35CommandType) -> Seq<char> {
    "SCTE35"@ + seq![','] + spec_command_text(command_type) + seq![','] + daterange_id + seq!['"']
        + message
}

/// Appends the fields that segments, maps and parts share.
fn push_media_fields(s: &mut String, url: &str, media_sequence: u64, byterange: Option<RequestRange>)
    ensures
        final(s)@ == old(s)@ + spec_media_fields(url@, media_sequence, byterange),
{
    push_decimal(s, media_sequence);
    push_char(s, ',');
    match byterange {
        Some(r) => r.push_text(s),
        None => push_char(s, '-'),
    }
    push_char(s, ',');
    push_str(s, url);
    assert(s@ =~= old(s)@ + spec_media_fields(url@, media_sequence, byterange));
}

/// The query value that opens the view on a media segment.
pub fn encode_segment(url: &str, media_sequence: u64, byterange: Option<RequestRange>) -> (r: String)
    ensures
        r@ == spec_percent_encoded(encode_utf8(spec_raw_segment(url@, media_sequence, byterange))),
{
    let mut raw = String::from_str("SEGMENT,");
    push_media_fields(&mut raw, url, media_sequence, byterange);
    proof {
        reveal_strlit("SEGMENT,");
        reveal_strlit("SEGMENT");
        assert(raw@ =~= spec_raw_segment(url@, media_sequence, byterange));
    }
    percent_encode(raw.as_str())
}

/// The query value that opens the view on a media initialization section.
pub fn encode_map(url: &str, media_sequence: u64, byterange: Option<RequestRange>) -> (r: String)
    ensures
        r@ == spec_percent_encoded(encode_utf8(spec_raw_map(url@, media_sequence, byterange))),
{
    let mut raw = String::from_str("MAP,");
    push_media_fields(&mut raw, url, media_sequence, byterange);
    proof {
        reveal_strlit("MAP,");
        reveal_strlit("MAP");
        assert(raw@ =~= spec_raw_map(url@, media_sequence, byterange));
    }
    percent_encode(raw.as_str())
}

/// The query value that opens the view on a partial segment.
pub fn encode_part(url: &str, media_sequence: u64, part_index: u32, byterange: Option<RequestRange>) -> (r: String)
    ensures
        r@ == spec_percent_encoded(
            encode_utf8(spec_raw_part(url@, media_sequence, part_index, byterange)),
        ),
{
    let mut raw = String::from_str("PART,");
    push_decimal(&mut raw, part_index as u64);
    push_char(&mut raw, ',');
    push_media_fields(&mut raw, url, media_sequence, byterange);
    proof {
        reveal_strlit("PART,");
        reveal_strlit("PART");
        assert(raw@ =~= spec_raw_part(url@, media_sequence, part_index, byterange));
    }
    percent_encode(raw.as_str())
}

/// The query value that opens the view on an SCTE-35 message.
pub fn encode_scte35(message: &str, daterange_id: &str, command_type: Scte35CommandType) -> (r: String)
    ensures
        r@ == spec_percent_encoded(encode_utf8(spec_raw_scte35(message@, daterange_id@, command_type))),
{
    let mut raw = String::from_str("SCTE35,");
    push_str(&mut raw, command_type.to_text());
    push_char(&mut raw, ',');
    push_str(&mut raw, daterange_id);
    push_char(&mut raw, '"');
    push_str(&mut raw, message);
    proof {
        reveal_strlit("SCTE35,");
        reveal_strlit("SCTE35");
        assert(raw@ =~= spec_raw_scte35(message@, daterange_id@, command_type));
    }
    percent_encode(raw.as_str())
}

// ---------------------------------------------------------------------------------------
// Decoding

/// `s` split at its first `c`: what precedes it, and what follows it if there is one.
pub open spec fn spec_split(s: Seq<char>, c: char) -> (Seq<char>, Option<Seq<char>>) {
    let i = spec_find_from(s, c, 0);
    (s.subrange(0, i), if i < s.len() { Some(s.subrange(i + 1, s.len() as int)) } else { None })
}

/// Splits `s` at its first `c`.
fn split_first<'a>(s: &'a str, c: char) -> (r: (&'a str, Option<&'a str>))
    ensures
        r.0@ == spec_split(s@, c).0,
        match r.1 {
            Some(x) => spec_split(s@, c).1 == Some(x@),
            None => spec_split(s@, c).1 is None,
        },
{
    let n = s.unicode_len();
    let mut i: usize = 0;
    while i < n && s.get_char(i) != c
        invariant
            i <= n,
            n == s@.len(),
            spec_find_from(s@, c, i as int) == spec_find_from(s@, c, 0),
        decreases n - i,
    {
        i = i + 1;
    }
    let head = s.substring_char(0, i);
    if i < n {
        (head, Some(s.substring_char(i + 1, n)))
    } else {
        (head, None)
    }
}

/// A media segment context as plain values.
pub struct MediaModel {
    pub url: Seq<char>,
    pub media_sequence: u64,
    pub byterange: Option<RequestRange>,
}

/// A context as plain values.
pub enum ContextModel {
    Segment(MediaModel),
    InitializationMap(MediaModel),
    Part(MediaModel, u32),
    Scte35(Seq<char>, Seq<char>, Scte35CommandType),
}

/// A decode error as plain values; parse failures are known by their field only.
pub enum ErrorModel {
    NoContextType,
    UnknownContextType(Seq<char>),
    EmptyContextValue,
    MissingMediaSequencePart,
    MediaSequencePartParseIntFailure,
    MissingRangePart,
    RangeParseFailure,
    MissingUrlPart,
    MissingPartIndex,
    PartIndexParseIntFailure,
    MissingCommandType,
    InvalidCommandType(Seq<char>),
    MissingDaterangeId,
    MissingScte35Message,
}

pub open spec fn spec_media_view(m: MediaSegmentContext) -> MediaModel {
    MediaModel { url: m.url@, media_sequence: m.media_sequence, byterange: m.byterange }
}

pub open spec fn spec_context_view(c: SupplementalViewQueryContext) -> ContextModel {
    match c {
        SupplementalViewQueryContext::Segment(m) => ContextModel::Segment(spec_media_view(m)),
        SupplementalViewQueryContext::InitializationMap(m) => ContextModel::InitializationMap(spec_media_view(m)),
        SupplementalViewQueryContext::Part(p) => ContextModel::Part(spec_media_view(p.segment_context), p.part_index),
        SupplementalViewQueryContext::Scte35(x) => ContextModel::Scte35(x.message@, x.daterange_id@, x.command_type),
    }
}

pub open spec fn spec_error_view(e: SupplementalViewQueryContextDecodeError) -> ErrorModel {
    match e {
        SupplementalViewQueryContextDecodeError::NoContextType => ErrorModel::NoContextType,
        SupplementalViewQueryContextDecodeError::UnknownContextType(s) => ErrorModel::UnknownContextType(s@),
        SupplementalViewQueryContextDecodeError::EmptyContextValue => ErrorModel::EmptyContextValue,
        SupplementalViewQueryContextDecodeError::MissingMediaSequencePart => ErrorModel::MissingMediaSequencePart,
        SupplementalViewQueryContextDecodeError::MediaSequencePartParseIntFailure(_) => ErrorModel::MediaSequencePartParseIntFailure,
        SupplementalViewQueryContextDecodeError::MissingRangePart => ErrorModel::MissingRangePart,
        SupplementalViewQueryContextDecodeError::RangeParseFailure => ErrorModel::RangeParseFailure,
        SupplementalViewQueryContextDecodeError::MissingUrlPart => ErrorModel::MissingUrlPart,
        SupplementalViewQueryContextDecodeError::MissingPartIndex => ErrorModel::MissingPartIndex,
        SupplementalViewQueryContextDecodeError::PartIndexParseIntFailure(_) => ErrorModel::PartIndexParseIntFailure,
        SupplementalViewQueryContextDecodeError::MissingCommandType => ErrorModel::MissingCommandType,
        SupplementalViewQueryContextDecodeError::InvalidCommandType(i) => ErrorModel::InvalidCommandType(i.0@),
        SupplementalViewQueryContextDecodeError::MissingDaterangeId => ErrorModel::MissingDaterangeId,
        SupplementalViewQueryContextDecodeError::MissingScte35Message => ErrorModel::MissingScte35Message,
    }
}

/// The range field: `-` for none, else two `u64`s joined at the first hyphen.
pub open spec fn spec_parse_range(b: Seq<char>) -> Result<Option<RequestRange>, ErrorModel> {
    if b == seq!['-'] {
        Ok(None)
    } else {
        let (x, y) = spec_split(b, '-');
        match spec_u64_text(x) {
            None => Err(ErrorModel::RangeParseFailure),
            Some(start) => match y {
                None => Err(ErrorModel::RangeParseFailure),
                Some(yy) => match spec_u64_text(yy) {
                    Some(end) => Ok(Some(RequestRange { start, end })),
                    None => Err(ErrorModel::RangeParseFailure),
                },
            },
        }
    }
}

/// A media segment context: the media sequence, the range field and the URL, split at the
/// first two commas, so that the URL may hold commas of its own.
pub open spec fn spec_parse_media(v: Seq<char>) -> Result<MediaModel, ErrorModel> {
    let (a, rest1) = spec_split(v, ',');
    match spec_u64_text(a) {
        None => Err(ErrorModel::MediaSequencePartParseIntFailure),
        Some(ms) => match rest1 {
            None => Err(ErrorModel::MissingRangePart),
            Some(r1) => {
                let (b, rest2) = spec_split(r1, ',');
                match spec_parse_range(b) {
                    Err(e) => Err(e),
                    Ok(br) => match rest2 {
                        None => Err(ErrorModel::MissingUrlPart),
                        Some(url) => Ok(MediaModel { url, media_sequence: ms, byterange: br }),
                    },
                }
            },
        },
    }
}

/// A context: its type before the first comma, then the fields that the type calls for.
pub open spec fn spec_parse_context(s: Seq<char>) -> Result<ContextModel, ErrorModel> {
    let (t, rest) = spec_split(s, ',');
    if t == "SEGMENT"@ || t == "MAP"@ || t == "PART"@ || t == "SCTE35"@ {
        match rest {
            None => Err(ErrorModel::EmptyContextValue),
            Some(v) => if t == "SEGMENT"@ {
                match spec_parse_media(v) {
                    Ok(m) => Ok(ContextModel::Segment(m)),
                    Err(e) => Err(e),
                }
            } else if t == "MAP"@ {
                match spec_parse_media(v) {
                    Ok(m) => Ok(ContextModel::InitializationMap(m)),
                    Err(e) => Err(e),
                }
            } else if t == "PART"@ {
                let (pi, r2) = spec_split(v, ',');
                match spec_u32_text(pi) {
                    None => Err(ErrorModel::PartIndexParseIntFailure),
                    Some(idx) => match r2 {
                        None => Err(ErrorModel::MissingMediaSequencePart),
                        Some(m) => match spec_parse_media(m) {
                            Ok(mm) => Ok(ContextModel::Part(mm, idx)),
                            Err(e) => Err(e),
                        },
                    },
                }
            } else {
                let (ct, r2) = spec_split(v, ',');
                match spec_command_from(ct) {
                    None => Err(ErrorModel::InvalidCommandType(ct)),
                    Some(cmd) => match r2 {
                        None => Err(ErrorModel::MissingDaterangeId),
                        Some(r) => {
                            let (id, msg) = spec_split(r, '"');
                            match msg {
                                None => Err(ErrorModel::MissingScte35Message),
                                Some(m) => Ok(ContextModel::Scte35(m, id, cmd)),
                            }
                        },
                    },
                }
            },
        }
    } else {
        Err(ErrorModel::UnknownContextType(t))
    }
}

pub open spec fn spec_media_result(r: Result<MediaSegmentContext, SupplementalViewQueryContextDecodeError>) -> Result<MediaModel, ErrorModel> {
    match r {
        Ok(m) => Ok(spec_media_view(m)),
        Err(e) => Err(spec_error_view(e)),
    }
}

pub open spec fn spec_context_result(r: Result<SupplementalViewQueryContext, SupplementalViewQueryContextDecodeError>) -> Result<ContextModel, ErrorModel> {
    match r {
        Ok(c) => Ok(spec_context_view(c)),
        Err(e) => Err(spec_error_view(e)),
    }
}

fn parse_range(b: &str) -> (r: Result<Option<RequestRange>, SupplementalViewQueryContextDecodeError>)
    ensures
        match r {
            Ok(x) => spec_parse_range(b@) == Ok::<Option<RequestRange>, ErrorModel>(x),
            Err(e) => spec_parse_range(b@) == Err::<Option<RequestRange>, ErrorModel>(spec_error_view(e)),
        },
{
    proof {
        reveal_strlit("-");
        assert("-"@ =~= seq!['-']);
    }
    if str_equals(b, "-") {
        return Ok(None);
    }
    let (x, y) = split_first(b, '-');
    let start = match parse_u64(x) {
        Ok(v) => v,
        Err(_) => {
            return Err(SupplementalViewQueryContextDecodeError::RangeParseFailure);
        },
    };
    let yy = match y {
        Some(yy) => yy,
        None => {
            return Err(SupplementalViewQueryContextDecodeError::RangeParseFailure);
        },
    };
    match parse_u64(yy) {
        Ok(end) => Ok(Some(RequestRange { start, end })),
        Err(_) => Err(SupplementalViewQueryContextDecodeError::RangeParseFailure),
    }
}

impl MediaSegmentContext {
    /// Reads a media segment context: media sequence, range (`start-end` or `-`) and URL.
    pub fn try_from_str(value: &str) -> (r: Result<MediaSegmentContext, SupplementalViewQueryContextDecodeError>)
        ensures
            spec_media_result(r) == spec_parse_media(value@),
    {
        let (a, rest1) = split_first(value, ',');
        let media_sequence = match parse_u64(a) {
            Ok(v) => v,
            Err(e) => {
                return Err(SupplementalViewQueryContextDecodeError::MediaSequencePartParseIntFailure(e));
            },
        };
        let r1 = match rest1 {
            Some(r1) => r1,
            None => {
                return Err(SupplementalViewQueryContextDecodeError::MissingRangePart);
            },
        };
        let (b, rest2) = split_first(r1, ',');
        let byterange = match parse_range(b) {
            Ok(x) => x,
            Err(e) => {
                return Err(e);
            },
        };
        match rest2 {
            Some(url) => Ok(MediaSegmentContext { url: String::from_str(url), media_sequence, byterange }),
            None => Err(SupplementalViewQueryContextDecodeError::MissingUrlPart),
        }
    }
}

impl SupplementalViewQueryContext {
    /// Reads a context from its unencoded query value.
    pub fn try_from_str(value: &str) -> (r: Result<SupplementalViewQueryContext, SupplementalViewQueryContextDecodeError>)
        ensures
            spec_context_result(r) == spec_parse_context(value@),
    {
        proof {
            reveal_strlit("SEGMENT");
            reveal_strlit("MAP");
            reveal_strlit("PART");
            reveal_strlit("SCTE35");
        }
        let (t, rest) = split_first(value, ',');
        let is_segment = str_equals(t, "SEGMENT");
        let is_map = str_equals(t, "MAP");
        let is_part = str_equals(t, "PART");
        let is_scte35 = str_equals(t, "SCTE35");
        if !(is_segment || is_map || is_part || is_scte35) {
            return Err(SupplementalViewQueryContextDecodeError::UnknownContextType(String::from_str(t)));
        }
        let v = match rest {
            Some(v) => v,
            None => {
                return Err(SupplementalViewQueryContextDecodeError::EmptyContextValue);
            },
        };
        if is_segment {
            match MediaSegmentContext::try_from_str(v) {
                Ok(m) => Ok(SupplementalViewQueryContext::Segment(m)),
                Err(e) => Err(e),
            }
        } else if is_map {
            match MediaSegmentContext::try_from_str(v) {
                Ok(m) => Ok(SupplementalViewQueryContext::InitializationMap(m)),
                Err(e) => Err(e),
            }
        } else if is_part {
            let (pi, r2) = split_first(v, ',');
            let part_index = match parse_u32(pi) {
                Ok(x) => x,
                Err(e) => {
                    return Err(SupplementalViewQueryContextDecodeError::PartIndexParseIntFailure(e));
                },
            };
            let m = match r2 {
                Some(m) => m,
                None => {
                    return Err(SupplementalViewQueryContextDecodeError::MissingMediaSequencePart);
                },
            };
            match MediaSegmentContext::try_from_str(m) {
                Ok(segment_context) => Ok(SupplementalViewQueryContext::Part(PartSegmentContext { segment_context, part_index })),
                Err(e) => Err(e),
            }
        } else {
            let (ct, r2) = split_first(v, ',');
            let command_type = match Scte35CommandType::try_from_str(ct) {
                Ok(c) => c,
                Err(e) => {
                    return Err(SupplementalViewQueryContextDecodeError::InvalidCommandType(e));
                },
            };
            let r = match r2 {
                Some(r) => r,
                None => {
                    return Err(SupplementalViewQueryContextDecodeError::MissingDaterangeId);
                },
            };
            let (id, msg) = split_first(r, '"');
            match msg {
                Some(m) => Ok(SupplementalViewQueryContext::Scte35(Scte35Context {
                    message: String::from_str(m),
                    daterange_id: String::from_str(id),
                    command_type,
                })),
                None => Err(SupplementalViewQueryContextDecodeError::MissingScte35Message),
            }
        }
    }
}

// ---------------------------------------------------------------------------------------
// Reading back what was written

proof fn lemma_find_in_concat(a: Seq<char>, c: char, b: Seq<char>, i: int)
    requires
        !a.contains(c),
        0 <= i <= a.len(),
    ensures
        spec_find_from(a + seq![c] + b, c, i) == a.len(),
    decreases a.len() - i,
{
    let s = a + seq![c] + b;
    if i < a.len() {
        assert(s[i] == a[i]);
        if a[i] == c {
            assert(a.contains(c));
        }
        lemma_find_in_concat(a, c, b, i + 1);
    } else {
        assert(s[i] == c);
    }
}

proof fn lemma_split_concat(a: Seq<char>, c: char, b: Seq<char>)
    requires
        !a.contains(c),
    ensures
        spec_split(a + seq![c] + b, c) == (a, Some(b)),
{
    lemma_find_in_concat(a, c, b, 0);
    let s = a + seq![c] + b;
    assert(s.subrange(0, a.len() as int) =~= a);
    assert(s.subrange((a.len() + 1) as int, s.len() as int) =~= b);
}

proof fn lemma_decimal_has_no(n: nat, c: char)
    requires
        !('0' <= c && c <= '9'),
    ensures
        !spec_decimal(n).contains(c),
{
    crate::text::lemma_decimal_digits(n);
    if spec_decimal(n).contains(c) {
        let i = choose|i: int| 0 <= i < spec_decimal(n).len() && spec_decimal(n)[i] == c;
        assert(crate::text::spec_is_digit(spec_decimal(n)[i]));
    }
}

proof fn lemma_u64_round_trip(n: u64)
    ensures
        spec_u64_text(spec_decimal(n as nat)) == Some(n),
{
    lemma_decimal_round_trip(n as nat);
}

proof fn lemma_range_round_trip(br: Option<RequestRange>)
    ensures
        spec_parse_range(spec_range_field(br)) == Ok::<Option<RequestRange>, ErrorModel>(br),
        !spec_range_field(br).contains(','),
{
    match br {
        None => {
            assert(!seq!['-'].contains(',')) by {
                if seq!['-'].contains(',') {
                    let i = choose|i: int| 0 <= i < 1 && seq!['-'][i] == ',';
                }
            }
        },
        Some(r) => {
            let a = spec_decimal(r.start as nat);
            let b = spec_decimal(r.end as nat);
            lemma_decimal_has_no(r.start as nat, '-');
            lemma_decimal_has_no(r.start as nat, ',');
            lemma_decimal_has_no(r.end as nat, ',');
            lemma_split_concat(a, '-', b);
            lemma_u64_round_trip(r.start);
            lemma_u64_round_trip(r.end);
            crate::text::lemma_decimal_digits(r.end as nat);
            let t = a + seq!['-'] + b;
            assert(t.len() >= 3);
            assert(t != seq!['-']);
            if t.contains(',') {
                let i = choose|i: int| 0 <= i < t.len() && t[i] == ',';
                if i < a.len() {
                    assert(a[i] == ',');
                    assert(a.contains(','));
                } else if i > a.len() {
                    assert(b[i - a.len() - 1] == ',');
                    assert(b.contains(','));
                }
            }
        },
    }
}

proof fn lemma_media_round_trip(url: Seq<char>, ms: u64, br: Option<RequestRange>)
    ensures
        spec_parse_media(spec_media_fields(url, ms, br)) == Ok::<MediaModel, ErrorModel>(
            MediaModel { url, media_sequence: ms, byterange: br },
        ),
{
    let d = spec_decimal(ms as nat);
    let rf = spec_range_field(br);
    let rest = rf + seq![','] + url;
    assert(spec_media_fields(url, ms, br) =~= d + seq![','] + rest);
    lemma_decimal_has_no(ms as nat, ',');
    lemma_split_concat(d, ',', rest);
    lemma_u64_round_trip(ms);
    lemma_range_round_trip(br);
    lemma_split_concat(rf, ',', url);
}

proof fn lemma_tag_split(tag: Seq<char>, rest: Seq<char>)
    requires
        !tag.contains(','),
    ensures
        spec_split(tag + seq![','] + rest, ',') == (tag, Some(rest)),
{
    lemma_split_concat(tag, ',', rest);
}

/// Reading back the query value written for a segment gives the segment.
pub proof fn lemma_segment_round_trip(url: Seq<char>, media_sequence: u64, byterange: Option<RequestRange>)
    ensures
        spec_parse_context(spec_raw_segment(url, media_sequence, byterange)) == Ok::<ContextModel, ErrorModel>(
            ContextModel::Segment(MediaModel { url, media_sequence, byterange }),
        ),
{
    reveal_strlit("SEGMENT");
    reveal_strlit("MAP");
    reveal_strlit("PART");
    reveal_strlit("SCTE35");
    let t = "SEGMENT"@;
    assert(!t.contains(',')) by {
        if t.contains(',') {
            let i = choose|i: int| 0 <= i < t.len() && t[i] == ',';
        }
    }
    lemma_tag_split(t, spec_media_fields(url, media_sequence, byterange));
    lemma_media_round_trip(url, media_sequence, byterange);
}

/// Reading back the query value written for a map gives the map.
pub proof fn lemma_map_round_trip(url: Seq<char>, media_sequence: u64, byterange: Option<RequestRange>)
    ensures
        spec_parse_context(spec_raw_map(url, media_sequence, byterange)) == Ok::<ContextModel, ErrorModel>(
            ContextModel::InitializationMap(MediaModel { url, media_sequence, byterange }),
        ),
{
    reveal_strlit("SEGMENT");
    reveal_strlit("MAP");
    reveal_strlit("PART");
    reveal_strlit("SCTE35");
    let t = "MAP"@;
    assert(!t.contains(',')) by {
        if t.contains(',') {
            let i = choose|i: int| 0 <= i < t.len() && t[i] == ',';
        }
    }
    assert(t != "SEGMENT"@);
    lemma_tag_split(t, spec_media_fields(url, media_sequence, byterange));
    lemma_media_round_trip(url, media_sequence, byterange);
}

/// Reading back the query value written for a part gives the part.
pub proof fn lemma_part_round_trip(
    url: Seq<char>,
    media_sequence: u64,
    part_index: u32,
    byterange: Option<RequestRange>,
)
    ensures
        spec_parse_context(spec_raw_part(url, media_sequence, part_index, byterange)) == Ok::<ContextModel, ErrorModel>(
            ContextModel::Part(MediaModel { url, media_sequence, byterange }, part_index),
        ),
{
    reveal_strlit("SEGMENT");
    reveal_strlit("MAP");
    reveal_strlit("PART");
    reveal_strlit("SCTE35");
    let t = "PART"@;
    assert(!t.contains(',')) by {
        if t.contains(',') {
            let i = choose|i: int| 0 <= i < t.len() && t[i] == ',';
        }
    }
    assert(t != "SEGMENT"@);
    assert(t != "MAP"@);
    let d = spec_decimal(part_index as nat);
    let m = spec_media_fields(url, media_sequence, byterange);
    assert(spec_raw_part(url, media_sequence, part_index, byterange) =~= t + seq![','] + (d + seq![','] + m));
    lemma_tag_split(t, d + seq![','] + m);
    lemma_decimal_has_no(part_index as nat, ',');
    lemma_split_concat(d, ',', m);
    lemma_decimal_round_trip(part_index as nat);
    lemma_media_round_trip(url, media_sequence, byterange);
}

/// Reading back the query value written for an SCTE-35 message gives the message, for a
/// daterange id without a double quote (which a quoted-string attribute cannot hold).
pub proof fn lemma_scte35_round_trip(message: Seq<char>, daterange_id: Seq<char>, command_type: Scte35CommandType)
    requires
        !daterange_id.contains('"'),
    ensures
        spec_parse_context(spec_raw_scte35(message, daterange_id, command_type)) == Ok::<ContextModel, ErrorModel>(
            ContextModel::Scte35(message, daterange_id, command_type),
        ),
{
    reveal_strlit("SEGMENT");
    reveal_strlit("MAP");
    reveal_strlit("PART");
    reveal_strlit("SCTE35");
    reveal_strlit("OUT");
    reveal_strlit("IN");
    reveal_strlit("CMD");
    let t = "SCTE35"@;
    assert(!t.contains(',')) by {
        if t.contains(',') {
            let i = choose|i: int| 0 <= i < t.len() && t[i] == ',';
        }
    }
    assert(t != "SEGMENT"@);
    assert(t != "MAP"@);
    assert(t != "PART"@);
    let c = spec_command_text(command_type);
    let rest = daterange_id + seq!['"'] + message;
    assert(spec_raw_scte35(message, daterange_id, command_type) =~= t + seq![','] + (c + seq![','] + rest));
    lemma_tag_split(t, c + seq![','] + rest);
    assert(!c.contains(',')) by {
        if c.contains(',') {
            let i = choose|i: int| 0 <= i < c.len() && c[i] == ',';
        }
    }
    lemma_split_concat(c, ',', rest);
    assert(spec_command_from(c) == Some(command_type)) by {
        assert("OUT"@.len() == 3 && "IN"@.len() == 2 && "CMD"@.len() == 3);
        assert("OUT"@[0] == 'O' && "CMD"@[0] == 'C');
        assert("OUT"@ != "IN"@);
        assert("OUT"@ != "CMD"@);
        assert("IN"@ != "CMD"@);
    }
    lemma_split_concat(daterange_id, '"', message);
}

/// Reading back the unencoded query value of any context gives the context, provided an
/// SCTE-35 daterange id holds no double quote.
pub proof fn lemma_context_round_trip(c: SupplementalViewQueryContext)
    requires
        c matches SupplementalViewQueryContext::Scte35(x) ==> !x.daterange_id@.contains('"'),
    ensures
        spec_parse_context(spec_raw_context(c)) == Ok::<ContextModel, ErrorModel>(spec_context_view(c)),
{
    match c {
        SupplementalViewQueryContext::Segment(m) => lemma_segment_round_trip(m.url@, m.media_sequence, m.byterange),
        SupplementalViewQueryContext::InitializationMap(m) => lemma_map_round_trip(m.url@, m.media_sequence, m.byterange),
        SupplementalViewQueryContext::Part(p) => lemma_part_round_trip(
            p.segment_context.url@,
            p.segment_context.media_sequence,
            p.part_index,
            p.segment_context.byterange,
        ),
        SupplementalViewQueryContext::Scte35(x) => lemma_scte35_round_trip(x.message@, x.daterange_id@, x.command_type),
    }
}

/// The unencoded query value of a context.
pub open spec fn spec_raw_context(c: SupplementalViewQueryContext) -> Seq<char> {
    match c {
        SupplementalViewQueryContext::Segment(m) => spec_raw_segment(m.url@, m.media_sequence, m.byterange),
        SupplementalViewQueryContext::InitializationMap(m) => spec_raw_map(m.url@, m.media_sequence, m.byterange),
        SupplementalViewQueryContext::Part(p) => spec_raw_part(
            p.segment_context.url@,
            p.segment_context.media_sequence,
            p.part_index,
            p.segment_context.byterange,
        ),
        SupplementalViewQueryContext::Scte35(x) => spec_raw_scte35(x.message@, x.daterange_id@, x.command_type),
    }
}

impl SupplementalViewQueryContext {
    /// The query value that opens the view on this context.
    pub fn encode(&self) -> (r: String)
        ensures
            r@ == spec_percent_encoded(encode_utf8(spec_raw_context(*self))),
    {
        match self {
            SupplementalViewQueryContext::Segment(c) => encode_segment(c.url.as_str(), c.media_sequence, c.byterange),
            SupplementalViewQueryContext::InitializationMap(c) => encode_map(c.url.as_str(), c.media_sequence, c.byterange),
            SupplementalViewQueryContext::Part(p) => encode_part(
                p.segment_context.url.as_str(),
                p.segment_context.media_sequence,
                p.part_index,
                p.segment_context.byterange,
            ),
            SupplementalViewQueryContext::Scte35(s) => encode_scte35(
                s.message.as_str(),
                s.daterange_id.as_str(),
                s.command_type,
            ),
        }
    }
}

// ---------------------------------------------------------------------------------------
// Variable definitions

/// The definitions written as `name=value`, joined by the separator `"`.
pub open spec fn spec_joined_definitions(pairs: Seq<(Seq<char>, Seq<char>)>) -> Seq<char>
    decreases pairs.len(),
{
    if pairs.len() == 0 {
        Seq::empty()
    } else if pairs.len() == 1 {
        pairs[0].0 + seq!['='] + pairs[0].1
    } else {
        spec_joined_definitions(pairs.drop_last()) + seq!['"'] + pairs.last().0 + seq!['='] + pairs.last().1
    }
}

/// Encodes variable definitions for a query value: `name=value` for each, in the map's
/// order, joined by `"`, then percent-encoded.
pub fn encode_definitions(definitions: &TextMap) -> (r: String)
    ensures
        r@ == spec_percent_encoded(encode_utf8(spec_joined_definitions(definitions.pairs()))),
{
    let n = definitions.entry_count();
    let mut raw = String::new();
    let mut i: usize = 0;
    while i < n
        invariant
            i <= n,
            n == definitions.pairs().len(),
            raw@ == spec_joined_definitions(definitions.pairs().take(i as int)),
        decreases n - i,
    {
        let (k, v) = definitions.entry_at(i);
        let ghost before = raw@;
        if i > 0 {
            push_char(&mut raw, '"');
        }
        push_str(&mut raw, k.as_str());
        push_char(&mut raw, '=');
        push_str(&mut raw, v.as_str());
        proof {
            let next = definitions.pairs().take(i + 1);
            assert(next.drop_last() =~= definitions.pairs().take(i as int));
            if i == 0 {
                assert(before =~= Seq::<char>::empty());
            }
            assert(raw@ =~= spec_joined_definitions(next));
        }
        i = i + 1;
    }
    assert(definitions.pairs().take(n as int) =~= definitions.pairs());
    percent_encode(raw.as_str())
}

/// Whether `b` is an ASCII hexadecimal digit.
pub open spec fn spec_is_hex_byte(b: u8) -> bool {
    (0x30 <= b && b <= 0x39) || (0x41 <= b && b <= 0x46) || (0x61 <= b && b <= 0x66)
}

/// The value of an ASCII hexadecimal digit.
pub open spec fn spec_hex_byte_value(b: u8) -> int {
    if b <= 0x39 {
        b - 0x30
    } else if b <= 0x46 {
        b - 0x41 + 10
    } else {
        b - 0x61 + 10
    }
}

/// Percent-decoding from position `i` of `b`: each `%` followed by two hexadecimal digits
/// becomes the byte they write; every other byte, a lone `%` included, stays as it is.
pub open spec fn spec_percent_decoded_from(b: Seq<u8>, i: int) -> Seq<u8>
    decreases b.len() - i,
{
    if i < 0 || i >= b.len() {
        Seq::empty()
    } else if b[i] == 0x25 && i + 2 < b.len() && spec_is_hex_byte(b[i + 1]) && spec_is_hex_byte(b[i + 2]) {
        seq![(spec_hex_byte_value(b[i + 1]) * 16 + spec_hex_byte_value(b[i + 2])) as u8]
            + spec_percent_decoded_from(b, i + 3)
    } else {
        seq![b[i]] + spec_percent_decoded_from(b, i + 1)
    }
}

/// `percent_encoding::percent_decode_str(s).decode_utf8()`: claims, as the crate's source
/// shows, that the bytes of `s` are percent-decoded (`%` and two hexadecimal digits become
/// one byte, any other byte stays) and that the result is their text where they are UTF-8,
/// `None` where they are not.
#[verifier::external_body]
fn percent_decode_utf8(s: &str) -> (r: Option<String>)
    ensures
        r is Some <==> valid_utf8(spec_percent_decoded_from(encode_utf8(s@), 0)),
        r matches Some(t) ==> t@ == decode_utf8(spec_percent_decoded_from(encode_utf8(s@), 0)),
{
    match percent_encoding::percent_decode_str(s).decode_utf8() {
        Ok(text) => Some(text.into_owned()),
        Err(_) => None,
    }
}

/// The definitions that decoded query text holds, from position `i` on: one per
/// `"`-separated piece, its name before the piece's first `=` and its value after it (empty
/// where the piece has no `=`).
pub open spec fn spec_definition_pairs_from(t: Seq<char>, i: int) -> Seq<(Seq<char>, Seq<char>)>
    decreases t.len() + 1 - i,
{
    if i < 0 || i > t.len() {
        Seq::empty()
    } else {
        let j = spec_find_from(t, '"', i);
        proof {
            lemma_find_from_bounds(t, '"', i);
        }
        let piece = t.subrange(i, j);
        let e = spec_find_from(piece, '=', 0);
        let value = if e < piece.len() { piece.subrange(e + 1, piece.len() as int) } else { Seq::empty() };
        seq![(piece.subrange(0, e), value)] + if j < t.len() {
            spec_definition_pairs_from(t, j + 1)
        } else {
            Seq::empty()
        }
    }
}

/// Decodes variable definitions from a query value: percent-decoding, then one definition
/// per `"`-separated piece. A later definition of a name replaces an earlier one. The
/// value must be UTF-8 once percent-decoded.
pub fn decode_definitions(query_value: &str) -> (r: Result<TextMap, DecodeDefinitionsError>)
    ensures
        match r {
            Ok(m) => valid_utf8(spec_percent_decoded_from(encode_utf8(query_value@), 0)) && m@ == spec_pairs_map(
                spec_definition_pairs_from(decode_utf8(spec_percent_decoded_from(encode_utf8(query_value@), 0)), 0),
            ),
            Err(e) => e == DecodeDefinitionsError::Utf8Error && !valid_utf8(
                spec_percent_decoded_from(encode_utf8(query_value@), 0),
            ),
        },
{
    let decoded = match percent_decode_utf8(query_value) {
        Some(d) => d,
        None => {
            return Err(DecodeDefinitionsError::Utf8Error);
        },
    };
    let t = decoded.as_str();
    let n = t.unicode_len();
    let mut map = TextMap::new();
    let ghost mut done: Seq<(Seq<char>, Seq<char>)> = Seq::empty();
    let mut i: usize = 0;
    while i <= n
        invariant
            n == t@.len(),
            valid_utf8(spec_percent_decoded_from(encode_utf8(query_value@), 0)),
            t@ == decode_utf8(spec_percent_decoded_from(encode_utf8(query_value@), 0)),
            done + spec_definition_pairs_from(t@, i as int) == spec_definition_pairs_from(t@, 0),
            map@ == spec_pairs_map(done),
        decreases n + 1 - i,
    {
        let j = find_from(t, '"', i);
        proof {
            lemma_find_from_bounds(t@, '"', i as int);
        }
        let piece = t.substring_char(i, j);
        let e = find_from(piece, '=', 0);
        proof {
            lemma_find_from_bounds(piece@, '=', 0);
        }
        let m = piece.unicode_len();
        let key = String::from_str(piece.substring_char(0, e));
        let value = if e < m { String::from_str(piece.substring_char(e + 1, m)) } else { String::new() };
        let ghost kv = (key@, value@);
        proof {
            if !(e < m) {
                assert(value@ =~= Seq::<char>::empty());
            }
            assert(spec_definition_pairs_from(t@, i as int) =~= seq![kv] + if j < n {
                spec_definition_pairs_from(t@, j + 1)
            } else {
                Seq::empty()
            });
        }
        map.insert(key, value);
        proof {
            assert(done.push(kv).drop_last() =~= done);
            done = done.push(kv);
        }
        if j >= n {
            proof {
                assert(done =~= spec_definition_pairs_from(t@, 0));
            }
            return Ok(map);
        }
        proof {
            assert(done + spec_definition_pairs_from(t@, j + 1) =~= spec_definition_pairs_from(t@, 0));
        }
        i = j + 1;
    }
    Ok(map)
}

// ---------------------------------------------------------------------------------------
// Decoding what was encoded

/// The byte of an upper-case hexadecimal digit.
pub open spec fn spec_upper_hex_byte(n: int) -> u8 {
    if n < 10 {
        (48 + n) as u8
    } else {
        (55 + n) as u8
    }
}

/// One byte of a query value as encoded bytes.
pub open spec fn spec_encoded_byte_bytes(b: u8) -> Seq<u8> {
    if b >= 0x80 || spec_in_query_set(b) {
        seq![0x25u8, spec_upper_hex_byte((b / 16) as int), spec_upper_hex_byte((b % 16) as int)]
    } else {
        seq![b]
    }
}

/// Every byte of `bytes`, encoded in turn, as bytes.
pub open spec fn spec_percent_encoded_bytes(bytes: Seq<u8>) -> Seq<u8>
    decreases bytes.len(),
{
    if bytes.len() == 0 {
        Seq::empty()
    } else {
        spec_percent_encoded_bytes(bytes.drop_last()) + spec_encoded_byte_bytes(bytes.last())
    }
}

proof fn lemma_encoded_byte_ascii(b: u8)
    ensures
        is_ascii_chars(spec_encoded_byte(b)),
        encode_utf8(spec_encoded_byte(b)) == spec_encoded_byte_bytes(b),
{
    let s = spec_encoded_byte(b);
    assert(is_ascii_chars(s));
    is_ascii_chars_encode_utf8(s);
    if b >= 0x80 || spec_in_query_set(b) {
        let h = (b / 16) as int;
        let l = (b % 16) as int;
        assert(spec_upper_hex(h) as u8 == spec_upper_hex_byte(h));
        assert(spec_upper_hex(l) as u8 == spec_upper_hex_byte(l));
        assert(encode_utf8(s) =~= spec_encoded_byte_bytes(b));
    } else {
        assert(encode_utf8(s) =~= spec_encoded_byte_bytes(b));
    }
}

proof fn lemma_encode_ascii_concat(a: Seq<char>, b: Seq<char>)
    requires
        is_ascii_chars(a),
        is_ascii_chars(b),
    ensures
        is_ascii_chars(a + b),
        encode_utf8(a + b) == encode_utf8(a) + encode_utf8(b),
{
    assert(is_ascii_chars(a + b));
    is_ascii_chars_encode_utf8(a);
    is_ascii_chars_encode_utf8(b);
    is_ascii_chars_encode_utf8(a + b);
    assert forall|i: int| 0 <= i < (a + b).len() implies encode_utf8(a + b)[i] == (encode_utf8(a) + encode_utf8(b))[i] by {
        if i < a.len() {
            assert((a + b)[i] == a[i]);
        } else {
            assert((a + b)[i] == b[i - a.len()]);
        }
    }
    assert(encode_utf8(a + b) =~= encode_utf8(a) + encode_utf8(b));
}

/// The percent-encoded text of any bytes is ASCII, and its UTF-8 bytes are the encoded
/// bytes.
proof fn lemma_percent_encoded_bytes(bytes: Seq<u8>)
    ensures
        is_ascii_chars(spec_percent_encoded(bytes)),
        encode_utf8(spec_percent_encoded(bytes)) == spec_percent_encoded_bytes(bytes),
    decreases bytes.len(),
{
    if bytes.len() == 0 {
        assert(encode_utf8(Seq::<char>::empty()) =~= Seq::<u8>::empty());
    } else {
        lemma_percent_encoded_bytes(bytes.drop_last());
        lemma_encoded_byte_ascii(bytes.last());
        lemma_encode_ascii_concat(spec_percent_encoded(bytes.drop_last()), spec_encoded_byte(bytes.last()));
    }
}

proof fn lemma_encoded_bytes_front(b: u8, rest: Seq<u8>)
    ensures
        spec_percent_encoded_bytes(seq![b] + rest) == spec_encoded_byte_bytes(b) + spec_percent_encoded_bytes(rest),
    decreases rest.len(),
{
    if rest.len() == 0 {
        assert(seq![b] + rest =~= seq![b]);
        assert((seq![b] + rest).drop_last() =~= Seq::<u8>::empty());
        assert(spec_percent_encoded_bytes(Seq::<u8>::empty()) =~= Seq::<u8>::empty());
        assert(spec_percent_encoded_bytes(seq![b]) =~= Seq::<u8>::empty() + spec_encoded_byte_bytes(b));
        assert(spec_encoded_byte_bytes(b) + spec_percent_encoded_bytes(rest) =~= spec_encoded_byte_bytes(b));
    } else {
        lemma_encoded_bytes_front(b, rest.drop_last());
        assert((seq![b] + rest).drop_last() =~= seq![b] + rest.drop_last());
        assert((seq![b] + rest).last() == rest.last());
        let c = spec_encoded_byte_bytes(b);
        let m = spec_percent_encoded_bytes(rest.drop_last());
        let l = spec_encoded_byte_bytes(rest.last());
        assert((c + m) + l =~= c + (m + l));
    }
}

proof fn lemma_decoded_shift(p: Seq<u8>, y: Seq<u8>, j: int)
    requires
        0 <= j,
    ensures
        spec_percent_decoded_from(p + y, p.len() + j) == spec_percent_decoded_from(y, j),
    decreases y.len() - j,
{
    let x = p + y;
    let i = p.len() + j;
    if j < y.len() {
        assert(x[i] == y[j]);
        if i + 2 < x.len() {
            assert(x[i + 1] == y[j + 1]);
            assert(x[i + 2] == y[j + 2]);
        }
        lemma_decoded_shift(p, y, j + 1);
        if j + 3 <= y.len() {
            lemma_decoded_shift(p, y, j + 3);
        }
    }
}

/// Percent-decoding undoes percent-encoding.
pub proof fn lemma_percent_decode_encoded(bytes: Seq<u8>)
    ensures
        spec_percent_decoded_from(spec_percent_encoded_bytes(bytes), 0) == bytes,
    decreases bytes.len(),
{
    if bytes.len() == 0 {
        assert(spec_percent_encoded_bytes(bytes) =~= Seq::<u8>::empty());
    } else {
        let b = bytes[0];
        let rest = bytes.drop_first();
        assert(bytes =~= seq![b] + rest);
        lemma_encoded_bytes_front(b, rest);
        lemma_percent_decode_encoded(rest);
        let chunk = spec_encoded_byte_bytes(b);
        let tail = spec_percent_encoded_bytes(rest);
        let x = chunk + tail;
        lemma_decoded_shift(chunk, tail, 0);
        if b >= 0x80 || spec_in_query_set(b) {
            assert(x[0] == 0x25u8);
            assert(x[1] == spec_upper_hex_byte((b / 16) as int));
            assert(x[2] == spec_upper_hex_byte((b % 16) as int));
            assert(spec_hex_byte_value(x[1]) == b / 16);
            assert(spec_hex_byte_value(x[2]) == b % 16);
            assert(spec_percent_decoded_from(x, 0) =~= seq![b] + spec_percent_decoded_from(x, 3));
        } else {
            assert(x[0] == b);
            assert(spec_percent_decoded_from(x, 0) =~= seq![b] + spec_percent_decoded_from(x, 1));
        }
        assert(seq![b] + rest =~= bytes);
    }
}

/// The definitions written as `name=value`, joined by `"`, read from the front.
pub open spec fn spec_join_front(pairs: Seq<(Seq<char>, Seq<char>)>) -> Seq<char>
    decreases pairs.len(),
{
    if pairs.len() == 0 {
        Seq::empty()
    } else if pairs.len() == 1 {
        pairs[0].0 + seq!['='] + pairs[0].1
    } else {
        pairs[0].0 + seq!['='] + pairs[0].1 + seq!['"'] + spec_join_front(pairs.drop_first())
    }
}

proof fn lemma_join_back_front(pairs: Seq<(Seq<char>, Seq<char>)>)
    ensures
        spec_joined_definitions(pairs) == spec_join_front(pairs),
    decreases pairs.len(),
{
    if pairs.len() >= 2 {
        let init = pairs.drop_last();
        let tail = pairs.drop_first();
        lemma_join_back_front(init);
        lemma_join_back_front(tail);
        let (k0, v0) = pairs[0];
        let (kl, vl) = pairs.last();
        if pairs.len() == 2 {
            assert(init[0] == pairs[0]);
            assert(tail[0] == pairs.last());
            assert(spec_join_front(tail) == kl + seq!['='] + vl);
            assert(spec_joined_definitions(pairs) =~= spec_join_front(pairs));
        } else {
            let mid = init.drop_first();
            assert(mid =~= tail.drop_last());
            lemma_join_back_front(mid);
            assert(init[0] == pairs[0]);
            assert(tail.last() == pairs.last());
            assert(spec_join_front(init) == k0 + seq!['='] + v0 + seq!['"'] + spec_join_front(mid));
            assert(spec_joined_definitions(tail) == spec_joined_definitions(mid) + seq!['"'] + kl + seq!['='] + vl);
            assert(spec_joined_definitions(pairs) =~= spec_join_front(pairs));
        }
    }
}

proof fn lemma_find_skips(x: Seq<char>, c: char, i: int, n: int)
    requires
        0 <= i,
        0 <= n,
        i + n <= x.len(),
        forall|k: int| i <= k < i + n ==> x[k] != c,
    ensures
        spec_find_from(x, c, i) == spec_find_from(x, c, i + n),
    decreases n,
{
    if n > 0 {
        lemma_find_skips(x, c, i + 1, n - 1);
    }
}

/// Whether `s` holds the character `c`.
pub open spec fn spec_holds_char(s: Seq<char>, c: char) -> bool {
    exists|i: int| 0 <= i < s.len() && s[i] == c
}

/// Whether definitions can be written as `name=value` pieces joined by `"` and read back:
/// no name holds `=` or `"`, and no value holds `"`.
pub open spec fn spec_definitions_writable(pairs: Seq<(Seq<char>, Seq<char>)>) -> bool {
    forall|i: int| 0 <= i < pairs.len() ==> !spec_holds_char(#[trigger] pairs[i].0, '=') && !spec_holds_char(pairs[i].0, '"')
        && !spec_holds_char(pairs[i].1, '"')
}

proof fn lemma_parse_joined(a: Seq<char>, pairs: Seq<(Seq<char>, Seq<char>)>)
    requires
        pairs.len() >= 1,
        spec_definitions_writable(pairs),
    ensures
        spec_definition_pairs_from(a + spec_join_front(pairs), a.len() as int) == pairs,
    decreases pairs.len(),
{
    let (k0, v0) = pairs[0];
    assert(!spec_holds_char(k0, '=') && !spec_holds_char(k0, '"') && !spec_holds_char(v0, '"'));
    let block = k0 + seq!['='] + v0;
    let x = a + spec_join_front(pairs);
    let i = a.len() as int;
    let n = block.len() as int;
    assert forall|k: int| 0 <= k < n implies block[k] != '"' by {
        if k < k0.len() {
            assert(block[k] == k0[k]);
        } else if k > k0.len() {
            assert(block[k] == v0[k - k0.len() - 1]);
        }
    }
    assert forall|k: int| 0 <= k < k0.len() implies block[k] != '=' by {
        assert(block[k] == k0[k]);
    }
    assert(block[k0.len() as int] == '=');
    lemma_find_skips(block, '=', 0, k0.len() as int);
    assert(spec_find_from(block, '=', 0) == k0.len());
    assert(block.subrange(0, k0.len() as int) =~= k0);
    assert(block.subrange(k0.len() as int + 1, n) =~= v0);
    if pairs.len() == 1 {
        assert(x =~= a + block);
        assert forall|k: int| i <= k < i + n implies x[k] != '"' by {
            assert(x[k] == block[k - i]);
        }
        lemma_find_skips(x, '"', i, n);
        assert(spec_find_from(x, '"', i) == x.len());
        assert(x.subrange(i, x.len() as int) =~= block);
        assert(spec_definition_pairs_from(x, i) =~= seq![(k0, v0)]);
        assert(pairs =~= seq![(k0, v0)]);
    } else {
        let rest = pairs.drop_first();
        let a2 = a + block + seq!['"'];
        assert(x =~= a2 + spec_join_front(rest));
        assert forall|k: int| i <= k < i + n implies x[k] != '"' by {
            assert(x[k] == block[k - i]);
        }
        lemma_find_skips(x, '"', i, n);
        assert(x[i + n] == '"');
        assert(spec_find_from(x, '"', i) == i + n);
        assert(x.subrange(i, i + n) =~= block);
        assert forall|j: int| 0 <= j < rest.len() implies !spec_holds_char(#[trigger] rest[j].0, '=') && !spec_holds_char(rest[j].0, '"')
            && !spec_holds_char(rest[j].1, '"') by {
            assert(rest[j] == pairs[j + 1]);
        }
        lemma_parse_joined(a2, rest);
        assert(a2.len() == i + n + 1);
        assert(spec_definition_pairs_from(x, i) =~= seq![(k0, v0)] + rest);
        assert(pairs =~= seq![(k0, v0)] + rest);
    }
}

/// Decoding what `encode_definitions` wrote gives back the definitions, wherever there is
/// at least one and none has a name holding `=` or `"` or a value holding `"`.
pub proof fn lemma_definitions_round_trip(defs: TextMap)
    requires
        defs.pairs().len() >= 1,
        spec_definitions_writable(defs.pairs()),
    ensures
        ({
            let encoded = spec_percent_encoded(encode_utf8(spec_joined_definitions(defs.pairs())));
            let decoded = spec_percent_decoded_from(encode_utf8(encoded), 0);
            &&& valid_utf8(decoded)
            &&& spec_pairs_map(spec_definition_pairs_from(decode_utf8(decoded), 0)) == defs@
        }),
{
    let joined = spec_joined_definitions(defs.pairs());
    let bytes = encode_utf8(joined);
    lemma_percent_encoded_bytes(bytes);
    lemma_percent_decode_encoded(bytes);
    encode_utf8_valid_utf8(joined);
    encode_utf8_decode_utf8(joined);
    lemma_join_back_front(defs.pairs());
    lemma_parse_joined(Seq::empty(), defs.pairs());
    assert(Seq::<char>::empty() + spec_join_front(defs.pairs()) =~= spec_join_front(defs.pairs()));
}

/// A context written with `encode`, percent-decoded as UTF-8, reads back as the same
/// context, wherever an SCTE-35 Date Range ID holds no `"`.
pub proof fn lemma_context_encode_round_trip(c: SupplementalViewQueryContext)
    requires
        c matches SupplementalViewQueryContext::Scte35(x) ==> !x.daterange_id@.contains('"'),
    ensures
        ({
            let encoded = spec_percent_encoded(encode_utf8(spec_raw_context(c)));
            let decoded = spec_percent_decoded_from(encode_utf8(encoded), 0);
            &&& valid_utf8(decoded)
            &&& spec_parse_context(decode_utf8(decoded)) == Ok::<ContextModel, ErrorModel>(spec_context_view(c))
        }),
{
    let raw = spec_raw_context(c);
    let bytes = encode_utf8(raw);
    lemma_percent_encoded_bytes(bytes);
    lemma_percent_decode_encoded(bytes);
    encode_utf8_valid_utf8(raw);
    encode_utf8_decode_utf8(raw);
    lemma_context_round_trip(c);
}

} // verus!
