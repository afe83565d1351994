//! What kind of segment a response carries.

use vstd::prelude::*;
use vstd::string::StringExecFns;
use crate::bytes::{be_value, can_read, read_u32, read_u64};
use crate::network::FetchArrayBufferResonse;
use crate::text::str_equals_text;
use crate::validator::parser::{lemma_rfind_bounds, rfind, spec_rfind};

verus! {

/// The kinds of segment the tool can open.
#[derive(Debug, Clone, Copy, PartialEq, Eq, Structural)]
pub enum SegmentType {
    WebVtt,
    Mp4,
    Unknown,
}

/// The segment type a Content-Type names, per the HLS Authoring Specification.
pub open spec fn spec_type_of_content_type(content_type: Option<Seq<char>>) -> Option<SegmentType> {
    match content_type {
        None => None,
        Some(ct) => if ct == "video/mp4"@ || ct == "video/iso.segment"@ || ct == "audio/mp4"@ || ct == "application/mp4"@ {
            Some(SegmentType::Mp4)
        } else if ct == "text/vtt"@ || ct == "text/plain"@ {
            Some(SegmentType::WebVtt)
        } else {
            None
        },
    }
}

fn probe_content_type(content_type: &Option<String>) -> (r: Option<SegmentType>)
    ensures
        r == spec_type_of_content_type(match content_type {
            Some(c) => Some(c@),
            None => None,
        }),
{
    let ct = match content_type {
        Some(ct) => ct.as_str(),
        None => {
            return None;
        },
    };
    if str_equals_text(ct, "video/mp4") || str_equals_text(ct, "video/iso.segment") || str_equals_text(ct, "audio/mp4")
        || str_equals_text(ct, "application/mp4") {
        Some(SegmentType::Mp4)
    } else if str_equals_text(ct, "text/vtt") || str_equals_text(ct, "text/plain") {
        Some(SegmentType::WebVtt)
    } else {
        None
    }
}

/// What `url::Url::parse(url)`, then `path_segments()` and its last item, give: the last
/// segment of the URL's path, or `None` where the text is not an absolute URL or the URL
/// has no path segments. Its rules take pages, so it is named rather than stated.
pub uninterp spec fn spec_url_last_path_segment(url: Seq<char>) -> Option<Seq<char>>;

/// The last path segment of a URL, by `url::Url::parse`, `Url::path_segments` and
/// `next_back`. The contract claims only that the result is a function of the text,
/// named `spec_url_last_path_segment`.
#[verifier::external_body]
fn url_last_path_segment(url: &str) -> (r: Option<String>)
    ensures
        match r {
            Some(s) => spec_url_last_path_segment(url@) == Some(s@),
            None => spec_url_last_path_segment(url@) is None,
        },
{
    match url::Url::parse(url) {
        Ok(parsed) => match parsed.path_segments() {
            Some(mut segments) => segments.next_back().map(String::from),
            None => None,
        },
        Err(_) => None,
    }
}

/// The text after the last `.` of `s`, or all of `s` where it has none.
pub open spec fn spec_last_dot_field(s: Seq<char>) -> Seq<char> {
    match spec_rfind(s, '.', s.len() as int) {
        Some(p) => s.subrange(p + 1, s.len() as int),
        None => s,
    }
}

/// The segment type the file extension of a URL names.
pub open spec fn spec_type_of_url(url: Seq<char>) -> Option<SegmentType> {
    match spec_url_last_path_segment(url) {
        None => None,
        Some(last) => {
            let ext = spec_last_dot_field(last);
            if ext == "mp4"@ || ext == "m4s"@ {
                Some(SegmentType::Mp4)
            } else if ext == "vtt"@ {
                Some(SegmentType::WebVtt)
            } else {
                None
            }
        },
    }
}

/// The segment type that the file extension of a URL's last path segment names.
pub fn probe_url(url: &str) -> (r: Option<SegmentType>)
    ensures
        r == spec_type_of_url(url@),
{
    let last = match url_last_path_segment(url) {
        Some(l) => l,
        None => {
            return None;
        },
    };
    let s = last.as_str();
    let n = s.unicode_len();
    let ext = match rfind(s, '.') {
        Some(p) => {
            proof {
                lemma_rfind_bounds(s@, '.', n as int);
            }
            s.substring_char(p + 1, n)
        },
        None => s,
    };
    if str_equals_text(ext, "mp4") || str_equals_text(ext, "m4s") {
        Some(SegmentType::Mp4)
    } else if str_equals_text(ext, "vtt") {
        Some(SegmentType::WebVtt)
    } else {
        None
    }
}

/// Whether `data` holds `prefix` from position `at`.
pub open spec fn spec_bytes_at(data: Seq<u8>, at: int, prefix: Seq<u8>) -> bool {
    0 <= at && at + prefix.len() <= data.len() && data.subrange(at, at + prefix.len()) == prefix
}

fn bytes_at(data: &[u8], at: usize, prefix: &[u8]) -> (r: bool)
    ensures
        r == spec_bytes_at(data@, at as int, prefix@),
{
    if at > data.len() || prefix.len() > data.len() - at {
        return false;
    }
    let mut i: usize = 0;
    while i < prefix.len()
        invariant
            i <= prefix@.len(),
            at + prefix@.len() <= data@.len(),
            data@.len() == data.len(),
            forall|k: int| 0 <= k < i ==> data@[at + k] == prefix@[k],
        decreases prefix.len() - i,
    {
        if data[at + i] != prefix[i] {
            assert(data@.subrange(at as int, at + prefix@.len())[i as int] != prefix@[i as int]);
            return false;
        }
        i = i + 1;
    }
    assert(data@.subrange(at as int, at + prefix@.len()) =~= prefix@);
    true
}

/// Whether bytes are a WebVTT file: `WEBVTT`, after an optional UTF-8 byte order mark.
pub open spec fn spec_is_webvtt(data: Seq<u8>) -> bool {
    let at = if spec_bytes_at(data, 0, seq![0xEFu8, 0xBBu8, 0xBFu8]) { 3int } else { 0int };
    spec_bytes_at(data, at, seq![0x57u8, 0x45u8, 0x42u8, 0x56u8, 0x54u8, 0x54u8])
}

/// Whether bytes are a WebVTT file.
pub fn probe_is_webvtt(data: &[u8]) -> (r: bool)
    ensures
        r == spec_is_webvtt(data@),
{
    let bom: [u8; 3] = [0xEF, 0xBB, 0xBF];
    let magic: [u8; 6] = [0x57, 0x45, 0x42, 0x56, 0x54, 0x54];
    proof {
        assert(bom@ =~= seq![0xEFu8, 0xBBu8, 0xBFu8]);
        assert(magic@ =~= seq![0x57u8, 0x45u8, 0x42u8, 0x56u8, 0x54u8, 0x54u8]);
    }
    let at = if bytes_at(data, 0, bom.as_slice()) { 3 } else { 0 };
    bytes_at(data, at, magic.as_slice())
}

/// The box type `ftyp`.
pub const FTYP: u32 = 0x66747970;

/// The box type `moof`.
pub const MOOF: u32 = 0x6d6f6f66;

/// The box header at `pos`: its type, its body size (`None` for a box that runs to the
/// end), and the header's own length; `None` where the bytes hold no valid header.
pub open spec fn spec_box_header(data: Seq<u8>, pos: int) -> Option<(u32, Option<int>, int)> {
    if !can_read(data, pos, 4) || !can_read(data, pos + 4, 4) {
        None
    } else {
        let size = be_value(data, pos, 4);
        let kind = be_value(data, pos + 4, 4) as u32;
        if size == 0 {
            Some((kind, None, 8))
        } else if size == 1 {
            if !can_read(data, pos + 8, 8) || be_value(data, pos + 8, 8) < 16 {
                None
            } else {
                Some((kind, Some(((be_value(data, pos + 8, 8) - 16) as u64 as usize) as int), 16))
            }
        } else if size < 8 {
            None
        } else {
            Some((kind, Some(size - 8), 8))
        }
    }
}

/// Whether an `ftyp` body of `size` bytes (all that is left, where `None`) with `avail`
/// bytes after its header decodes: it fits, and after the major brand and minor version
/// it holds whole four-byte compatible brands.
pub open spec fn spec_ftyp_decodes(size: Option<int>, avail: int) -> bool {
    let s = match size {
        Some(s) => s,
        None => avail,
    };
    s <= avail && s >= 8 && (s - 8) % 4 == 0
}

/// Whether `data` from `pos` on reads as fragmented MP4: the first box header, reading
/// header after header without skipping bodies, that is `ftyp` (and decodes) or `moof`.
pub open spec fn spec_probe_mp4_from(data: Seq<u8>, pos: int) -> bool
    decreases data.len() - pos,
{
    if pos < 0 {
        false
    } else {
        match spec_box_header(data, pos) {
            None => false,
            Some((kind, size, hlen)) => if kind == FTYP {
                spec_ftyp_decodes(size, data.len() - (pos + hlen))
            } else if kind == MOOF {
                true
            } else {
                spec_probe_mp4_from(data, pos + hlen)
            },
        }
    }
}

/// Whether bytes read as fragmented MP4: an `ftyp` that decodes or a `moof`.
pub fn probe_is_mp4(data: &[u8]) -> (r: bool)
    ensures
        r == spec_probe_mp4_from(data@, 0),
{
    let mut pos: usize = 0;
    while pos <= data.len()
        invariant
            pos <= data@.len() + 8,
            spec_probe_mp4_from(data@, pos as int) == spec_probe_mp4_from(data@, 0),
        decreases data@.len() + 8 - pos,
    {
        let size = match read_u32(data, pos) {
            Ok(v) => v,
            Err(_) => {
                return false;
            },
        };
        let kind = match read_u32(data, pos + 4) {
            Ok(v) => v,
            Err(_) => {
                return false;
            },
        };
        let body: Option<usize>;
        let hlen: usize;
        if size == 0 {
            body = None;
            hlen = 8;
        } else if size == 1 {
            let large = match read_u64(data, pos + 8) {
                Ok(v) => v,
                Err(_) => {
                    return false;
                },
            };
            if large < 16 {
                return false;
            }
            body = Some(#[verifier::truncate] ((large - 16) as usize));
            hlen = 16;
        } else if size < 8 {
            return false;
        } else {
            body = Some((size - 8) as usize);
            hlen = 8;
        }
        let avail = data.len() - (pos + hlen);
        if kind == FTYP {
            let s = match body {
                Some(s) => s,
                None => avail,
            };
            return s <= avail && s >= 8 && (s - 8) % 4 == 0;
        }
        if kind == MOOF {
            return true;
        }
        pos = pos + hlen;
    }
    false
}

/// Whether bytes are WebVTT or fragmented MP4, by their content.
pub open spec fn spec_type_of_data(data: Seq<u8>) -> Option<SegmentType> {
    if spec_is_webvtt(data) {
        Some(SegmentType::WebVtt)
    } else if spec_probe_mp4_from(data, 0) {
        Some(SegmentType::Mp4)
    } else {
        None
    }
}

/// The type of a segment response: by its Content-Type, else by its URL's file
/// extension, else by its bytes.
pub open spec fn spec_segment_type(content_type: Option<Seq<char>>, url: Seq<char>, body: Seq<u8>) -> SegmentType {
    match spec_type_of_content_type(content_type) {
        Some(t) => t,
        None => match spec_type_of_url(url) {
            Some(t) => t,
            None => match spec_type_of_data(body) {
                Some(t) => t,
                None => SegmentType::Unknown,
            },
        },
    }
}

/// Determines what kind of segment a response carries: its Content-Type first, then the
/// file extension of its URL, then its bytes.
pub fn determine_segment_type(response: &FetchArrayBufferResonse) -> (r: SegmentType)
    ensures
        r == spec_segment_type(
            match response.content_type {
                Some(c) => Some(c@),
                None => None,
            },
            response.url@,
            response.response_body@,
        ),
{
    if let Some(t) = probe_content_type(&response.content_type) {
        return t;
    }
    if let Some(t) = probe_url(response.url.as_str()) {
        return t;
    }
    if probe_is_webvtt(response.response_body.as_slice()) {
        return SegmentType::WebVtt;
    }
    if probe_is_mp4(response.response_body.as_slice()) {
        return SegmentType::Mp4;
    }
    SegmentType::Unknown
}


/// The Content-Type decides, whatever the URL and the bytes say: `video/mp4`,
/// `video/iso.segment`, `audio/mp4` and `application/mp4` (fMP4 carrying media or IMSC1
/// subtitles) are MP4, and `text/vtt` and `text/plain` are WebVTT.
pub proof fn lemma_content_type_decides(ct: Seq<char>, url: Seq<char>, body: Seq<u8>)
    ensures
        ct == "video/mp4"@ || ct == "video/iso.segment"@ || ct == "audio/mp4"@ || ct == "application/mp4"@
            ==> spec_segment_type(Some(ct), url, body) == SegmentType::Mp4,
        ct == "text/vtt"@ || ct == "text/plain"@ ==> spec_segment_type(Some(ct), url, body) == SegmentType::WebVtt,
{
    reveal_strlit("video/mp4");
    reveal_strlit("video/iso.segment");
    reveal_strlit("audio/mp4");
    reveal_strlit("application/mp4");
    reveal_strlit("text/vtt");
    reveal_strlit("text/plain");
    if ct == "text/vtt"@ || ct == "text/plain"@ {
        assert(ct.len() == 8 || ct.len() == 10);
        assert(ct != "video/mp4"@ && ct != "audio/mp4"@) by {
            assert("video/mp4"@.len() == 9 && "audio/mp4"@.len() == 9);
        }
        assert(ct != "video/iso.segment"@ && ct != "application/mp4"@) by {
            assert("video/iso.segment"@.len() == 17 && "application/mp4"@.len() == 15);
        }
    }
}

} // verus!
