use vstd::prelude::*;
use vstd::string::StrSliceExecFns;
use crate::bytes::be_value;
use mp4_atom::ReadFrom;

verus! {

/// What the probe of an init segment (`ftyp` and `moov`) found.
#[derive(Debug, Clone, Default, PartialEq, Eq)]
pub struct InitSegmentProbe {
    pub major_brand: Option<String>,
    pub compatible_brands: Vec<String>,
    /// Raw stsd sample-entry fourCC (e.g. "avc1", "hvc1", "encv").
    pub video_sample_fourcc: Option<String>,
    pub audio_sample_fourcc: Option<String>,
    pub video_profile: Option<String>,
    pub video_level: Option<String>,
    /// HEVC general_tier_flag when available ("Main" / "High").
    pub video_tier: Option<String>,
    pub has_ludt: bool,
    pub has_senc: bool,
    pub has_saiz: bool,
    pub has_saio: bool,
    pub has_vexu: bool,
    /// `lhvC` layered-HEVC configuration, which is how MV-HEVC is signaled.
    pub has_lhvc: bool,
    pub has_tenc: bool,
    /// True when a `tenc` was parsed inside a video track (`vide` handler).
    pub has_video_tenc: bool,
    /// CENC scheme_type from `schm` (e.g. "cenc", "cbcs").
    pub scheme_type: Option<String>,
    /// From `tenc` version 1 and later pattern encryption fields (last track seen).
    pub crypt_byte_block: Option<u8>,
    pub skip_byte_block: Option<u8>,
    /// Same fields, but only from the video track: the 1:9 `cbcs` pattern requirement
    /// applies to video, while audio is commonly encrypted without one.
    pub video_crypt_byte_block: Option<u8>,
    pub video_skip_byte_block: Option<u8>,
    /// HDR10 static metadata boxes often signaled near hvcC.
    pub has_mdcv: bool,
    pub has_clli: bool,
    /// True when an encrypted sample entry (`encv`/`enca`) was observed before `frma`.
    pub had_encrypted_sample_entry: bool,
    /// Media timescale from `mdhd` (prefer video track).
    pub timescale: Option<u32>,
    /// Movie timescale from `mvhd`.
    pub movie_timescale: Option<u32>,
}

/// The ASCII lower case of a character; other characters stay as they are.
pub open spec fn spec_ascii_lower(c: char) -> char {
    if 'A' <= c && c <= 'Z' {
        ((c as int) + 32) as char
    } else {
        c
    }
}

pub open spec fn spec_lower(s: Seq<char>) -> Seq<char> {
    s.map_values(|c: char| spec_ascii_lower(c))
}

fn ascii_lower(c: char) -> (r: char)
    ensures
        r == spec_ascii_lower(c),
{
    if 'A' <= c && c <= 'Z' {
        ((c as u32) + 32) as u8 as char
    } else {
        c
    }
}

/// Whether `s`, in ASCII lower case, equals `t`, which is lower case already.
fn lower_equals(s: &str, t: &str) -> (r: bool)
    ensures
        r == (spec_lower(s@) == t@),
{
    let n = s.unicode_len();
    if n != t.unicode_len() {
        proof {
            assert(spec_lower(s@).len() == s@.len());
        }
        return false;
    }
    let mut i: usize = 0;
    while i < n
        invariant
            i <= n,
            n == s@.len(),
            n == t@.len(),
            forall|j: int| 0 <= j < i ==> spec_ascii_lower(s@[j]) == t@[j],
        decreases n - i,
    {
        if ascii_lower(s.get_char(i)) != t.get_char(i) {
            proof {
                assert(spec_lower(s@)[i as int] != t@[i as int]);
            }
            return false;
        }
        i = i + 1;
    }
    assert(spec_lower(s@) =~= t@);
    true
}

/// The brands that count as compatible with `iso6` or CMAF.
pub open spec fn spec_iso6_brand(b: Seq<char>) -> bool {
    b == "iso6"@ || b == "iso7"@ || b == "iso8"@ || b == "iso9"@ || b == "cmfc"@ || b == "cmfs"@
        || b == "cfsd"@ || b == "msdh"@ || b == "msix"@
}

/// The brands of a probe: the major brand, if any, then the compatible ones.
pub open spec fn spec_all_brands(p: InitSegmentProbe) -> Seq<Seq<char>> {
    let compatible = p.compatible_brands@.map_values(|b: String| b@);
    match p.major_brand {
        Some(m) => seq![m@] + compatible,
        None => compatible,
    }
}

impl InitSegmentProbe {
    /// Brands declared on this init (major, then compatible).
    pub fn all_brands(&self) -> (r: Vec<&str>)
        ensures
            r@.map_values(|b: &str| b@) == spec_all_brands(*self),
    {
        let mut out: Vec<&str> = Vec::new();
        match &self.major_brand {
            Some(m) => out.push(m.as_str()),
            None => {},
        }
        let ghost head = out@.map_values(|b: &str| b@);
        let mut i: usize = 0;
        while i < self.compatible_brands.len()
            invariant
                i <= self.compatible_brands@.len(),
                head == match self.major_brand {
                    Some(m) => seq![m@],
                    None => Seq::<Seq<char>>::empty(),
                },
                out@.map_values(|b: &str| b@) =~= head + self.compatible_brands@.subrange(0, i as int).map_values(
                    |b: String| b@,
                ),
            decreases self.compatible_brands.len() - i,
        {
            let ghost before = out@;
            out.push(self.compatible_brands[i].as_str());
            i = i + 1;
            proof {
                assert(out@.map_values(|b: &str| b@) =~= before.map_values(|b: &str| b@).push(
                    self.compatible_brands@[i - 1]@,
                ));
                assert(self.compatible_brands@.subrange(0, i as int).map_values(|b: String| b@)
                    =~= self.compatible_brands@.subrange(0, i - 1).map_values(|b: String| b@).push(
                    self.compatible_brands@[i - 1]@,
                ));
            }
        }
        proof {
            assert(self.compatible_brands@.subrange(0, i as int) =~= self.compatible_brands@);
        }
        out
    }

    /// HLS requires fMP4 init brands compatible with `iso6` or higher, or CMAF.
    pub fn has_iso6_compatible_brand(&self) -> (r: bool)
        ensures
            r == exists|i: int|
                0 <= i < spec_all_brands(*self).len() && spec_iso6_brand(
                    spec_lower(#[trigger] spec_all_brands(*self)[i]),
                ),
    {
        let brands = self.all_brands();
        let ghost all = spec_all_brands(*self);
        assert(brands@.len() == all.len());
        let mut i: usize = 0;
        while i < brands.len()
            invariant
                i <= brands@.len(),
                brands@.map_values(|b: &str| b@) == all,
                all == spec_all_brands(*self),
                forall|j: int| 0 <= j < i ==> !spec_iso6_brand(spec_lower(#[trigger] all[j])),
            decreases brands.len() - i,
        {
            let b = brands[i];
            assert(all[i as int] == b@);
            if lower_equals(b, "iso6") || lower_equals(b, "iso7") || lower_equals(b, "iso8")
                || lower_equals(b, "iso9") || lower_equals(b, "cmfc") || lower_equals(b, "cmfs")
                || lower_equals(b, "cfsd") || lower_equals(b, "msdh") || lower_equals(b, "msix") {
                assert(spec_iso6_brand(spec_lower(all[i as int])));
                assert(spec_iso6_brand(spec_lower(spec_all_brands(*self)[i as int])));
                return true;
            }
            i = i + 1;
        }
        false
    }

    /// Whether anything typical of an fMP4 init segment was found.
    pub fn looks_like_fmp4_init(&self) -> (r: bool)
        ensures
            r == (self.major_brand is Some || self.video_sample_fourcc is Some
                || self.audio_sample_fourcc is Some || self.compatible_brands@.len() > 0),
    {
        self.major_brand.is_some() || self.video_sample_fourcc.is_some()
            || self.audio_sample_fourcc.is_some() || self.compatible_brands.len() > 0
    }
}

// ---------------------------------------------------------------------------------------
// Whether a four-character code is a box

/// Whether the fourCC at `pos` is preceded by a box size that fits the buffer: 0 (to the
/// end), 1 with a 64-bit size of at least 16 that fits, or at least 8 and fitting.
pub open spec fn spec_plausible_box_at(d: Seq<u8>, pos: int) -> bool {
    if pos < 4 || pos + 4 > d.len() {
        false
    } else {
        let start = pos - 4;
        let size = be_value(d, start, 4);
        if size == 0 {
            true
        } else if size == 1 {
            pos + 12 <= d.len() && be_value(d, pos + 4, 8) >= 16 && start + be_value(d, pos + 4, 8) <= d.len()
        } else {
            size >= 8 && start + size <= d.len()
        }
    }
}

/// Whether the fourCC at `pos` is preceded by a box size that fits the buffer. Without
/// that check any ASCII run in a payload, a `vexu` inside a URL or in compressed sample
/// data, would register as a box and set a probe flag.
pub fn is_plausible_box_at(data: &[u8], pos: usize) -> (r: bool)
    ensures
        r == spec_plausible_box_at(data@, pos as int),
{
    if pos < 4 || pos > data.len() || data.len() - pos < 4 {
        return false;
    }
    let start = pos - 4;
    let size = crate::bytes::read_u32(data, start).unwrap();
    if size == 0 {
        true
    } else if size == 1 {
        if data.len() - pos < 12 {
            return false;
        }
        let large = crate::bytes::read_u64(data, pos + 4).unwrap();
        large >= 16 && (large as u128) + (start as u128) <= data.len() as u128
    } else {
        size >= 8 && (start as u128) + (size as u128) <= data.len() as u128
    }
}

// ---------------------------------------------------------------------------------------
// Codec hints

/// Which video codec's NAL syntax should be trusted while scanning a segment.
#[derive(Debug, Clone, Copy, Default, PartialEq, Eq, Structural)]
pub enum VideoCodecHint {
    /// Codec unknown: both H.264 and HEVC NAL types are checked, which can over-count
    /// (an H.264 SPS header reads as an HEVC IDR NAL type).
    #[default]
    Unknown,
    Avc,
    Hevc,
}

/// Whether `s`, in ASCII lower case, starts with `p`.
pub open spec fn spec_lower_starts_with(s: Seq<char>, p: Seq<char>) -> bool {
    s.len() >= p.len() && spec_lower(s.subrange(0, p.len() as int)) == p
}

/// The hint of a CODECS token or sample-entry fourCC: its trimmed text, compared without
/// regard to ASCII case, starting with an AVC or an HEVC (Dolby Vision included) code.
pub open spec fn spec_codec_hint(s: Seq<char>) -> VideoCodecHint {
    let t = crate::text::spec_trim(s);
    if spec_lower_starts_with(t, "avc1"@) || spec_lower_starts_with(t, "avc3"@) {
        VideoCodecHint::Avc
    } else if spec_lower_starts_with(t, "hvc1"@) || spec_lower_starts_with(t, "hev1"@)
        || spec_lower_starts_with(t, "dvh1"@) || spec_lower_starts_with(t, "dvhe"@) {
        VideoCodecHint::Hevc
    } else {
        VideoCodecHint::Unknown
    }
}

fn lower_starts_with(s: &str, p: &str) -> (r: bool)
    ensures
        r == spec_lower_starts_with(s@, p@),
{
    let n = p.unicode_len();
    if s.unicode_len() < n {
        return false;
    }
    lower_equals(s.substring_char(0, n), p)
}

impl VideoCodecHint {
    /// Derives the hint from a CODECS token or an fMP4 sample-entry fourCC.
    pub fn from_codec_str(s: &str) -> (r: VideoCodecHint)
        ensures
            r == spec_codec_hint(s@),
    {
        let t = crate::text::trim(s);
        if lower_starts_with(t, "avc1") || lower_starts_with(t, "avc3") {
            VideoCodecHint::Avc
        } else if lower_starts_with(t, "hvc1") || lower_starts_with(t, "hev1")
            || lower_starts_with(t, "dvh1") || lower_starts_with(t, "dvhe") {
            VideoCodecHint::Hevc
        } else {
            VideoCodecHint::Unknown
        }
    }

    fn checks_avc(self) -> (r: bool)
        ensures
            r == !(self is Hevc),
    {
        match self {
            VideoCodecHint::Hevc => false,
            _ => true,
        }
    }

    fn checks_hevc(self) -> (r: bool)
        ensures
            r == !(self is Avc),
    {
        match self {
            VideoCodecHint::Avc => false,
            _ => true,
        }
    }
}

// ---------------------------------------------------------------------------------------
// Segment scans

/// What a best-effort scan of a media segment found.
#[derive(Debug, Clone, Copy, PartialEq, Eq)]
pub struct SegmentScan {
    pub looks_like_ts: bool,
    pub looks_like_fmp4: bool,
    pub has_moof: bool,
    pub has_idr_nal_hint: bool,
    /// IDR found near the start of the segment payload.
    pub idr_at_start: bool,
    pub idr_count: usize,
    pub has_tfdt: bool,
    pub tfdt_base_media_decode_time: Option<u64>,
    pub has_senc: bool,
    pub has_saiz: bool,
    pub has_saio: bool,
    /// `Some(false)` when a continuity counter discontinuity was observed in-sample.
    pub ts_continuity_ok: Option<bool>,
    /// Best-effort CEA-608/708 SEI (GA94) hint.
    pub has_cc_sei_hint: bool,
    /// Best-effort APAC ASP marker hint.
    pub has_asp_hint: bool,
}

/// Soft cap on bytes scanned per payload; only pathological segments are truncated, in
/// which case the IDR count under-reports.
pub const MAX_NAL_SCAN_BYTES: usize = 8388608;

/// An IDR found at an offset below this counts as one at the start of the payload.
pub const IDR_AT_START_BYTES: usize = 8192;

/// Whether the four bytes `q0 q1 q2 q3` occur in `b` starting at or after `lo` and ending
/// at or before `hi`.
#[verifier::opaque]
pub open spec fn spec_has_quad(b: Seq<u8>, lo: int, hi: int, q0: u8, q1: u8, q2: u8, q3: u8) -> bool {
    exists|k: int|
        lo <= k && k + 4 <= hi && #[trigger] b[k] == q0 && b[k + 1] == q1 && b[k + 2] == q2 && b[k + 3]
            == q3
}

fn has_quad(b: &[u8], lo: usize, hi: usize, q0: u8, q1: u8, q2: u8, q3: u8) -> (r: bool)
    requires
        hi <= b@.len(),
    ensures
        r == spec_has_quad(b@, lo as int, hi as int, q0, q1, q2, q3),
{
    proof {
        reveal(spec_has_quad);
    }
    let mut k = lo;
    while k < hi && hi - k >= 4
        invariant
            lo <= k,
            hi <= b@.len(),
            forall|j: int|
                lo <= j < k && j + 4 <= hi ==> !(#[trigger] b@[j] == q0 && b@[j + 1] == q1 && b@[j + 2]
                    == q2 && b@[j + 3] == q3),
        decreases hi - k,
    {
        if b[k] == q0 && b[k + 1] == q1 && b[k + 2] == q2 && b[k + 3] == q3 {
            proof {
                reveal(spec_has_quad);
            }
            return true;
        }
        k = k + 1;
    }
    false
}

/// Whether a NAL header byte marks an IDR picture: H.264 type 5, or HEVC type 19 or 20,
/// each only where the hint lets that codec's syntax count.
pub open spec fn spec_nal_idr(b0: u8, codec: VideoCodecHint) -> bool {
    (!(codec is Hevc) && b0 & 0x1f == 5) || (!(codec is Avc) && ((b0 >> 1u8) & 0x3f == 19
        || (b0 >> 1u8) & 0x3f == 20))
}

/// Whether a NAL header byte marks SEI: H.264 type 6 or HEVC type 39.
pub open spec fn spec_nal_sei(b0: u8, codec: VideoCodecHint) -> bool {
    (!(codec is Hevc) && b0 & 0x1f == 6) || (!(codec is Avc) && (b0 >> 1u8) & 0x3f == 39)
}

/// Whether the NAL at `o` is SEI with a `GA94` payload in its first 64 bytes.
pub open spec fn spec_nal_cc(buf: Seq<u8>, o: int, codec: VideoCodecHint) -> bool {
    0 <= o < buf.len() && spec_nal_sei(buf[o], codec) && spec_has_quad(
        buf,
        o,
        if o + 64 < buf.len() { o + 64 } else { buf.len() as int },
        0x47,
        0x41,
        0x39,
        0x34,
    )
}

/// The NAL header offsets that Annex-B start codes mark, from `i` on: after `00 00 01` or
/// `00 00 00 01`, looking only where five bytes remain.
pub open spec fn spec_annexb(buf: Seq<u8>, i: int) -> Seq<int>
    decreases buf.len() - i,
{
    if i < 0 || i + 4 >= buf.len() {
        Seq::empty()
    } else if buf[i] == 0 && buf[i + 1] == 0 && buf[i + 2] == 1 {
        seq![i + 3] + spec_annexb(buf, i + 3)
    } else if buf[i] == 0 && buf[i + 1] == 0 && buf[i + 2] == 0 && buf[i + 3] == 1 {
        seq![i + 4] + spec_annexb(buf, i + 4)
    } else {
        spec_annexb(buf, i + 1)
    }
}

/// The NAL header offsets of 32-bit length-prefixed NALs from `off` on. The walk stays
/// aligned: a zero length or one past the end stops it.
pub open spec fn spec_length_prefixed(buf: Seq<u8>, off: int) -> Seq<int>
    decreases buf.len() - off,
{
    if off < 0 || off + 4 >= buf.len() {
        Seq::empty()
    } else {
        let n = be_value(buf, off, 4);
        if n == 0 || n > buf.len() - (off + 4) {
            Seq::empty()
        } else {
            seq![off + 4] + spec_length_prefixed(buf, off + 4 + n)
        }
    }
}

/// Every NAL header offset that either pass finds.
pub open spec fn spec_nal_offsets(buf: Seq<u8>) -> Seq<int> {
    spec_annexb(buf, 0) + spec_length_prefixed(buf, 0)
}

/// The distinct offsets of IDR NALs.
#[verifier::opaque]
pub open spec fn spec_idr_offsets(buf: Seq<u8>, codec: VideoCodecHint) -> Set<int> {
    Set::new(
        |x: int|
            spec_nal_offsets(buf).contains(x) && 0 <= x < buf.len() && spec_nal_idr(buf[x], codec),
    )
}

/// The part of a payload that is scanned.
pub open spec fn spec_scanned(data: Seq<u8>) -> Seq<u8> {
    data.subrange(
        0,
        if data.len() < MAX_NAL_SCAN_BYTES { data.len() as int } else { MAX_NAL_SCAN_BYTES as int },
    )
}

/// A scan after its NAL hints were looked for in `data`: IDR offsets found by either pass
/// are counted once each, `GA94` SEI marks captions, and `asp ` marks an APAC ASP.
#[verifier::opaque]
pub open spec fn spec_after_nal_scan(old: SegmentScan, data: Seq<u8>, codec: VideoCodecHint) -> SegmentScan {
    let buf = spec_scanned(data);
    let idrs = spec_idr_offsets(buf, codec);
    SegmentScan {
        has_idr_nal_hint: old.has_idr_nal_hint || idrs.len() > 0,
        has_cc_sei_hint: old.has_cc_sei_hint || spec_any_cc(buf, spec_nal_offsets(buf), codec),
        idr_count: (old.idr_count + idrs.len()) as usize,
        idr_at_start: old.idr_at_start || spec_any_early(idrs),
        has_asp_hint: old.has_asp_hint || spec_has_quad(buf, 0, buf.len() as int, 0x61, 0x73, 0x70, 0x20),
        ..old
    }
}

/// Whether an offset among `seen` holds caption SEI.
#[verifier::opaque]
pub open spec fn spec_any_cc(buf: Seq<u8>, seen: Seq<int>, codec: VideoCodecHint) -> bool {
    exists|x: int| seen.contains(x) && #[trigger] spec_nal_cc(buf, x, codec)
}

/// Whether an offset of `idrs` is near the start of the payload.
#[verifier::opaque]
pub open spec fn spec_any_early(idrs: Set<int>) -> bool {
    exists|x: int| #[trigger] idrs.contains(x) && x < IDR_AT_START_BYTES
}

/// The offsets as integers.
pub open spec fn spec_ints(v: Seq<usize>) -> Seq<int> {
    v.map_values(|x: usize| x as int)
}

/// What the passes gathered so far: the distinct IDR offsets among `seen`, whether one is
/// near the start, and whether caption SEI was seen.
#[verifier::opaque]
pub open spec fn spec_gathered(
    buf: Seq<u8>,
    codec: VideoCodecHint,
    seen: Seq<int>,
    idrs: Seq<usize>,
    early: bool,
    cc: bool,
) -> bool {
    &&& spec_ints(idrs).no_duplicates()
    &&& forall|x: int| #[trigger] spec_ints(idrs).contains(x) <==> (seen.contains(x) && 0 <= x < buf.len()
        && spec_nal_idr(buf[x], codec))
    &&& early == exists|j: int| 0 <= j < idrs.len() && #[trigger] idrs[j] < IDR_AT_START_BYTES
    &&& cc == spec_any_cc(buf, seen, codec)
}

/// Records the NAL at `o`, keeping the gathered state.
fn record_nal(
    buf: &[u8],
    o: usize,
    codec: VideoCodecHint,
    idrs: &mut Vec<usize>,
    early: &mut bool,
    cc: &mut bool,
    Ghost(seen): Ghost<Seq<int>>,
)
    requires
        o < buf@.len(),
        spec_gathered(buf@, codec, seen, old(idrs)@, *old(early), *old(cc)),
    ensures
        spec_gathered(buf@, codec, seen.push(o as int), final(idrs)@, *final(early), *final(cc)),
        final(idrs)@.len() <= old(idrs)@.len() + 1,
{
    proof {
        reveal(spec_gathered);
        reveal(spec_any_cc);
        reveal(spec_any_early);
        reveal(spec_idr_offsets);
    }
    let b0 = buf[o];
    let avc = codec.checks_avc();
    let hevc = codec.checks_hevc();
    let is_idr = (avc && b0 & 0x1f == 5) || (hevc && ((b0 >> 1u8) & 0x3f == 19 || (b0 >> 1u8) & 0x3f == 20));
    let is_sei = (avc && b0 & 0x1f == 6) || (hevc && (b0 >> 1u8) & 0x3f == 39);
    let ghost s2 = seen.push(o as int);
    if is_sei {
        let hi = if buf.len() - o > 64 { o + 64 } else { buf.len() };
        if has_quad(buf, o, hi, 0x47, 0x41, 0x39, 0x34) {
            *cc = true;
            assert(spec_nal_cc(buf@, o as int, codec));
            assert(s2[seen.len() as int] == o as int);
            assert(s2.contains(o as int));
        }
    }
    proof {
        assert forall|x: int| seen.contains(x) implies s2.contains(x) by {
            let j = choose|j: int| 0 <= j < seen.len() && seen[j] == x;
            assert(s2[j] == x);
        }
        assert forall|x: int| s2.contains(x) && x != o implies seen.contains(x) by {
            let j = choose|j: int| 0 <= j < s2.len() && s2[j] == x;
            assert(seen[j] == x);
        }
        assert(s2[seen.len() as int] == o);
    }
    if is_idr {
        let mut k: usize = 0;
        let mut found = false;
        while k < idrs.len()
            invariant
                k <= idrs@.len(),
                found == exists|j: int| 0 <= j < k && idrs@[j] == o,
            decreases idrs.len() - k,
        {
            if idrs[k] == o {
                found = true;
            }
            k = k + 1;
        }
        if !found {
            let ghost before = idrs@;
            idrs.push(o);
            if o < IDR_AT_START_BYTES {
                *early = true;
            }
            proof {
                assert(spec_ints(idrs@) =~= spec_ints(before).push(o as int));
                assert(!spec_ints(before).contains(o as int)) by {
                    if spec_ints(before).contains(o as int) {
                        let j = choose|j: int| 0 <= j < spec_ints(before).len() && spec_ints(before)[j] == o as int;
                        assert(before[j] == o);
                    }
                }
                assert(idrs@[before.len() as int] == o);
                assert(idrs@.contains(o));
                if o < IDR_AT_START_BYTES {
                    assert(idrs@[before.len() as int] < IDR_AT_START_BYTES);
                } else {
                    if exists|j: int| 0 <= j < idrs@.len() && #[trigger] idrs@[j] < IDR_AT_START_BYTES {
                        let j = choose|j: int| 0 <= j < idrs@.len() && #[trigger] idrs@[j] < IDR_AT_START_BYTES;
                        assert(before[j] < IDR_AT_START_BYTES);
                    }
                    if *early {
                        let j = choose|j: int| 0 <= j < before.len() && #[trigger] before[j] < IDR_AT_START_BYTES;
                        assert(idrs@[j] < IDR_AT_START_BYTES);
                    }
                }
            }
        } else {
            proof {
                let j = choose|j: int| 0 <= j < k && idrs@[j] == o;
                assert(spec_ints(idrs@)[j] == o as int);
                assert(idrs@.contains(o));
            }
        }
    }
    proof {
        assert(idrs@ == old(idrs)@ || idrs@ == old(idrs)@.push(o));
        assert(is_idr == spec_nal_idr(buf@[o as int], codec));
        assert forall|x: int| #[trigger] spec_ints(idrs@).contains(x) <==> (s2.contains(x) && 0 <= x
            < buf@.len() && spec_nal_idr(buf@[x], codec)) by {
            if x == o as int {
                if is_idr {
                    let j = choose|j: int| 0 <= j < idrs@.len() && idrs@[j] == o;
                    assert(spec_ints(idrs@)[j] == x);
                } else {
                    assert(idrs@ == old(idrs)@);
                    if spec_ints(idrs@).contains(x) {
                        assert(spec_ints(old(idrs)@).contains(x));
                        assert(false);
                    }
                }
            } else {
                if spec_ints(idrs@).contains(x) {
                    let j = choose|j: int| 0 <= j < spec_ints(idrs@).len() && spec_ints(idrs@)[j] == x;
                    if j < spec_ints(old(idrs)@).len() {
                        assert(spec_ints(old(idrs)@)[j] == x);
                        assert(spec_ints(old(idrs)@).contains(x));
                    } else {
                        assert(idrs@[j] == o);
                    }
                }
                if s2.contains(x) && 0 <= x < buf@.len() && spec_nal_idr(buf@[x], codec) {
                    assert(seen.contains(x));
                    assert(spec_ints(old(idrs)@).contains(x));
                    let j = choose|j: int| 0 <= j < spec_ints(old(idrs)@).len() && spec_ints(old(idrs)@)[j] == x;
                    assert(spec_ints(idrs@)[j] == x);
                }
            }
        }
    }
}

/// The gathered IDR offsets are exactly the distinct IDR offsets, and there are no more
/// of them than bytes.
proof fn lemma_gathered_count(buf: Seq<u8>, codec: VideoCodecHint, idrs: Seq<usize>, early: bool, cc: bool)
    requires
        spec_gathered(buf, codec, spec_nal_offsets(buf), idrs, early, cc),
    ensures
        spec_ints(idrs).to_set() == spec_idr_offsets(buf, codec),
        spec_idr_offsets(buf, codec).len() == idrs.len(),
        idrs.len() <= buf.len(),
        early == spec_any_early(spec_idr_offsets(buf, codec)),
        idrs.len() == 0 ==> !early,
        cc == spec_any_cc(buf, spec_nal_offsets(buf), codec),
{
    reveal(spec_gathered);
    reveal(spec_any_cc);
    reveal(spec_any_early);
    reveal(spec_idr_offsets);
    let g = spec_ints(idrs);
    let s = spec_idr_offsets(buf, codec);
    assert(g.to_set() =~= s);
    g.unique_seq_to_set();
    vstd::set_lib::lemma_int_range(0, buf.len() as int);
    assert(s.subset_of(vstd::set_lib::set_int_range(0, buf.len() as int)));
    vstd::set_lib::lemma_len_subset(s, vstd::set_lib::set_int_range(0, buf.len() as int));
    if early {
        let j = choose|j: int| 0 <= j < idrs.len() && #[trigger] idrs[j] < IDR_AT_START_BYTES;
        assert(g[j] == idrs[j] as int);
        assert(g.contains(g[j]));
        assert(s.contains(g[j]));
    }
    if exists|x: int| #[trigger] s.contains(x) && x < IDR_AT_START_BYTES {
        let x = choose|x: int| #[trigger] s.contains(x) && x < IDR_AT_START_BYTES;
        assert(g.contains(x));
        let j = choose|j: int| 0 <= j < g.len() && g[j] == x;
        assert(idrs[j] < IDR_AT_START_BYTES);
    }
}

/// The first pass: NALs after Annex-B start codes.
fn gather_annexb(buf: &[u8], codec: VideoCodecHint) -> (r: (Vec<usize>, bool, bool))
    ensures
        spec_gathered(buf@, codec, spec_annexb(buf@, 0), r.0@, r.1, r.2),
{
    let n = buf.len();
    let mut idrs: Vec<usize> = Vec::new();
    let mut early = false;
    let mut cc = false;
    let ghost mut seen: Seq<int> = Seq::empty();
    proof {
        reveal(spec_gathered);
        reveal(spec_any_cc);
        reveal(spec_any_early);
        reveal(spec_idr_offsets);
        assert(spec_ints(idrs@) =~= Seq::<int>::empty());
        assert(seen + spec_annexb(buf@, 0) =~= spec_annexb(buf@, 0));
    }
    let mut i: usize = 0;
    while i < n && n - i > 4
        invariant
            i <= n,
            n == buf@.len(),
            seen + spec_annexb(buf@, i as int) == spec_annexb(buf@, 0),
            spec_gathered(buf@, codec, seen, idrs@, early, cc),
        decreases n - i,
    {
        if buf[i] == 0 && buf[i + 1] == 0 && buf[i + 2] == 1 {
            record_nal(buf, i + 3, codec, &mut idrs, &mut early, &mut cc, Ghost(seen));
            proof {
                assert(seen.push((i + 3) as int) + spec_annexb(buf@, i + 3) =~= seen + spec_annexb(buf@, i as int));
                seen = seen.push((i + 3) as int);
            }
            i = i + 3;
        } else if buf[i] == 0 && buf[i + 1] == 0 && buf[i + 2] == 0 && buf[i + 3] == 1 {
            record_nal(buf, i + 4, codec, &mut idrs, &mut early, &mut cc, Ghost(seen));
            proof {
                assert(seen.push((i + 4) as int) + spec_annexb(buf@, i + 4) =~= seen + spec_annexb(buf@, i as int));
                seen = seen.push((i + 4) as int);
            }
            i = i + 4;
        } else {
            i = i + 1;
        }
    }
    proof {
        assert(spec_annexb(buf@, i as int) =~= Seq::<int>::empty());
        assert(seen =~= spec_annexb(buf@, 0));
    }
    (idrs, early, cc)
}

/// The second pass: 32-bit length-prefixed NALs, added to what the first pass gathered.
fn gather_length_prefixed(
    buf: &[u8],
    codec: VideoCodecHint,
    idrs: &mut Vec<usize>,
    early: &mut bool,
    cc: &mut bool,
)
    requires
        spec_gathered(buf@, codec, spec_annexb(buf@, 0), old(idrs)@, *old(early), *old(cc)),
    ensures
        spec_gathered(buf@, codec, spec_nal_offsets(buf@), final(idrs)@, *final(early), *final(cc)),
{
    let n = buf.len();
    let ghost mut seen: Seq<int> = spec_annexb(buf@, 0);
    let mut off: usize = 0;
    let mut stopped = false;
    while !stopped && off < n && n - off > 4
        invariant
            off <= n,
            n == buf@.len(),
            seen + spec_length_prefixed(buf@, off as int) == spec_nal_offsets(buf@),
            stopped ==> seen == spec_nal_offsets(buf@),
            spec_gathered(buf@, codec, seen, idrs@, *early, *cc),
        decreases n - off + if stopped { 0int } else { 1int },
    {
        let len = crate::bytes::read_u32(buf, off).unwrap() as usize;
        if len == 0 || len > n - (off + 4) {
            proof {
                assert(spec_length_prefixed(buf@, off as int) =~= Seq::<int>::empty());
                assert(seen =~= spec_nal_offsets(buf@));
            }
            stopped = true;
        } else {
            record_nal(buf, off + 4, codec, idrs, early, cc, Ghost(seen));
            proof {
                assert(seen.push((off + 4) as int) + spec_length_prefixed(buf@, off + 4 + len) =~= seen
                    + spec_length_prefixed(buf@, off as int));
                seen = seen.push((off + 4) as int);
            }
            off = off + 4 + len;
        }
    }
    proof {
        if !stopped {
            assert(spec_length_prefixed(buf@, off as int) =~= Seq::<int>::empty());
            assert(seen =~= spec_nal_offsets(buf@));
        }
    }
}

/// Looks for IDR pictures, caption SEI and APAC markers in `data`, counting IDR offsets
/// that the Annex-B and the length-prefixed passes agree on once.
#[verifier::rlimit(100)]
fn scan_nal_hints(data: &[u8], scan: &mut SegmentScan, codec: VideoCodecHint)
    requires
        old(scan).idr_count + data@.len() <= usize::MAX,
    ensures
        *final(scan) == spec_after_nal_scan(*old(scan), data@, codec),
        final(scan).idr_count <= old(scan).idr_count + data@.len(),
        (old(scan).idr_count > 0 ==> old(scan).has_idr_nal_hint) ==> (final(scan).idr_count > 0 ==> final(scan).has_idr_nal_hint),
{
    proof {
        reveal(spec_after_nal_scan);
    }
    let n = if data.len() < MAX_NAL_SCAN_BYTES { data.len() } else { MAX_NAL_SCAN_BYTES };
    let buf = &data[0..n];
    assert(buf@ == spec_scanned(data@));
    let (mut idrs, mut early, mut cc) = gather_annexb(buf, codec);
    gather_length_prefixed(buf, codec, &mut idrs, &mut early, &mut cc);
    proof {
        lemma_gathered_count(buf@, codec, idrs@, early, cc);
    }
    let asp = has_quad(buf, 0, n, 0x61, 0x73, 0x70, 0x20);
    let old_scan = *scan;
    *scan = SegmentScan {
        has_idr_nal_hint: old_scan.has_idr_nal_hint || idrs.len() > 0,
        has_cc_sei_hint: old_scan.has_cc_sei_hint || cc,
        idr_count: old_scan.idr_count + idrs.len(),
        idr_at_start: old_scan.idr_at_start || early,
        has_asp_hint: old_scan.has_asp_hint || asp,
        ..old_scan
    };
}


// ---------------------------------------------------------------------------------------
// ISO-BMFF box walk

/// The size and header length of the box at `i` in a walk that ends at `end`, or `None`
/// when its 64-bit size does not fit before `end`. A size of 0 runs to `end`.
pub open spec fn spec_box_size(d: Seq<u8>, i: int, end: int) -> Option<(int, int)> {
    let s32 = be_value(d, i, 4);
    if s32 == 1 {
        if i + 16 > end {
            None
        } else {
            Some((((be_value(d, i + 8, 8) as u64) as usize) as int, 16))
        }
    } else if s32 == 0 {
        Some((end - i, 8))
    } else {
        Some((((s32 as u32) as usize) as int, 8))
    }
}

/// A scan after a `tfdt` box body `[bs, be)`: the first base media decode time found, 64
/// bits for version 1 when the body holds them, else 32 bits.
pub open spec fn spec_after_tfdt(d: Seq<u8>, bs: int, be: int, st: SegmentScan) -> SegmentScan {
    let st1 = SegmentScan { has_tfdt: true, looks_like_fmp4: true, ..st };
    if st.tfdt_base_media_decode_time is None && bs + 8 <= be {
        if d[bs] == 1 && bs + 12 <= be {
            SegmentScan { tfdt_base_media_decode_time: Some(be_value(d, bs + 4, 8) as u64), ..st1 }
        } else {
            SegmentScan { tfdt_base_media_decode_time: Some(be_value(d, bs + 4, 4) as u64), ..st1 }
        }
    } else {
        st1
    }
}

/// Whether a box type is one of the containers that the walk descends into.
pub open spec fn spec_is_container(typ: int) -> bool {
    typ == 0x6d6f6f66 || typ == 0x74726166 || typ == 0x7472616b || typ == 0x6d646961 || typ == 0x6d696e66 || typ
        == 0x7374626c
}

/// What one box of type `typ` with body `[bs, be)` adds to a scan: fMP4 markers,
/// encryption boxes, the decode time, NAL hints of `mdat` payloads, and the boxes inside
/// the containers.
pub open spec fn spec_box_effect(
    d: Seq<u8>,
    typ: int,
    bs: int,
    be: int,
    st: SegmentScan,
    depth: int,
    codec: VideoCodecHint,
) -> SegmentScan
    decreases be - bs, 2int,
{
    if typ == 0x66747970 || typ == 0x6d6f6f76 || typ
        == 0x73696478 {
        SegmentScan { looks_like_fmp4: true, ..st }
    } else if typ == 0x6d6f6f66 {
        spec_walk(
            d,
            bs,
            be,
            SegmentScan { looks_like_fmp4: true, has_moof: true, ..st },
            depth + 1,
            codec,
        )
    } else if spec_is_container(typ) {
        spec_walk(d, bs, be, st, depth + 1, codec)
    } else if typ == 0x6d646174 {
        spec_after_nal_scan(SegmentScan { looks_like_fmp4: true, ..st }, d.subrange(bs, be), codec)
    } else if typ == 0x73656e63 {
        SegmentScan { has_senc: true, ..st }
    } else if typ == 0x7361697a {
        SegmentScan { has_saiz: true, ..st }
    } else if typ == 0x7361696f {
        SegmentScan { has_saio: true, ..st }
    } else if typ == 0x74666474 {
        spec_after_tfdt(d, bs, be, st)
    } else {
        st
    }
}

/// Walks the boxes in `[i, end)` at nesting `depth`, descending into the containers that
/// hold `tfdt` and `mdat` (at most 12 deep), scanning `mdat` payloads for NAL hints and
/// stopping at the first box whose size does not fit.
pub open spec fn spec_walk(d: Seq<u8>, i: int, end: int, st: SegmentScan, depth: int, codec: VideoCodecHint) -> SegmentScan
    decreases end - i, 1int,
{
    if depth > 12 || i + 8 > end {
        st
    } else {
        match spec_box_size(d, i, end) {
            None => st,
            Some((size, header)) => if size < header || i + size > end {
                st
            } else {
                let st2 = spec_box_effect(d, be_value(d, i + 4, 4) as int, i + header, i + size, st, depth, codec);
                spec_walk(d, i + size, end, st2, depth, codec)
            },
        }
    }
}

/// Whether `b` keeps every finding of `a`: each flag that was set stays set, a decode time
/// once found stays, and the transport-stream fields are untouched.
pub open spec fn spec_scan_keeps(a: SegmentScan, b: SegmentScan) -> bool {
    &&& a.looks_like_fmp4 ==> b.looks_like_fmp4
    &&& a.has_moof ==> b.has_moof
    &&& a.has_idr_nal_hint ==> b.has_idr_nal_hint
    &&& a.idr_at_start ==> b.idr_at_start
    &&& a.has_tfdt ==> b.has_tfdt
    &&& a.has_senc ==> b.has_senc
    &&& a.has_saiz ==> b.has_saiz
    &&& a.has_saio ==> b.has_saio
    &&& a.has_cc_sei_hint ==> b.has_cc_sei_hint
    &&& a.has_asp_hint ==> b.has_asp_hint
    &&& a.tfdt_base_media_decode_time is Some ==> b.tfdt_base_media_decode_time == a.tfdt_base_media_decode_time
    &&& b.looks_like_ts == a.looks_like_ts
    &&& b.ts_continuity_ok == a.ts_continuity_ok
}

/// A box walk only adds findings: every flag of the scan that was set stays set, a decode
/// time already found is kept, and the transport-stream fields are left alone.
pub proof fn lemma_walk_keeps_findings(d: Seq<u8>, i: int, end: int, st: SegmentScan, depth: int, codec: VideoCodecHint)
    ensures
        spec_scan_keeps(st, spec_walk(d, i, end, st, depth, codec)),
    decreases end - i, 1int,
{
    if depth > 12 || i + 8 > end {
    } else {
        match spec_box_size(d, i, end) {
            None => {},
            Some((size, header)) => if size < header || i + size > end {
            } else {
                let st2 = spec_box_effect(d, be_value(d, i + 4, 4) as int, i + header, i + size, st, depth, codec);
                lemma_box_keeps_findings(d, be_value(d, i + 4, 4) as int, i + header, i + size, st, depth, codec);
                lemma_walk_keeps_findings(d, i + size, end, st2, depth, codec);
            },
        }
    }
}

/// One box only adds findings, as `lemma_walk_keeps_findings` states of a walk.
pub proof fn lemma_box_keeps_findings(
    d: Seq<u8>,
    typ: int,
    bs: int,
    be: int,
    st: SegmentScan,
    depth: int,
    codec: VideoCodecHint,
)
    ensures
        spec_scan_keeps(st, spec_box_effect(d, typ, bs, be, st, depth, codec)),
    decreases be - bs, 2int,
{
    if typ == 0x66747970 || typ == 0x6d6f6f76 || typ == 0x73696478 {
    } else if typ == 0x6d6f6f66 {
        let st1 = SegmentScan { looks_like_fmp4: true, has_moof: true, ..st };
        lemma_walk_keeps_findings(d, bs, be, st1, depth + 1, codec);
    } else if spec_is_container(typ) {
        lemma_walk_keeps_findings(d, bs, be, st, depth + 1, codec);
    } else if typ == 0x6d646174 {
        reveal(spec_after_nal_scan);
        assert(spec_scan_keeps(st, spec_after_nal_scan(SegmentScan { looks_like_fmp4: true, ..st }, d.subrange(bs, be), codec)));
    } else if typ == 0x74666474 {
        assert(spec_scan_keeps(st, spec_after_tfdt(d, bs, be, st)));
    } else {
    }
}

/// With the codec unknown, every IDR offset that one codec's syntax finds is found too.
proof fn lemma_unknown_codec_idr_offsets(buf: Seq<u8>, codec: VideoCodecHint)
    ensures
        spec_idr_offsets(buf, codec).len() > 0 ==> spec_idr_offsets(buf, VideoCodecHint::Unknown).len() > 0,
{
    reveal(spec_idr_offsets);
    let a = spec_idr_offsets(buf, codec);
    let u = spec_idr_offsets(buf, VideoCodecHint::Unknown);
    let r = vstd::set_lib::set_int_range(0, buf.len() as int);
    vstd::set_lib::lemma_int_range(0, buf.len() as int);
    assert forall|x: int| a.contains(x) implies r.contains(x) by {}
    assert forall|x: int| u.contains(x) implies r.contains(x) by {}
    assert(a.subset_of(r));
    assert(u.subset_of(r));
    vstd::set_lib::lemma_len_subset(a, r);
    vstd::set_lib::lemma_len_subset(u, r);
    vstd::set_lib::lemma_set_empty_equivalency_len(a);
    vstd::set_lib::lemma_set_empty_equivalency_len(u);
    if a.len() > 0 {
        let x = choose|x: int| a.contains(x);
        assert(a.contains(x));
        assert(spec_nal_idr(buf[x], codec));
        assert(spec_nal_idr(buf[x], VideoCodecHint::Unknown));
        assert(u.contains(x));
    }
}

/// Whether the scan `b`, made with the codec unknown, agrees with `a` on everything that
/// does not depend on the codec, and has found an IDR wherever `a` has.
pub open spec fn spec_finds_as_much(a: SegmentScan, b: SegmentScan) -> bool {
    &&& a.looks_like_ts == b.looks_like_ts
    &&& a.looks_like_fmp4 == b.looks_like_fmp4
    &&& a.has_moof == b.has_moof
    &&& a.has_tfdt == b.has_tfdt
    &&& a.tfdt_base_media_decode_time == b.tfdt_base_media_decode_time
    &&& a.has_senc == b.has_senc
    &&& a.has_saiz == b.has_saiz
    &&& a.has_saio == b.has_saio
    &&& a.ts_continuity_ok == b.ts_continuity_ok
    &&& a.has_asp_hint == b.has_asp_hint
    &&& a.has_idr_nal_hint ==> b.has_idr_nal_hint
}

proof fn lemma_nal_scan_codec(a: SegmentScan, b: SegmentScan, data: Seq<u8>, codec: VideoCodecHint)
    requires
        spec_finds_as_much(a, b),
    ensures
        spec_finds_as_much(spec_after_nal_scan(a, data, codec), spec_after_nal_scan(b, data, VideoCodecHint::Unknown)),
{
    reveal(spec_after_nal_scan);
    lemma_unknown_codec_idr_offsets(spec_scanned(data), codec);
}

proof fn lemma_walk_codec(d: Seq<u8>, i: int, end: int, a: SegmentScan, b: SegmentScan, depth: int, codec: VideoCodecHint)
    requires
        spec_finds_as_much(a, b),
    ensures
        spec_finds_as_much(spec_walk(d, i, end, a, depth, codec), spec_walk(d, i, end, b, depth, VideoCodecHint::Unknown)),
    decreases end - i, 1int,
{
    if depth > 12 || i + 8 > end {
    } else {
        match spec_box_size(d, i, end) {
            None => {},
            Some((size, header)) => if size < header || i + size > end {
            } else {
                let typ = be_value(d, i + 4, 4) as int;
                lemma_box_codec(d, typ, i + header, i + size, a, b, depth, codec);
                lemma_walk_codec(
                    d,
                    i + size,
                    end,
                    spec_box_effect(d, typ, i + header, i + size, a, depth, codec),
                    spec_box_effect(d, typ, i + header, i + size, b, depth, VideoCodecHint::Unknown),
                    depth,
                    codec,
                );
            },
        }
    }
}

#[verifier::rlimit(60)]
proof fn lemma_box_codec(d: Seq<u8>, typ: int, bs: int, be: int, a: SegmentScan, b: SegmentScan, depth: int, codec: VideoCodecHint)
    requires
        spec_finds_as_much(a, b),
    ensures
        spec_finds_as_much(
            spec_box_effect(d, typ, bs, be, a, depth, codec),
            spec_box_effect(d, typ, bs, be, b, depth, VideoCodecHint::Unknown),
        ),
    decreases be - bs, 2int,
{
    if typ == 0x66747970 || typ == 0x6d6f6f76 || typ == 0x73696478 {
    } else if typ == 0x6d6f6f66 {
        lemma_walk_codec(
            d,
            bs,
            be,
            SegmentScan { looks_like_fmp4: true, has_moof: true, ..a },
            SegmentScan { looks_like_fmp4: true, has_moof: true, ..b },
            depth + 1,
            codec,
        );
    } else if spec_is_container(typ) {
        lemma_walk_codec(d, bs, be, a, b, depth + 1, codec);
    } else if typ == 0x6d646174 {
        lemma_nal_scan_codec(
            SegmentScan { looks_like_fmp4: true, ..a },
            SegmentScan { looks_like_fmp4: true, ..b },
            d.subrange(bs, be),
            codec,
        );
    } else {
    }
}

/// There are no more IDR offsets in a payload than bytes.
proof fn lemma_idr_offsets_len(buf: Seq<u8>, codec: VideoCodecHint)
    ensures
        spec_idr_offsets(buf, codec).len() <= buf.len(),
{
    reveal(spec_idr_offsets);
    let a = spec_idr_offsets(buf, codec);
    let r = vstd::set_lib::set_int_range(0, buf.len() as int);
    vstd::set_lib::lemma_int_range(0, buf.len() as int);
    assert forall|x: int| a.contains(x) implies r.contains(x) by {}
    vstd::set_lib::lemma_len_subset(a, r);
}

/// A box walk counts IDRs without losing any: the count never falls, and it grows by no
/// more than the bytes walked (so it cannot wrap where that fits a `usize`). A walk deeper
/// than 12 containers changes nothing.
pub proof fn lemma_walk_idr_count(d: Seq<u8>, i: int, end: int, st: SegmentScan, depth: int, codec: VideoCodecHint)
    requires
        0 <= i <= end <= d.len(),
        st.idr_count + (end - i) <= usize::MAX,
    ensures
        st.idr_count <= spec_walk(d, i, end, st, depth, codec).idr_count <= st.idr_count + (end - i),
        depth > 12 ==> spec_walk(d, i, end, st, depth, codec) == st,
    decreases end - i, 1int,
{
    if depth > 12 || i + 8 > end {
    } else {
        match spec_box_size(d, i, end) {
            None => {},
            Some((size, header)) => if size < header || i + size > end {
            } else {
                let typ = be_value(d, i + 4, 4) as int;
                lemma_box_idr_count(d, typ, i + header, i + size, st, depth, codec);
                let st2 = spec_box_effect(d, typ, i + header, i + size, st, depth, codec);
                lemma_walk_idr_count(d, i + size, end, st2, depth, codec);
            },
        }
    }
}

proof fn lemma_box_idr_count(d: Seq<u8>, typ: int, bs: int, be: int, st: SegmentScan, depth: int, codec: VideoCodecHint)
    requires
        0 <= bs <= be <= d.len(),
        st.idr_count + (be - bs) <= usize::MAX,
    ensures
        st.idr_count <= spec_box_effect(d, typ, bs, be, st, depth, codec).idr_count <= st.idr_count + (be - bs),
    decreases be - bs, 2int,
{
    if typ == 0x66747970 || typ == 0x6d6f6f76 || typ == 0x73696478 {
    } else if typ == 0x6d6f6f66 {
        lemma_walk_idr_count(d, bs, be, SegmentScan { looks_like_fmp4: true, has_moof: true, ..st }, depth + 1, codec);
    } else if spec_is_container(typ) {
        lemma_walk_idr_count(d, bs, be, st, depth + 1, codec);
    } else if typ == 0x6d646174 {
        reveal(spec_after_nal_scan);
        let body = d.subrange(bs, be);
        lemma_idr_offsets_len(spec_scanned(body), codec);
        assert(spec_scanned(body).len() <= body.len());
    } else {
    }
}

fn walk_boxes(data: &[u8], start: usize, end: usize, scan: &mut SegmentScan, depth: usize, codec: VideoCodecHint)
    requires
        start <= end <= data@.len(),
        old(scan).idr_count + (end - start) <= usize::MAX,
    ensures
        *final(scan) == spec_walk(data@, start as int, end as int, *old(scan), depth as int, codec),
        final(scan).idr_count <= old(scan).idr_count + (end - start),
        (old(scan).idr_count > 0 ==> old(scan).has_idr_nal_hint) ==> (final(scan).idr_count > 0 ==> final(scan).has_idr_nal_hint),
    decreases end - start, 1int,
{
    if depth > 12 {
        return;
    }
    let mut i = start;
    let ghost base = old(scan).idr_count;
    while i <= end && end - i >= 8
        invariant
            start <= i <= end <= data@.len(),
            depth <= 12,
            spec_walk(data@, start as int, end as int, *old(scan), depth as int, codec) == spec_walk(
                data@,
                i as int,
                end as int,
                *scan,
                depth as int,
                codec,
            ),
            scan.idr_count <= base + (i - start),
            base == old(scan).idr_count,
            base + (end - start) <= usize::MAX,
            (old(scan).idr_count > 0 ==> old(scan).has_idr_nal_hint) ==> (scan.idr_count > 0 ==> scan.has_idr_nal_hint),
        decreases end - i,
    {
        let s32 = crate::bytes::read_u32(data, i).unwrap();
        let mut size: usize = s32 as usize;
        let mut header: usize = 8;
        if s32 == 1 {
            if end - i < 16 {
                return;
            }
            size = crate::bytes::read_u64(data, i + 8).unwrap() as usize;
            header = 16;
        } else if s32 == 0 {
            size = end - i;
        }
        if size < header || size > end - i {
            return;
        }
        let typ = crate::bytes::read_u32(data, i + 4).unwrap();
        apply_box(data, typ, i + header, i + size, scan, depth, codec);
        i = i + size;
    }
}

#[verifier::rlimit(50)]
fn apply_box(
    data: &[u8],
    typ: u32,
    body_start: usize,
    body_end: usize,
    scan: &mut SegmentScan,
    depth: usize,
    codec: VideoCodecHint,
)
    requires
        body_start <= body_end <= data@.len(),
        depth <= 12,
        old(scan).idr_count + (body_end - body_start) <= usize::MAX,
    ensures
        *final(scan) == spec_box_effect(data@, typ as int, body_start as int, body_end as int, *old(scan), depth as int, codec),
        final(scan).idr_count <= old(scan).idr_count + (body_end - body_start),
        (old(scan).idr_count > 0 ==> old(scan).has_idr_nal_hint) ==> (final(scan).idr_count > 0 ==> final(scan).has_idr_nal_hint),
    decreases body_end - body_start, 3int,
{
    let ghost st = *scan;
    let ghost want = spec_box_effect(data@, typ as int, body_start as int, body_end as int, st, depth as int, codec);
    if typ == 0x66747970 || typ == 0x6d6f6f76 || typ == 0x73696478 {
        scan.looks_like_fmp4 = true;
        assert(*scan == want);
    } else if is_container(typ) {
        descend(data, typ, body_start, body_end, scan, depth, codec);
    } else if typ == 0x6d646174 {
        scan.looks_like_fmp4 = true;
        let body = &data[body_start..body_end];
        assert(body@ == data@.subrange(body_start as int, body_end as int));
        let ghost st1 = *scan;
        assert(want == spec_after_nal_scan(st1, body@, codec));
        scan_nal_hints(body, scan, codec);
    } else if typ == 0x73656e63 {
        scan.has_senc = true;
        assert(*scan == want);
    } else if typ == 0x7361697a {
        scan.has_saiz = true;
        assert(*scan == want);
    } else if typ == 0x7361696f {
        scan.has_saio = true;
        assert(*scan == want);
    } else if typ == 0x74666474 {
        assert(want == spec_after_tfdt(data@, body_start as int, body_end as int, st));
        apply_tfdt(data, body_start, body_end, scan);
    } else {
        assert(*scan == want);
    }
}

fn is_container(typ: u32) -> (r: bool)
    ensures
        r == spec_is_container(typ as int),
{
    typ == 0x6d6f6f66 || typ == 0x74726166 || typ == 0x7472616b || typ == 0x6d646961 || typ == 0x6d696e66
        || typ == 0x7374626c
}

/// Walks the boxes inside a `moof` or another container that leads to `tfdt` or `mdat`.
fn descend(
    data: &[u8],
    typ: u32,
    body_start: usize,
    body_end: usize,
    scan: &mut SegmentScan,
    depth: usize,
    codec: VideoCodecHint,
)
    requires
        body_start <= body_end <= data@.len(),
        depth <= 12,
        old(scan).idr_count + (body_end - body_start) <= usize::MAX,
        spec_is_container(typ as int),
    ensures
        *final(scan) == spec_box_effect(data@, typ as int, body_start as int, body_end as int, *old(scan), depth as int, codec),
        final(scan).idr_count <= old(scan).idr_count + (body_end - body_start),
        (old(scan).idr_count > 0 ==> old(scan).has_idr_nal_hint) ==> (final(scan).idr_count > 0 ==> final(scan).has_idr_nal_hint),
    decreases body_end - body_start, 2int,
{
    if typ == 0x6d6f6f66 {
        scan.looks_like_fmp4 = true;
        scan.has_moof = true;
    }
    walk_boxes(data, body_start, body_end, scan, depth + 1, codec);
}

fn apply_tfdt(data: &[u8], body_start: usize, body_end: usize, scan: &mut SegmentScan)
    requires
        body_start <= body_end <= data@.len(),
    ensures
        *final(scan) == spec_after_tfdt(data@, body_start as int, body_end as int, *old(scan)),
{
    let old_scan = *scan;
    let mut time = old_scan.tfdt_base_media_decode_time;
    if old_scan.tfdt_base_media_decode_time.is_none() && body_end - body_start >= 8 {
        if data[body_start] == 1 && body_end - body_start >= 12 {
            let v = crate::bytes::read_u64(data, body_start + 4).unwrap();
            time = Some(v);
        } else {
            let v = crate::bytes::read_u32(data, body_start + 4).unwrap();
            time = Some(v as u64);
        }
    }
    *scan = SegmentScan {
        has_tfdt: true,
        looks_like_fmp4: true,
        tfdt_base_media_decode_time: time,
        ..old_scan
    };
}

// ---------------------------------------------------------------------------------------
// Whole segments

/// A scan that found nothing.
pub open spec fn spec_empty_scan() -> SegmentScan {
    SegmentScan {
        looks_like_ts: false,
        looks_like_fmp4: false,
        has_moof: false,
        has_idr_nal_hint: false,
        idr_at_start: false,
        idr_count: 0,
        has_tfdt: false,
        tfdt_base_media_decode_time: None,
        has_senc: false,
        has_saiz: false,
        has_saio: false,
        ts_continuity_ok: None,
        has_cc_sei_hint: false,
        has_asp_hint: false,
    }
}

impl Default for SegmentScan {
    fn default() -> (r: SegmentScan)
        ensures
            r == spec_empty_scan(),
    {
        SegmentScan {
            looks_like_ts: false,
            looks_like_fmp4: false,
            has_moof: false,
            has_idr_nal_hint: false,
            idr_at_start: false,
            idr_count: 0,
            has_tfdt: false,
            tfdt_base_media_decode_time: None,
            has_senc: false,
            has_saiz: false,
            has_saio: false,
            ts_continuity_ok: None,
            has_cc_sei_hint: false,
            has_asp_hint: false,
        }
    }
}

/// The PID of the transport packet at `off`.
pub open spec fn spec_pid(d: Seq<u8>, off: int) -> int {
    ((d[off + 1] & 0x1f) as int) * 256 + d[off + 2] as int
}

/// Whether continuity counters stay in step from `off` on, given the last counter seen for
/// each PID and whether they were in step so far. Bytes that are not a sync byte are
/// skipped one at a time; a packet's counter only advances when it carries a payload, and
/// the null PID is not followed.
pub open spec fn spec_ts_continuity(d: Seq<u8>, off: int, last: Map<int, int>, ok: bool) -> bool
    decreases d.len() - off,
{
    if off < 0 || off + 188 > d.len() {
        ok
    } else if d[off] != 0x47 {
        spec_ts_continuity(d, off + 1, last, ok)
    } else {
        let pid = spec_pid(d, off);
        let adaptation = (d[off + 3] >> 4u8) & 3;
        let cc = (d[off + 3] & 0x0f) as int;
        if adaptation != 2 && pid != 0x1fff {
            let ok2 = if last.contains_key(pid) {
                ok && cc == (last[pid] + 1) % 16
            } else {
                ok
            };
            spec_ts_continuity(d, off + 188, last.insert(pid, cc), ok2)
        } else {
            spec_ts_continuity(d, off + 188, last, ok)
        }
    }
}

/// Whether `data` is taken as an MPEG transport stream: at least one packet, starting
/// with a sync byte.
pub open spec fn spec_looks_like_ts(d: Seq<u8>) -> bool {
    d.len() >= 188 && d[0] == 0x47
}

/// What the scan of a whole segment finds. A transport stream has its continuity
/// counters checked and its NAL hints looked for; anything else is walked as ISO-BMFF
/// boxes, with the whole payload scanned for NAL hints when the boxes looked like fMP4 but
/// no `mdat` showed an IDR.
pub open spec fn spec_scan_segment(d: Seq<u8>, codec: VideoCodecHint) -> SegmentScan {
    if spec_looks_like_ts(d) {
        spec_after_nal_scan(
            SegmentScan {
                looks_like_ts: true,
                ts_continuity_ok: Some(spec_ts_continuity(d, 0, Map::empty(), true)),
                ..spec_empty_scan()
            },
            d,
            codec,
        )
    } else {
        let st = spec_walk(d, 0, d.len() as int, spec_empty_scan(), 0, codec);
        if st.looks_like_fmp4 && !st.has_idr_nal_hint {
            spec_after_nal_scan(st, d, codec)
        } else {
            st
        }
    }
}

/// A scan with the codec unknown finds an IDR wherever a scan for H.264 or HEVC alone
/// does: it checks both NAL syntaxes, so it can only find more.
pub proof fn lemma_unknown_codec_finds_idr(d: Seq<u8>, codec: VideoCodecHint)
    ensures
        spec_scan_segment(d, codec).has_idr_nal_hint ==> spec_scan_segment(d, VideoCodecHint::Unknown).has_idr_nal_hint,
{
    let u = VideoCodecHint::Unknown;
    if spec_looks_like_ts(d) {
        let st = SegmentScan {
            looks_like_ts: true,
            ts_continuity_ok: Some(spec_ts_continuity(d, 0, Map::empty(), true)),
            ..spec_empty_scan()
        };
        lemma_nal_scan_codec(st, st, d, codec);
    } else {
        let a = spec_walk(d, 0, d.len() as int, spec_empty_scan(), 0, codec);
        let b = spec_walk(d, 0, d.len() as int, spec_empty_scan(), 0, u);
        lemma_walk_codec(d, 0, d.len() as int, spec_empty_scan(), spec_empty_scan(), 0, codec);
        if a.looks_like_fmp4 && !a.has_idr_nal_hint {
            lemma_nal_scan_codec(a, b, d, codec);
            if b.has_idr_nal_hint {
            } else {
            }
        }
    }
}

/// The last continuity counters as a table indexed by PID.
pub open spec fn spec_table_matches(table: Seq<Option<u8>>, last: Map<int, int>) -> bool {
    &&& table.len() == 8192
    &&& forall|p: int| 0 <= p < 8192 ==> #[trigger] table[p] == if last.contains_key(p) {
        Some(last[p] as u8)
    } else {
        None
    }
    &&& forall|p: int| #[trigger] last.contains_key(p) ==> 0 <= p < 8192 && 0 <= last[p] < 16
}

fn ts_continuity_ok(data: &[u8]) -> (r: bool)
    ensures
        r == spec_ts_continuity(data@, 0, Map::empty(), true),
{
    let mut table: Vec<Option<u8>> = Vec::new();
    let mut k: usize = 0;
    while k < 8192
        invariant
            k <= 8192,
            table@.len() == k,
            forall|p: int| 0 <= p < k ==> #[trigger] table@[p] == None::<u8>,
        decreases 8192 - k,
    {
        table.push(None);
        k = k + 1;
    }
    let ghost mut last: Map<int, int> = Map::empty();
    let mut ok = true;
    let mut off: usize = 0;
    while off < data.len() && data.len() - off >= 188
        invariant
            off <= data@.len(),
            spec_table_matches(table@, last),
            spec_ts_continuity(data@, off as int, last, ok) == spec_ts_continuity(data@, 0, Map::empty(), true),
        decreases data.len() - off,
    {
        if data[off] != 0x47 {
            off = off + 1;
        } else {
            let b1 = data[off + 1];
            let high = b1 & 0x1f;
            assert(high < 32) by (bit_vector)
                requires
                    high == b1 & 0x1f,
            ;
            let pid = (high as usize) * 256 + data[off + 2] as usize;
            let adaptation = (data[off + 3] >> 4u8) & 3;
            let b3 = data[off + 3];
            let cc = b3 & 0x0f;
            assert(pid == spec_pid(data@, off as int));
            if adaptation != 2 && pid != 0x1fff {
                match table[pid] {
                    Some(prev) => {
                        if cc != (prev + 1) % 16 {
                            ok = false;
                        }
                    },
                    None => {},
                }
                table.set(pid, Some(cc));
                proof {
                    assert(cc < 16) by (bit_vector)
                        requires
                            cc == b3 & 0x0f,
                    ;
                    last = last.insert(pid as int, cc as int);
                }
            }
            off = off + 188;
        }
    }
    proof {
        if off < data@.len() {
            assert(off + 188 > data@.len());
        }
    }
    ok
}

/// Best-effort scan of a media segment: transport-stream continuity, or an ISO-BMFF box
/// walk, and NAL hints in either case.
pub fn scan_segment_bytes(data: &[u8], codec: VideoCodecHint) -> (r: SegmentScan)
    ensures
        r == spec_scan_segment(data@, codec),
{
    let mut scan = SegmentScan::default();
    if data.len() >= 188 && data[0] == 0x47 {
        scan.looks_like_ts = true;
        scan.ts_continuity_ok = Some(ts_continuity_ok(data));
        scan_nal_hints(data, &mut scan, codec);
        return scan;
    }
    walk_boxes(data, 0, data.len(), &mut scan, 0, codec);
    if scan.looks_like_fmp4 && !scan.has_idr_nal_hint {
        scan_nal_hints(data, &mut scan, codec);
    }
    scan
}

/// Whether `data[pos..pos + 4]` are the four bytes of `code`, big-endian.
pub open spec fn spec_fourcc_at(d: Seq<u8>, pos: int, code: u32) -> bool {
    0 <= pos && pos + 4 <= d.len() && be_value(d, pos, 4) == code
}

/// Whether a box of type `code` is found by a byte scan: its fourCC at some position from
/// 4 on, with a plausible size before it.
pub open spec fn spec_scanned_box(d: Seq<u8>, code: u32) -> bool {
    exists|pos: int| 4 <= pos && #[trigger] spec_fourcc_at(d, pos, code) && spec_plausible_box_at(d, pos)
}

/// A probe after the byte-scan fallback for the boxes a property walk may skip: `mdcv`,
/// `clli`, `ludt`, `vexu` and `tenc`.
pub open spec fn spec_after_fallback(d: Seq<u8>, p: InitSegmentProbe) -> InitSegmentProbe {
    InitSegmentProbe {
        has_mdcv: p.has_mdcv || spec_scanned_box(d, 0x6d646376),
        has_clli: p.has_clli || spec_scanned_box(d, 0x636c6c69),
        has_ludt: p.has_ludt || spec_scanned_box(d, 0x6c756474),
        has_vexu: p.has_vexu || spec_scanned_box(d, 0x76657875),
        has_tenc: p.has_tenc || spec_scanned_box(d, 0x74656e63),
        ..p
    }
}

/// Whether a box of type `code` is found by the byte scan before position `upto`.
pub open spec fn spec_found_before(d: Seq<u8>, code: u32, upto: int) -> bool {
    exists|pos: int| 4 <= pos < upto && #[trigger] spec_fourcc_at(d, pos, code) && spec_plausible_box_at(d, pos)
}

proof fn lemma_found_step(d: Seq<u8>, code: u32, pos: int)
    requires
        4 <= pos,
    ensures
        spec_found_before(d, code, pos + 1) == (spec_found_before(d, code, pos) || (spec_fourcc_at(d, pos, code)
            && spec_plausible_box_at(d, pos))),
{
    if spec_found_before(d, code, pos + 1) {
        let q = choose|q: int| 4 <= q < pos + 1 && #[trigger] spec_fourcc_at(d, q, code) && spec_plausible_box_at(d, q);
        if q < pos {
            assert(spec_found_before(d, code, pos));
        }
    }
    if spec_found_before(d, code, pos) {
        let q = choose|q: int| 4 <= q < pos && #[trigger] spec_fourcc_at(d, q, code) && spec_plausible_box_at(d, q);
        assert(4 <= q < pos + 1);
    }
}

proof fn lemma_found_all(d: Seq<u8>, code: u32, upto: int)
    requires
        upto >= 4,
        upto + 3 >= d.len(),
    ensures
        spec_found_before(d, code, upto) == spec_scanned_box(d, code),
{
    if spec_scanned_box(d, code) {
        let q = choose|q: int| 4 <= q && #[trigger] spec_fourcc_at(d, q, code) && spec_plausible_box_at(d, q);
        assert(q < upto);
    }
}

impl InitSegmentProbe {
    /// The byte-scan fallback: sets the flags of the boxes whose fourCC occurs with a
    /// plausible box size before it.
    pub fn apply_fallback_box_scan(&mut self, data: &[u8])
        ensures
            *final(self) == spec_after_fallback(data@, *old(self)),
    {
        let n = if data.len() >= 3 { data.len() - 3 } else { 0 };
        let mut mdcv = false;
        let mut clli = false;
        let mut ludt = false;
        let mut vexu = false;
        let mut tenc = false;
        let mut pos: usize = 4;
        while pos < n
            invariant
                n == if data@.len() >= 3 { data@.len() - 3 } else { 0 },
                4 <= pos,
                mdcv == spec_found_before(data@, 0x6d646376, pos as int),
                clli == spec_found_before(data@, 0x636c6c69, pos as int),
                ludt == spec_found_before(data@, 0x6c756474, pos as int),
                vexu == spec_found_before(data@, 0x76657875, pos as int),
                tenc == spec_found_before(data@, 0x74656e63, pos as int),
            decreases n - pos,
        {
            let typ = crate::bytes::read_u32(data, pos).unwrap();
            let plausible = is_plausible_box_at(data, pos);
            proof {
                lemma_found_step(data@, 0x6d646376, pos as int);
                lemma_found_step(data@, 0x636c6c69, pos as int);
                lemma_found_step(data@, 0x6c756474, pos as int);
                lemma_found_step(data@, 0x76657875, pos as int);
                lemma_found_step(data@, 0x74656e63, pos as int);
            }
            if plausible {
                if typ == 0x6d646376 {
                    mdcv = true;
                } else if typ == 0x636c6c69 {
                    clli = true;
                } else if typ == 0x6c756474 {
                    ludt = true;
                } else if typ == 0x76657875 {
                    vexu = true;
                } else if typ == 0x74656e63 {
                    tenc = true;
                }
            }
            pos = pos + 1;
        }
        proof {
            let upto = pos as int;
            if upto + 3 < data@.len() {
                assert(pos >= n);
            }
            lemma_found_all(data@, 0x6d646376, upto);
            lemma_found_all(data@, 0x636c6c69, upto);
            lemma_found_all(data@, 0x6c756474, upto);
            lemma_found_all(data@, 0x76657875, upto);
            lemma_found_all(data@, 0x74656e63, upto);
        }
        self.has_mdcv = self.has_mdcv || mdcv;
        self.has_clli = self.has_clli || clli;
        self.has_ludt = self.has_ludt || ludt;
        self.has_vexu = self.has_vexu || vexu;
        self.has_tenc = self.has_tenc || tenc;
    }
}

// ---------------------------------------------------------------------------------------
// The init-segment probe

/// The box header at `pos` of `d`, as `mp4_atom::Header::read_from` reads it: the fourCC,
/// the body size (`None` for a size field of 0, a box that runs to the end of the data),
/// and where the header ends. A size field of 1 is followed by a 64-bit size. `None` where
/// fewer bytes remain than the header needs, or the size is smaller than the header.
pub open spec fn spec_mp4_header(d: Seq<u8>, pos: int) -> Option<(u32, Option<u64>, int)> {
    if pos < 0 || pos + 8 > d.len() {
        None
    } else {
        let s32 = be_value(d, pos, 4);
        let kind = be_value(d, pos + 4, 4) as u32;
        if s32 == 0 {
            Some((kind, None, pos + 8))
        } else if s32 == 1 {
            if pos + 16 > d.len() {
                None
            } else if be_value(d, pos + 8, 8) < 16 {
                None
            } else {
                Some((kind, Some(((be_value(d, pos + 8, 8) - 16) as usize) as u64), pos + 16))
            }
        } else if s32 < 8 {
            None
        } else {
            Some((kind, Some(((s32 - 8) as usize) as u64), pos + 8))
        }
    }
}

/// A box header by `mp4_atom::Header::read_from` over a cursor at `pos`: the fourCC as a
/// big-endian `u32`, the body size, and the cursor's position after the header. It claims
/// what `header.rs` does: the result is `spec_mp4_header`.
#[verifier::external_body]
fn read_mp4_header(data: &[u8], pos: usize) -> (r: Option<(u32, Option<u64>, usize)>)
    ensures
        match (r, spec_mp4_header(data@, pos as int)) {
            (Some((k, s, e)), Some((k2, s2, e2))) => k == k2 && s == s2 && e == e2,
            (None, None) => true,
            _ => false,
        },
{
    let mut reader = std::io::Cursor::new(data);
    reader.set_position(pos as u64);
    match mp4_atom::Header::read_from(&mut reader) {
        Ok(header) => Some((u32::from(header.kind), header.size.map(|s| s as u64), reader.position() as usize)),
        Err(_) => None,
    }
}

/// The boxes whose children the header walk reads: the ISO-BMFF structural containers
/// (`moov`, `trak`, `mdia`, `minf`, `stbl`, `mvex`, `edts`, `dinf`, `udta`, `moof`, `traf`,
/// `sinf`, `schi`). Every other box is stepped over by its size.
pub open spec fn spec_probe_container(kind: u32) -> bool {
    kind == 0x6d6f6f76 || kind == 0x7472616b || kind == 0x6d646961 || kind == 0x6d696e66
        || kind == 0x7374626c || kind == 0x6d766578 || kind == 0x65647473 || kind == 0x64696e66
        || kind == 0x75647461 || kind == 0x6d6f6f66 || kind == 0x74726166 || kind == 0x73696e66
        || kind == 0x73636869
}

/// Which of the probe's box flags the header walk has set.
pub struct ProbeFlags {
    pub ludt: bool,
    pub senc: bool,
    pub saiz: bool,
    pub saio: bool,
    pub vexu: bool,
    pub lhvc: bool,
    pub tenc: bool,
    pub mdcv: bool,
    pub clli: bool,
}

/// The flags after a box of type `kind`: `ludt`, `senc`, `saiz`, `saio`, `vexu`, `lhvC`,
/// `tenc`, `mdcv` and `clli` each set their own.
pub open spec fn spec_mark(f: ProbeFlags, kind: u32) -> ProbeFlags {
    ProbeFlags {
        ludt: f.ludt || kind == 0x6c756474,
        senc: f.senc || kind == 0x73656e63,
        saiz: f.saiz || kind == 0x7361697a,
        saio: f.saio || kind == 0x7361696f,
        vexu: f.vexu || kind == 0x76657875,
        lhvc: f.lhvc || kind == 0x6c687643,
        tenc: f.tenc || kind == 0x74656e63,
        mdcv: f.mdcv || kind == 0x6d646376,
        clli: f.clli || kind == 0x636c6c69,
    }
}

/// The header walk from `pos`: it reads the header there and marks its type, then goes on
/// inside a container, or past any other box; it stops at the end of the data, at the
/// first header that cannot be read, and after a box whose body runs past the end.
pub open spec fn spec_probe_walk(d: Seq<u8>, pos: int, f: ProbeFlags) -> ProbeFlags
    decreases d.len() - pos,
{
    if pos < 0 || pos >= d.len() {
        f
    } else {
        match spec_mp4_header(d, pos) {
            None => f,
            Some((kind, size, end)) => {
                let g = spec_mark(f, kind);
                if spec_probe_container(kind) {
                    spec_probe_walk(d, end, g)
                } else {
                    match size {
                        None => g,
                        Some(n) => if end + n > d.len() {
                            g
                        } else {
                            spec_probe_walk(d, end + n, g)
                        },
                    }
                }
            },
        }
    }
}

pub open spec fn spec_no_flags() -> ProbeFlags {
    ProbeFlags {
        ludt: false,
        senc: false,
        saiz: false,
        saio: false,
        vexu: false,
        lhvc: false,
        tenc: false,
        mdcv: false,
        clli: false,
    }
}

/// What probing `d` gives: the flags the header walk set, with the byte-scan fallback
/// for `mdcv`, `clli`, `ludt`, `vexu` and `tenc`, and nothing more.
pub open spec fn spec_init_probe_is(r: InitSegmentProbe, d: Seq<u8>) -> bool {
    let f = spec_probe_walk(d, 0, spec_no_flags());
    &&& r.has_ludt == (f.ludt || spec_scanned_box(d, 0x6c756474))
    &&& r.has_senc == f.senc
    &&& r.has_saiz == f.saiz
    &&& r.has_saio == f.saio
    &&& r.has_vexu == (f.vexu || spec_scanned_box(d, 0x76657875))
    &&& r.has_lhvc == f.lhvc
    &&& r.has_tenc == (f.tenc || spec_scanned_box(d, 0x74656e63))
    &&& r.has_mdcv == (f.mdcv || spec_scanned_box(d, 0x6d646376))
    &&& r.has_clli == (f.clli || spec_scanned_box(d, 0x636c6c69))
    &&& r.major_brand is None
    &&& r.compatible_brands@.len() == 0
    &&& r.video_sample_fourcc is None
    &&& r.audio_sample_fourcc is None
    &&& r.video_profile is None
    &&& r.video_level is None
    &&& r.video_tier is None
    &&& !r.has_video_tenc
    &&& r.scheme_type is None
    &&& r.crypt_byte_block is None
    &&& r.skip_byte_block is None
    &&& r.video_crypt_byte_block is None
    &&& r.video_skip_byte_block is None
    &&& !r.had_encrypted_sample_entry
    &&& r.timescale is None
    &&& r.movie_timescale is None
}

fn is_probe_container(kind: u32) -> (r: bool)
    ensures
        r == spec_probe_container(kind),
{
    kind == 0x6d6f6f76 || kind == 0x7472616b || kind == 0x6d646961 || kind == 0x6d696e66
        || kind == 0x7374626c || kind == 0x6d766578 || kind == 0x65647473 || kind == 0x64696e66
        || kind == 0x75647461 || kind == 0x6d6f6f66 || kind == 0x74726166 || kind == 0x73696e66
        || kind == 0x73636869
}

fn mark(f: ProbeFlags, kind: u32) -> (r: ProbeFlags)
    ensures
        r == spec_mark(f, kind),
{
    ProbeFlags {
        ludt: f.ludt || kind == 0x6c756474,
        senc: f.senc || kind == 0x73656e63,
        saiz: f.saiz || kind == 0x7361697a,
        saio: f.saio || kind == 0x7361696f,
        vexu: f.vexu || kind == 0x76657875,
        lhvc: f.lhvc || kind == 0x6c687643,
        tenc: f.tenc || kind == 0x74656e63,
        mdcv: f.mdcv || kind == 0x6d646376,
        clli: f.clli || kind == 0x636c6c69,
    }
}

/// Probes init-segment bytes (`ftyp` and `moov`): the box headers are read with
/// mp4_atom, each box type the probe reports is marked, and the walk stops on the first
/// header that cannot be read; then the byte scan looks for the boxes the walk did not
/// reach.
pub fn probe_init_segment(data: &[u8]) -> (r: InitSegmentProbe)
    ensures
        spec_init_probe_is(r, data@),
{
    let mut f = ProbeFlags {
        ludt: false,
        senc: false,
        saiz: false,
        saio: false,
        vexu: false,
        lhvc: false,
        tenc: false,
        mdcv: false,
        clli: false,
    };
    let mut pos: usize = 0;
    let n = data.len();
    loop
        invariant
            n == data@.len(),
            spec_probe_walk(data@, pos as int, f) == spec_probe_walk(data@, 0, spec_no_flags()),
        ensures
            f == spec_probe_walk(data@, 0, spec_no_flags()),
        decreases n - pos,
    {
        if pos >= n {
            break;
        }
        match read_mp4_header(data, pos) {
            None => {
                break;
            },
            Some((kind, size, end)) => {
                f = mark(f, kind);
                if is_probe_container(kind) {
                    pos = end;
                } else {
                    match size {
                        None => {
                            break;
                        },
                        Some(b) => {
                            if b > (n - end) as u64 {
                                break;
                            }
                            pos = end + b as usize;
                        },
                    }
                }
            },
        }
    }
    let mut p = InitSegmentProbe {
        major_brand: None,
        compatible_brands: Vec::new(),
        video_sample_fourcc: None,
        audio_sample_fourcc: None,
        video_profile: None,
        video_level: None,
        video_tier: None,
        has_ludt: f.ludt,
        has_senc: f.senc,
        has_saiz: f.saiz,
        has_saio: f.saio,
        has_vexu: f.vexu,
        has_lhvc: f.lhvc,
        has_tenc: f.tenc,
        has_video_tenc: false,
        scheme_type: None,
        crypt_byte_block: None,
        skip_byte_block: None,
        video_crypt_byte_block: None,
        video_skip_byte_block: None,
        has_mdcv: f.mdcv,
        has_clli: f.clli,
        had_encrypted_sample_entry: false,
        timescale: None,
        movie_timescale: None,
    };
    p.apply_fallback_box_scan(data);
    p
}

} // verus!
