//! Validation of an HLS presentation against RFC 8216bis: the playlist grammar, the
//! findings model and the rules that do not need the network.

pub mod text_map;
pub mod types;
pub mod parser;
pub mod checks;
pub mod report;
pub mod interstitials;
pub mod ll_hls;
pub mod timestamp;
pub mod scte35;
pub mod collect;

use vstd::prelude::*;
use vstd::string::StringExecFns;
use std::num::ParseIntError;
use crate::validator::parser::{parse_attributes, resolve_url, spec_attr_pairs, spec_resolve_url};
use crate::validator::text_map::{spec_pairs_map, TextMap};
use crate::validator::types::{CheckId, Issue, Severity};
use crate::validator::checks::{finding_at, spec_finding_at};
use crate::text::{push_char, push_decimal, push_str, spec_decimal, trim, spec_trim, find_from, lemma_find_from_bounds, spec_find_from, contains, spec_contains, spec_starts_with, starts_with, str_equals_text, spec_opt_text};

verus! {

/// Whether the playlist text is a multivariant playlist: it declares a Variant Stream.
pub open spec fn spec_is_master(content: Seq<char>) -> bool {
    spec_contains(content, "#EXT-X-STREAM-INF:"@) || spec_contains(content, "#EXT-X-I-FRAME-STREAM-INF:"@)
}

/// Determines whether playlist text is a multivariant playlist rather than a media
/// playlist.
pub fn is_master_playlist(content: &str) -> (r: bool)
    ensures
        r == spec_is_master(content@),
{
    contains(content, "#EXT-X-STREAM-INF:") || contains(content, "#EXT-X-I-FRAME-STREAM-INF:")
}

/// Whether CODECS names a Dolby Vision format.
pub open spec fn spec_is_dolby_vision(codecs: Seq<char>) -> bool {
    spec_contains(codecs, "dvh1"@) || spec_contains(codecs, "dvhe"@) || spec_contains(codecs, "dav1"@)
        || spec_contains(codecs, "dva1"@) || spec_contains(codecs, "dvav"@)
}

/// The colour label of a variant: Dolby Vision (with its base layer where CODECS names
/// one) wherever CODECS names a Dolby Vision format, and otherwise what VIDEO-RANGE says.
pub open spec fn spec_color_info(video_range: Option<Seq<char>>, codecs: Option<Seq<char>>) -> Option<Seq<char>> {
    let c = match codecs {
        Some(c) => c,
        None => Seq::empty(),
    };
    if spec_is_dolby_vision(c) {
        if spec_contains(c, "hvc1"@) || spec_contains(c, "hev1"@) {
            Some("Dolby Vision (HEVC)"@)
        } else if spec_contains(c, "av01"@) {
            Some("Dolby Vision (AV1)"@)
        } else {
            Some("Dolby Vision"@)
        }
    } else {
        match video_range {
            Some(r) => if r == "PQ"@ {
                Some("HDR10"@)
            } else if r == "HLG"@ {
                Some("HLG"@)
            } else if r == "SDR"@ {
                Some("SDR"@)
            } else {
                None
            },
            None => None,
        }
    }
}

/// Derives the human-readable colour information of a variant from VIDEO-RANGE and
/// CODECS.
pub fn derive_color_info(video_range: Option<&str>, codecs: Option<&str>) -> (r: Option<String>)
    ensures
        match r {
            Some(s) => spec_color_info(spec_opt_text(video_range), spec_opt_text(codecs)) == Some(s@),
            None => spec_color_info(spec_opt_text(video_range), spec_opt_text(codecs)) is None,
        },
{
    let c = match codecs {
        Some(c) => c,
        None => "",
    };
    proof {
        reveal_strlit("");
        assert(c@ == (match spec_opt_text(codecs) {
            Some(c) => c,
            None => Seq::<char>::empty(),
        }));
    }
    let is_dv = contains(c, "dvh1") || contains(c, "dvhe") || contains(c, "dav1") || contains(c, "dva1")
        || contains(c, "dvav");
    if is_dv {
        let base = if contains(c, "hvc1") || contains(c, "hev1") {
            "Dolby Vision (HEVC)"
        } else if contains(c, "av01") {
            "Dolby Vision (AV1)"
        } else {
            "Dolby Vision"
        };
        return Some(String::from_str(base));
    }
    match video_range {
        Some(r) => if str_equals_text(r, "PQ") {
            Some(String::from_str("HDR10"))
        } else if str_equals_text(r, "HLG") {
            Some(String::from_str("HLG"))
        } else if str_equals_text(r, "SDR") {
            Some(String::from_str("SDR"))
        } else {
            None
        },
        None => None,
    }
}

/// What `str::to_lowercase` gives for `s`: Unicode's full lower-case mapping, which takes
/// tables rather than lines to state.
pub uninterp spec fn spec_to_lowercase(s: Seq<char>) -> Seq<char>;

/// `s` in lower case, by `str::to_lowercase`.
#[verifier::external_body]
fn to_lowercase(s: &str) -> (r: String)
    ensures
        r@ == spec_to_lowercase(s@),
{
    s.to_lowercase()
}

/// The value of a hexadecimal digit, or -1 for any other character.
pub open spec fn spec_hex_digit_value(c: char) -> int {
    if '0' <= c && c <= '9' {
        c as int - 48
    } else if 'a' <= c && c <= 'f' {
        c as int - 87
    } else if 'A' <= c && c <= 'F' {
        c as int - 55
    } else {
        -1
    }
}

/// The number that a run of hexadecimal digits writes.
pub open spec fn spec_hex_value(s: Seq<char>) -> nat
    decreases s.len(),
{
    if s.len() == 0 {
        0
    } else {
        spec_hex_value(s.drop_last()) * 16 + spec_hex_digit_value(s.last()) as nat
    }
}

/// The `u8` that `s` writes in hexadecimal: an optional `+` and at least one hexadecimal
/// digit whose value fits, or `None` for any other text.
pub open spec fn spec_hex_u8_text(s: Seq<char>) -> Option<u8> {
    let digits = if s.len() > 0 && s[0] == '+' { s.drop_first() } else { s };
    if digits.len() > 0 && forall|i: int| 0 <= i < digits.len() ==> spec_hex_digit_value(#[trigger] digits[i]) >= 0 {
        if spec_hex_value(digits) <= 255 {
            Some(spec_hex_value(digits) as u8)
        } else {
            None
        }
    } else {
        None
    }
}

/// `u8::from_str_radix(s, 16)`: claims, as std documents, that it accepts exactly an
/// optional `+` followed by one or more digits of the radix whose value fits, and
/// returns that value.
#[verifier::external_body]
fn parse_hex_u8(s: &str) -> (r: Result<u8, ParseIntError>)
    ensures
        match r {
            Ok(v) => spec_hex_u8_text(s@) == Some(v),
            Err(_) => spec_hex_u8_text(s@) is None,
        },
{
    u8::from_str_radix(s, 16)
}

/// The break type of a SCTE-35 segmentation type byte (SCTE 35 Table 22).
pub open spec fn spec_scte35_class(b: u8) -> Seq<char> {
    if 0x10 <= b && b <= 0x17 {
        "program"@
    } else if 0x20 <= b && b <= 0x27 {
        "chapter"@
    } else if 0x30 <= b && b <= 0x37 {
        "ad_break"@
    } else if 0x38 <= b && b <= 0x3f {
        "frame_ad"@
    } else if 0x40 <= b && b <= 0x4f {
        "breakaway"@
    } else if 0x50 <= b && b <= 0x5f {
        "network"@
    } else {
        "other"@
    }
}

/// The break type of a SCTE-35 Date Range ID of the form `0x{type byte}-...`: the class
/// of its type byte, or `other` where the ID does not start with one.
pub open spec fn spec_classify_scte35(id: Seq<char>) -> Seq<char> {
    let lower = spec_to_lowercase(id);
    if spec_starts_with(lower, "0x"@) {
        let rest = lower.subrange(2, lower.len() as int);
        let hex = rest.subrange(0, spec_find_from(rest, '-', 0));
        match spec_hex_u8_text(hex) {
            Some(b) => spec_scte35_class(b),
            None => "other"@,
        }
    } else {
        "other"@
    }
}

fn scte35_class(b: u8) -> (r: &'static str)
    ensures
        r@ == spec_scte35_class(b),
{
    if 0x10 <= b && b <= 0x17 {
        "program"
    } else if 0x20 <= b && b <= 0x27 {
        "chapter"
    } else if 0x30 <= b && b <= 0x37 {
        "ad_break"
    } else if 0x38 <= b && b <= 0x3f {
        "frame_ad"
    } else if 0x40 <= b && b <= 0x4f {
        "breakaway"
    } else if 0x50 <= b && b <= 0x5f {
        "network"
    } else {
        "other"
    }
}

/// Classifies a SCTE-35 DATERANGE ID into a break type, by the hex type byte that many
/// operators put at the start of the ID.
pub fn classify_scte35_id(id: &str) -> (r: String)
    ensures
        r@ == spec_classify_scte35(id@),
{
    let lower = to_lowercase(id);
    let l = lower.as_str();
    if starts_with(l, "0x") {
        proof {
            reveal_strlit("0x");
        }
        let n = l.unicode_len();
        let rest = l.substring_char(2, n);
        let dash = find_from(rest, '-', 0);
        proof {
            lemma_find_from_bounds(rest@, '-', 0);
        }
        let hex = rest.substring_char(0, dash);
        match parse_hex_u8(hex) {
            Ok(b) => String::from_str(scte35_class(b)),
            Err(_) => String::from_str("other"),
        }
    } else {
        String::from_str("other")
    }
}

/// Whether `a` lower-cased as ASCII is `b`.
pub open spec fn spec_ascii_lower_is(a: char, b: char) -> bool {
    if 'A' <= a && a <= 'Z' {
        a as int + 32 == b as int
    } else {
        a == b
    }
}

/// Whether `t`, lower-cased as ASCII, starts with `p`.
pub open spec fn spec_has_prefix_ci(t: Seq<char>, p: Seq<char>) -> bool {
    p.len() <= t.len() && forall|k: int| 0 <= k < p.len() ==> spec_ascii_lower_is(#[trigger] t[k], p[k])
}

/// Whether `t`, lower-cased as ASCII, starts with one of `prefixes`.
pub open spec fn spec_looks_like(t: Seq<char>, prefixes: Seq<Seq<char>>) -> bool {
    exists|i: int| 0 <= i < prefixes.len() && spec_has_prefix_ci(t, #[trigger] prefixes[i])
}

/// Sample entry prefixes of audio formats in common use in HLS.
pub open spec fn spec_audio_prefixes() -> Seq<Seq<char>> {
    seq!["mp4a"@, "ac-3"@, "ec-3"@, "ac-4"@, "alac"@, "flac"@, "opus"@, "vorbis"@, "dts"@, "mha"@, "mhm"@, "iamf"@, "apac"@]
}

/// Sample entry prefixes of video formats in common use in HLS.
pub open spec fn spec_video_prefixes() -> Seq<Seq<char>> {
    seq!["avc1"@, "avc3"@, "hvc1"@, "hev1"@, "dvh1"@, "dvhe"@, "dav1"@, "vp08"@, "vp8"@, "vp09"@, "vp9"@, "av01"@, "mp4v"@]
}

/// Sample entry prefixes of text tracks.
pub open spec fn spec_text_prefixes() -> Seq<Seq<char>> {
    seq!["wvtt"@, "stpp"@, "c608"@, "c708"@]
}

fn audio_prefixes() -> (r: Vec<&'static str>)
    ensures
        r@.len() == spec_audio_prefixes().len(),
        forall|i: int| 0 <= i < r@.len() ==> #[trigger] r@[i]@ == spec_audio_prefixes()[i],
{
    vec!["mp4a", "ac-3", "ec-3", "ac-4", "alac", "flac", "opus", "vorbis", "dts", "mha", "mhm", "iamf", "apac"]
}

fn video_prefixes() -> (r: Vec<&'static str>)
    ensures
        r@.len() == spec_video_prefixes().len(),
        forall|i: int| 0 <= i < r@.len() ==> #[trigger] r@[i]@ == spec_video_prefixes()[i],
{
    vec!["avc1", "avc3", "hvc1", "hev1", "dvh1", "dvhe", "dav1", "vp08", "vp8", "vp09", "vp9", "av01", "mp4v"]
}

fn text_prefixes() -> (r: Vec<&'static str>)
    ensures
        r@.len() == spec_text_prefixes().len(),
        forall|i: int| 0 <= i < r@.len() ==> #[trigger] r@[i]@ == spec_text_prefixes()[i],
{
    vec!["wvtt", "stpp", "c608", "c708"]
}

fn has_prefix_ci(t: &str, p: &str) -> (r: bool)
    ensures
        r == spec_has_prefix_ci(t@, p@),
{
    let n = t.unicode_len();
    let m = p.unicode_len();
    if m > n {
        return false;
    }
    let mut k: usize = 0;
    while k < m
        invariant
            k <= m,
            m <= n,
            n == t@.len(),
            m == p@.len(),
            forall|j: int| 0 <= j < k ==> spec_ascii_lower_is(#[trigger] t@[j], p@[j]),
        decreases m - k,
    {
        let a = t.get_char(k);
        let b = p.get_char(k);
        let same = if 'A' <= a && a <= 'Z' { (a as u32) + 32 == (b as u32) } else { a == b };
        if !same {
            return false;
        }
        k = k + 1;
    }
    true
}

fn looks_like(t: &str, prefixes: &Vec<&'static str>, spec_list: Ghost<Seq<Seq<char>>>) -> (r: bool)
    requires
        prefixes@.len() == spec_list@.len(),
        forall|i: int| 0 <= i < prefixes@.len() ==> #[trigger] prefixes@[i]@ == spec_list@[i],
    ensures
        r == spec_looks_like(t@, spec_list@),
{
    let mut i: usize = 0;
    while i < prefixes.len()
        invariant
            i <= prefixes@.len(),
            prefixes@.len() == spec_list@.len(),
            forall|j: int| 0 <= j < prefixes@.len() ==> #[trigger] prefixes@[j]@ == spec_list@[j],
            forall|j: int| 0 <= j < i ==> !spec_has_prefix_ci(t@, #[trigger] spec_list@[j]),
        decreases prefixes.len() - i,
    {
        if has_prefix_ci(t, prefixes[i]) {
            return true;
        }
        i = i + 1;
    }
    false
}

/// Whether a CODECS value is the one `audio_codec_of` looks for: in the first pass one that
/// names an audio format, in the second one that names neither a video format nor a text
/// track.
pub open spec fn spec_codec_wanted(t: Seq<char>, second_pass: bool) -> bool {
    if second_pass {
        !spec_looks_like(t, spec_video_prefixes()) && !spec_looks_like(t, spec_text_prefixes())
    } else {
        spec_looks_like(t, spec_audio_prefixes())
    }
}

/// The first value of the comma-separated list `s`, from position `i` on, that is not
/// empty once trimmed and is wanted by the pass.
pub open spec fn spec_first_codec(s: Seq<char>, i: int, second_pass: bool) -> Option<Seq<char>>
    decreases s.len() + 1 - i,
{
    if i < 0 || i > s.len() {
        None
    } else {
        let j = spec_find_from(s, ',', i);
        let t = spec_trim(s.subrange(i, j));
        proof {
            lemma_find_from_bounds(s, ',', i);
        }
        if t.len() > 0 && spec_codec_wanted(t, second_pass) {
            Some(t)
        } else if j < s.len() {
            spec_first_codec(s, j + 1, second_pass)
        } else {
            None
        }
    }
}

/// The audio codec of a CODECS attribute: the first value naming an audio format, or
/// else the first value that names neither a video format nor a text track.
pub open spec fn spec_audio_codec(codecs: Seq<char>) -> Option<Seq<char>> {
    match spec_first_codec(codecs, 0, false) {
        Some(t) => Some(t),
        None => spec_first_codec(codecs, 0, true),
    }
}

fn first_codec(codecs: &str, second_pass: bool) -> (r: Option<String>)
    ensures
        match r {
            Some(t) => spec_first_codec(codecs@, 0, second_pass) == Some(t@),
            None => spec_first_codec(codecs@, 0, second_pass) is None,
        },
{
    let audio = audio_prefixes();
    let video = video_prefixes();
    let text = text_prefixes();
    let n = codecs.unicode_len();
    let mut i: usize = 0;
    while i <= n
        invariant
            n == codecs@.len(),
            spec_first_codec(codecs@, i as int, second_pass) == spec_first_codec(codecs@, 0, second_pass),
            audio@.len() == spec_audio_prefixes().len(),
            forall|k: int| 0 <= k < audio@.len() ==> #[trigger] audio@[k]@ == spec_audio_prefixes()[k],
            video@.len() == spec_video_prefixes().len(),
            forall|k: int| 0 <= k < video@.len() ==> #[trigger] video@[k]@ == spec_video_prefixes()[k],
            text@.len() == spec_text_prefixes().len(),
            forall|k: int| 0 <= k < text@.len() ==> #[trigger] text@[k]@ == spec_text_prefixes()[k],
        decreases n + 1 - i,
    {
        let j = find_from(codecs, ',', i);
        proof {
            lemma_find_from_bounds(codecs@, ',', i as int);
        }
        let t = trim(codecs.substring_char(i, j));
        let wanted = if second_pass {
            !looks_like(t, &video, Ghost(spec_video_prefixes())) && !looks_like(t, &text, Ghost(spec_text_prefixes()))
        } else {
            looks_like(t, &audio, Ghost(spec_audio_prefixes()))
        };
        if t.unicode_len() > 0 && wanted {
            return Some(String::from_str(t));
        }
        if j >= n {
            return None;
        }
        i = j + 1;
    }
    None
}

/// The audio codec named by a CODECS attribute, if one of its values names one.
///
/// §4.4.6.2 gives CODECS as a comma-separated list and says nothing of its order, so the
/// audio format is found by what each value names. A value that is plainly not video and
/// not a text track is taken as audio too, since formats are registered faster than any
/// list is updated.
pub fn audio_codec_of(codecs: &str) -> (r: Option<String>)
    ensures
        match r {
            Some(t) => spec_audio_codec(codecs@) == Some(t@),
            None => spec_audio_codec(codecs@) is None,
        },
{
    match first_codec(codecs, false) {
        Some(t) => Some(t),
        None => first_codec(codecs, true),
    }
}

/// `s` from position `i` on with each `{$NAME}` reference to a defined variable replaced
/// by its value. A reference to an undefined variable, or a `{$` with no closing `}`,
/// stands as written.
pub open spec fn spec_substitute(s: Seq<char>, defs: Map<Seq<char>, Seq<char>>, i: int) -> Seq<char>
    decreases s.len() - i,
{
    if i < 0 || i >= s.len() {
        Seq::empty()
    } else if i + 1 < s.len() && s[i] == '{' && s[i + 1] == '$' && spec_find_from(s, '}', i + 2) < s.len()
        && defs.contains_key(s.subrange(i + 2, spec_find_from(s, '}', i + 2))) {
        proof {
            lemma_find_from_bounds(s, '}', i + 2);
        }
        defs[s.subrange(i + 2, spec_find_from(s, '}', i + 2))] + spec_substitute(
            s,
            defs,
            spec_find_from(s, '}', i + 2) + 1,
        )
    } else {
        seq![s[i]] + spec_substitute(s, defs, i + 1)
    }
}

/// Replaces each `{$NAME}` reference in `text` by the value that EXT-X-DEFINE gave `NAME`
/// (§4.4.2.3). References to undefined variables are left as written.
pub fn replace_hls_variables(text: &str, defs: &TextMap) -> (r: String)
    ensures
        r@ == spec_substitute(text@, defs@, 0),
{
    let n = text.unicode_len();
    let mut out = String::new();
    let mut i: usize = 0;
    while i < n
        invariant
            i <= n,
            n == text@.len(),
            out@ + spec_substitute(text@, defs@, i as int) == spec_substitute(text@, defs@, 0),
        decreases n - i,
    {
        let c = text.get_char(i);
        if c == '{' && i + 1 < n && text.get_char(i + 1) == '$' {
            let close = find_from(text, '}', i + 2);
            proof {
                lemma_find_from_bounds(text@, '}', i + 2);
            }
            if close < n {
                let name = text.substring_char(i + 2, close);
                if let Some(value) = defs.get(name) {
                    let ghost before = out@;
                    push_str(&mut out, value.as_str());
                    proof {
                        assert(before + spec_substitute(text@, defs@, i as int) =~= out@ + spec_substitute(text@, defs@, close + 1));
                    }
                    i = close + 1;
                    continue;
                }
            }
        }
        let ghost before = out@;
        push_char(&mut out, c);
        proof {
            assert(before + spec_substitute(text@, defs@, i as int) =~= out@ + spec_substitute(text@, defs@, i + 1));
        }
        i = i + 1;
    }
    proof {
        assert(out@ + spec_substitute(text@, defs@, i as int) =~= out@);
    }
    out
}

/// Substitutes EXT-X-DEFINE variables in `uri`, then resolves it against `base`.
pub fn absolute_fetch_uri(base: &str, uri: &str, defs: &TextMap) -> (r: String)
    ensures
        r@ == spec_resolve_url(base@, spec_substitute(uri@, defs@, 0)),
{
    let substituted = replace_hls_variables(uri, defs);
    resolve_url(base, substituted.as_str())
}

/// What one playlist line does to the definitions `m`: an `EXT-X-DEFINE` with an IMPORT
/// of a variable that `master` defines, and that `m` lacks, adds the master's value.
pub open spec fn spec_import_line(m: Map<Seq<char>, Seq<char>>, line: Seq<char>, master: Map<Seq<char>, Seq<char>>) -> Map<Seq<char>, Seq<char>> {
    let t = spec_trim(line);
    if spec_starts_with(t, "#EXT-X-DEFINE:"@) {
        let attrs = spec_pairs_map(spec_attr_pairs(t.subrange("#EXT-X-DEFINE:"@.len() as int, t.len() as int)));
        if attrs.contains_key("IMPORT"@) && master.contains_key(attrs["IMPORT"@]) && !m.contains_key(attrs["IMPORT"@]) {
            m.insert(attrs["IMPORT"@], master[attrs["IMPORT"@]])
        } else {
            m
        }
    } else {
        m
    }
}

/// The definitions `m` once every line of `content` from position `i` on has been read,
/// lines being what lies between line feeds.
pub open spec fn spec_imports_from(content: Seq<char>, i: int, m: Map<Seq<char>, Seq<char>>, master: Map<Seq<char>, Seq<char>>) -> Map<Seq<char>, Seq<char>>
    decreases content.len() + 1 - i,
{
    if i < 0 || i > content.len() {
        m
    } else {
        let j = spec_find_from(content, '\n', i);
        proof {
            lemma_find_from_bounds(content, '\n', i);
        }
        let next = spec_import_line(m, content.subrange(i, j), master);
        if j < content.len() {
            spec_imports_from(content, j + 1, next, master)
        } else {
            next
        }
    }
}

/// Resolves the `EXT-X-DEFINE:IMPORT` references of a media playlist against the
/// multivariant playlist's definitions, adding each imported value that `dest` lacks.
pub fn resolve_imports(content: &str, master_defs: &TextMap, dest: &mut TextMap)
    ensures
        final(dest)@ == spec_imports_from(content@, 0, old(dest)@, master_defs@),
{
    let n = content.unicode_len();
    let ghost start = dest@;
    let mut i: usize = 0;
    while i <= n
        invariant
            n == content@.len(),
            start == old(dest)@,
            spec_imports_from(content@, i as int, dest@, master_defs@) == spec_imports_from(content@, 0, start, master_defs@),
        decreases n + 1 - i,
    {
        let j = find_from(content, '\n', i);
        proof {
            lemma_find_from_bounds(content@, '\n', i as int);
        }
        let line = trim(content.substring_char(i, j));
        let ghost before = dest@;
        if starts_with(line, "#EXT-X-DEFINE:") {
            let m = line.unicode_len();
            proof {
                reveal_strlit("#EXT-X-DEFINE:");
            }
            let attrs = parse_attributes(line.substring_char(14, m));
            if let Some(name) = attrs.get("IMPORT") {
                if let Some(value) = master_defs.get(name.as_str()) {
                    dest.or_insert(name.clone(), value.clone());
                }
            }
        }
        assert(dest@ == spec_import_line(before, content@.subrange(i as int, j as int), master_defs@));
        if j >= n {
            assert(spec_imports_from(content@, i as int, before, master_defs@) == dest@);
            return;
        }
        i = j + 1;
    }
}

/// Brings the multivariant playlist's variable definitions into a media playlist's: the
/// explicit IMPORTs of `content` first, then every other master definition as a fallback,
/// so that `{$VAR}` references resolve even where the media playlist imports nothing. A
/// definition the media playlist already has is never overwritten.
pub fn apply_master_definitions(content: &str, master_defs: &TextMap, pl_defs: &mut TextMap)
    ensures
        final(pl_defs)@ == master_defs@.union_prefer_right(old(pl_defs)@),
{
    resolve_imports(content, master_defs, pl_defs);
    proof {
        lemma_imports_take_master_values(content@, 0, old(pl_defs)@, master_defs@);
    }
    pl_defs.insert_missing_from(master_defs);
    proof {
        let imported = spec_imports_from(content@, 0, old(pl_defs)@, master_defs@);
        assert forall|k: Seq<char>| #[trigger] pl_defs@.contains_key(k) <==> master_defs@.union_prefer_right(old(pl_defs)@).contains_key(k) by {
            if old(pl_defs)@.contains_key(k) {
                assert(imported.contains_key(k));
            }
            if imported.contains_key(k) && !old(pl_defs)@.contains_key(k) {
                assert(master_defs@.contains_key(k));
            }
        }
        assert forall|k: Seq<char>| #[trigger] pl_defs@.contains_key(k) implies pl_defs@[k] == master_defs@.union_prefer_right(old(pl_defs)@)[k] by {
            if imported.contains_key(k) && !old(pl_defs)@.contains_key(k) {
                assert(master_defs@.contains_key(k) && imported[k] == master_defs@[k]);
            }
        }
        assert(pl_defs@ =~= master_defs@.union_prefer_right(old(pl_defs)@));
    }
}

/// Imports only add master values under names that were missing: what the definitions
/// held stays, and what was added is the master's.
pub open spec fn spec_extends_from_master(m: Map<Seq<char>, Seq<char>>, start: Map<Seq<char>, Seq<char>>, master: Map<Seq<char>, Seq<char>>) -> bool {
    &&& forall|k: Seq<char>| #[trigger] start.contains_key(k) ==> m.contains_key(k) && m[k] == start[k]
    &&& forall|k: Seq<char>| #[trigger] m.contains_key(k) && !start.contains_key(k) ==> master.contains_key(k) && m[k] == master[k]
}

proof fn lemma_import_line_extends(m: Map<Seq<char>, Seq<char>>, line: Seq<char>, master: Map<Seq<char>, Seq<char>>)
    ensures
        spec_extends_from_master(spec_import_line(m, line, master), m, master),
{
}

proof fn lemma_extends_trans(
    a: Map<Seq<char>, Seq<char>>,
    b: Map<Seq<char>, Seq<char>>,
    c: Map<Seq<char>, Seq<char>>,
    master: Map<Seq<char>, Seq<char>>,
)
    requires
        spec_extends_from_master(a, b, master),
        spec_extends_from_master(b, c, master),
    ensures
        spec_extends_from_master(a, c, master),
{
    assert forall|k: Seq<char>| a.contains_key(k) && !c.contains_key(k) implies master.contains_key(k) && a[k] == master[k] by {
        if b.contains_key(k) {
            assert(master.contains_key(k) && b[k] == master[k]);
        }
    }
}

/// Whatever the playlist text, importing keeps every definition and adds only master
/// values under missing names.
pub proof fn lemma_imports_take_master_values(content: Seq<char>, i: int, m: Map<Seq<char>, Seq<char>>, master: Map<Seq<char>, Seq<char>>)
    ensures
        spec_extends_from_master(spec_imports_from(content, i, m, master), m, master),
    decreases content.len() + 1 - i,
{
    if 0 <= i <= content.len() {
        let j = spec_find_from(content, '\n', i);
        lemma_find_from_bounds(content, '\n', i);
        let next = spec_import_line(m, content.subrange(i, j), master);
        lemma_import_line_extends(m, content.subrange(i, j), master);
        if j < content.len() {
            lemma_imports_take_master_values(content, j + 1, next, master);
            lemma_extends_trans(spec_imports_from(content, j + 1, next, master), next, m, master);
        }
    }
}


/// The URL of the Playlist Delta Update of the playlist at `url`: `_HLS_skip=YES` added to
/// its query.
pub open spec fn spec_delta_update_url(url: Seq<char>) -> Seq<char> {
    url + (if spec_contains(url, "?"@) { "&"@ } else { "?"@ }) + "_HLS_skip=YES"@
}

/// The URL that asks for the Playlist Delta Update of the playlist at `url`.
pub fn delta_update_url(url: &str) -> (r: String)
    ensures
        r@ == spec_delta_update_url(url@),
{
    let mut r = url.to_string();
    if contains(url, "?") {
        push_char(&mut r, '&');
    } else {
        push_char(&mut r, '?');
    }
    push_str(&mut r, "_HLS_skip=YES");
    proof {
        reveal_strlit("&");
        reveal_strlit("?");
    }
    r
}

/// The findings on a Playlist Delta Update response (rfc8216bis §6.2.5.1, §8), as
/// (check, message) pairs in the order they are tested.
pub open spec fn spec_delta_findings(name: Seq<char>, content: Seq<char>, version: u32) -> Seq<(CheckId, Seq<char>)> {
    (if !spec_contains(content, "#EXT-X-SKIP:"@) {
        seq![(CheckId::DeltaUpdates, "rfc8216bis §6.2.5.1: Delta update response for '"@ + name
            + "' does not contain EXT-X-SKIP. The server MUST include EXT-X-SKIP when responding to _HLS_skip=YES."@)]
    } else {
        Seq::empty()
    }) + (if !spec_contains(content, "#EXT-X-MEDIA-SEQUENCE:"@) {
        seq![(CheckId::DeltaUpdates, "rfc8216bis §6.2.5.1: Delta update response for '"@ + name
            + "' is missing EXT-X-MEDIA-SEQUENCE. All tags not skipped MUST remain in the delta playlist."@)]
    } else {
        Seq::empty()
    }) + (if version < 9 {
        seq![(CheckId::VersionCompatibility, "rfc8216bis §8: Delta update response for '"@ + name
            + "' declares EXT-X-VERSION:"@ + spec_decimal(version as nat) + " but EXT-X-SKIP requires VERSION >= 9."@)]
    } else {
        Seq::empty()
    })
}

/// What a Playlist Delta Update response must hold (rfc8216bis §6.2.5.1, §8): EXT-X-SKIP,
/// EXT-X-MEDIA-SEQUENCE, and a version of at least 9 (`delta_version`, as the response
/// declares it). Each shortfall is an error about rendition `name` at `delta_url`.
/// SKIPPED-SEGMENTS is not required to be above zero: a window with nothing older than
/// CAN-SKIP-UNTIL has nothing to skip, which is a conforming answer.
pub fn delta_response_issues(name: &str, delta_url: &str, delta_content: &str, delta_version: u32) -> (r: Vec<Issue>)
    ensures
        ({
            let expected = spec_delta_findings(name@, delta_content@, delta_version);
            &&& r@.len() == expected.len()
            &&& forall|k: int| 0 <= k < r@.len() ==> spec_finding_at(
                #[trigger] r@[k],
                Severity::Error,
                expected[k].0,
                Some(name@),
                delta_url@,
                expected[k].1,
            )
        }),
{
    let mut issues: Vec<Issue> = Vec::new();
    let no_skip = !contains(delta_content, "#EXT-X-SKIP:");
    if no_skip {
        let mut message = String::from_str("rfc8216bis §6.2.5.1: Delta update response for '");
        push_str(&mut message, name);
        push_str(
            &mut message,
            "' does not contain EXT-X-SKIP. The server MUST include EXT-X-SKIP when responding to _HLS_skip=YES.",
        );
        issues.push(finding_at(Severity::Error, CheckId::DeltaUpdates, Some(name.to_string()), delta_url, message));
    }
    let no_msn = !contains(delta_content, "#EXT-X-MEDIA-SEQUENCE:");
    if no_msn {
        let mut message = String::from_str("rfc8216bis §6.2.5.1: Delta update response for '");
        push_str(&mut message, name);
        push_str(&mut message, "' is missing EXT-X-MEDIA-SEQUENCE. All tags not skipped MUST remain in the delta playlist.");
        issues.push(finding_at(Severity::Error, CheckId::DeltaUpdates, Some(name.to_string()), delta_url, message));
    }
    if delta_version < 9 {
        let mut message = String::from_str("rfc8216bis §8: Delta update response for '");
        push_str(&mut message, name);
        push_str(&mut message, "' declares EXT-X-VERSION:");
        push_decimal(&mut message, delta_version as u64);
        push_str(&mut message, " but EXT-X-SKIP requires VERSION >= 9.");
        issues.push(finding_at(Severity::Error, CheckId::VersionCompatibility, Some(name.to_string()), delta_url, message));
    }
    proof {
        let expected = spec_delta_findings(name@, delta_content@, delta_version);
        assert(expected.len() == issues@.len());
    }
    issues
}


/// The break types of SCTE 35 Table 22 by segmentation type byte: 0x10 to 0x17 program,
/// 0x20 to 0x27 chapter, every byte from 0x30 to 0x37 (provider and distributor
/// advertisements) an ad break, only 0x38 to 0x3f (placement opportunities) a frame ad,
/// 0x40 to 0x4f breakaway, 0x50 to 0x5f network; and an ID whose type byte is `b` gets the
/// type of `b`.
pub proof fn lemma_scte35_classes()
    ensures
        forall|b: u8| 0x10 <= b <= 0x17 ==> #[trigger] spec_scte35_class(b) == "program"@,
        forall|b: u8| 0x20 <= b <= 0x27 ==> #[trigger] spec_scte35_class(b) == "chapter"@,
        forall|b: u8| 0x30 <= b <= 0x37 ==> #[trigger] spec_scte35_class(b) == "ad_break"@,
        forall|b: u8| 0x38 <= b <= 0x3f ==> #[trigger] spec_scte35_class(b) == "frame_ad"@,
        forall|b: u8| 0x40 <= b <= 0x4f ==> #[trigger] spec_scte35_class(b) == "breakaway"@,
        forall|b: u8| 0x50 <= b <= 0x5f ==> #[trigger] spec_scte35_class(b) == "network"@,
        forall|id: Seq<char>, b: u8| #![trigger spec_classify_scte35(id), spec_scte35_class(b)] {
            let lower = spec_to_lowercase(id);
            let rest = lower.subrange(2, lower.len() as int);
            spec_starts_with(lower, "0x"@) && spec_hex_u8_text(rest.subrange(0, spec_find_from(rest, '-', 0))) == Some(b)
        } ==> spec_classify_scte35(id) == spec_scte35_class(b),
{
}

} // verus!
