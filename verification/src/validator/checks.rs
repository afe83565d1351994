//! Rules on the media playlists of a presentation.

use vstd::prelude::*;
use crate::query_codec::{parse_u64, spec_u64_text};
use vstd::string::StringExecFns;
use crate::text::{
    contains, find_from, lemma_find_from_bounds, lemma_skip_space_bounds, lemma_trim_end_bounds, push_char,
    push_decimal, push_str, spec_contains, spec_decimal, spec_find_from, spec_is_digit, spec_skip_space,
    spec_starts_with, spec_trim, starts_with, str_equals_text, trim, spec_lex_lt, str_lex_lt, lemma_lex_total,
    lemma_lex_transitive,
};
use crate::validator::types::{CheckId, Confidence, Issue, MediaRendition, Severity};
use crate::validator::parser::{lemma_rfind_bounds, rfind, spec_rfind};

verus! {

/// Whether every character of `s` is an ASCII digit.
pub open spec fn spec_all_digits(s: Seq<char>) -> bool {
    forall|i: int| 0 <= i < s.len() ==> spec_is_digit(#[trigger] s[i])
}

/// The file name of a URI without its extensions: the text after the last `/`, up to the
/// first `.`.
pub open spec fn spec_uri_stem(uri: Seq<char>) -> Seq<char> {
    let after = match spec_rfind(uri, '/', uri.len() as int) {
        Some(p) => uri.subrange(p + 1, uri.len() as int),
        None => uri,
    };
    after.subrange(0, spec_find_from(after, '.', 0))
}

/// The Media Sequence Number a segment URI carries: a file name of digits alone, or the
/// second hyphen-separated field of the file name where that field is at least six
/// digits (`20260715T225158-151674692-03-ts.m4v`).
pub open spec fn spec_msn_of_uri(uri: Seq<char>) -> Option<u64> {
    let name = spec_uri_stem(uri);
    if name.len() > 0 && spec_all_digits(name) {
        spec_u64_text(name)
    } else {
        let d = spec_find_from(name, '-', 0);
        if d < name.len() {
            let field = name.subrange(d + 1, spec_find_from(name, '-', d + 1));
            if spec_all_digits(field) && field.len() >= 6 {
                spec_u64_text(field)
            } else {
                None
            }
        } else {
            None
        }
    }
}

fn all_digits(s: &str) -> (r: bool)
    ensures
        r == spec_all_digits(s@),
{
    let n = s.unicode_len();
    let mut i: usize = 0;
    while i < n
        invariant
            i <= n,
            n == s@.len(),
            forall|j: int| 0 <= j < i ==> spec_is_digit(#[trigger] s@[j]),
        decreases n - i,
    {
        let c = s.get_char(i);
        if !('0' <= c && c <= '9') {
            return false;
        }
        i = i + 1;
    }
    true
}

/// Extracts the Media Sequence Number from a segment URI, for the two patterns CDNs
/// commonly use: a numeric file name (`.../151674692.m4v`), or a hyphenated name whose
/// second field is the number (`.../20260715T225158-151674692-03-ts.m4v`).
pub fn extract_msn_from_uri(uri: &str) -> (r: Option<u64>)
    ensures
        r == spec_msn_of_uri(uri@),
{
    let n = uri.unicode_len();
    let after = match rfind(uri, '/') {
        Some(p) => {
            proof {
                lemma_rfind_bounds(uri@, '/', n as int);
            }
            uri.substring_char(p + 1, n)
        },
        None => uri,
    };
    let dot = find_from(after, '.', 0);
    proof {
        lemma_find_from_bounds(after@, '.', 0);
    }
    let name = after.substring_char(0, dot);
    let m = name.unicode_len();
    if m > 0 && all_digits(name) {
        return match parse_u64(name) {
            Ok(v) => Some(v),
            Err(_) => None,
        };
    }
    let d = find_from(name, '-', 0);
    proof {
        lemma_find_from_bounds(name@, '-', 0);
    }
    if d < m {
        let e = find_from(name, '-', d + 1);
        proof {
            lemma_find_from_bounds(name@, '-', d + 1);
        }
        let field = name.substring_char(d + 1, e);
        if all_digits(field) && field.unicode_len() >= 6 {
            return match parse_u64(field) {
                Ok(v) => Some(v),
                Err(_) => None,
            };
        }
    }
    None
}

/// What the structural rules read of a media playlist, as plain values.
#[derive(Debug, Clone)]
pub struct PlaylistFacts {
    pub name: String,
    pub raw_content: String,
    /// "VIDEO" or "AUDIO".
    pub media_type: String,
    pub is_iframe: bool,
    pub has_endlist: bool,
    pub playlist_type: Option<String>,
    pub discontinuity_sequence: u64,
    /// EXT-X-MEDIA-SEQUENCE (0 where the playlist does not declare it).
    pub media_sequence: u64,
    /// SKIPPED-SEGMENTS of EXT-X-SKIP (0 where there is none).
    pub skipped_segments: u64,
    /// The declared EXT-X-VERSION (1 where none is declared).
    pub version: u32,
    pub segments: Vec<SegmentFacts>,
    /// The METHODs of the playlist's EXT-X-KEY tags, in the order they are declared.
    pub encryption_methods: Vec<String>,
}

/// What the structural rules read of one media segment.
#[derive(Debug, Clone)]
pub struct SegmentFacts {
    pub uri: String,
    /// Whether the segment carries EXT-X-PROGRAM-DATE-TIME.
    pub has_pdt: bool,
    /// The segment's duration as the report writes it (three decimals), where it is not a
    /// whole number of seconds.
    pub fractional_duration: Option<String>,
}

/// One variant (EXT-X-STREAM-INF) of a multivariant playlist, as the multivariant rules
/// read it.
#[derive(Debug, Clone)]
pub struct VariantFacts {
    pub uri: String,
    pub bandwidth: Option<u64>,
    pub codecs: Option<String>,
    pub audio_group: Option<String>,
}

/// A finding about a playlist as a whole: `severity` from `check`, about `rendition`,
/// saying `message`, everything else at the values the report reads as "not said".
pub open spec fn spec_finding(i: Issue, severity: Severity, check: CheckId, rendition: Option<Seq<char>>, message: Seq<char>) -> bool {
    &&& i.severity == severity
    &&& i.check_id == check
    &&& i.confidence == Confidence::Measured
    &&& i.segment_index == -1
    &&& match (i.rendition_a, rendition) {
        (Some(a), Some(b)) => a@ == b,
        (None, None) => true,
        _ => false,
    }
    &&& i.rendition_b is None
    &&& i.uri_a is None
    &&& i.uri_b is None
    &&& i.message@ == message
    &&& i.uri_note is None
    &&& i.count == 1
    &&& i.seg_first == -1
    &&& i.seg_last == -1
}

fn finding(severity: Severity, check: CheckId, rendition: Option<String>, message: String) -> (r: Issue)
    ensures
        spec_finding(r, severity, check, match rendition {
            Some(s) => Some(s@),
            None => None,
        }, message@),
{
    Issue {
        severity,
        check_id: check,
        confidence: Confidence::Measured,
        segment_index: -1,
        rendition_a: rendition,
        rendition_b: None,
        uri_a: None,
        uri_b: None,
        message,
        uri_note: None,
        count: 1,
        seg_first: -1,
        seg_last: -1,
    }
}

/// The first line of a playlist text: what precedes the first line feed, less a carriage
/// return just before it; empty for an empty text.
pub open spec fn spec_first_line(s: Seq<char>) -> Seq<char> {
    let j = spec_find_from(s, '\n', 0);
    if j < s.len() && j > 0 && s[j - 1] == '\r' {
        s.subrange(0, j - 1)
    } else {
        s.subrange(0, j)
    }
}

fn first_line(s: &str) -> (r: &str)
    ensures
        r@ == spec_first_line(s@),
{
    let n = s.unicode_len();
    let j = find_from(s, '\n', 0);
    proof {
        lemma_find_from_bounds(s@, '\n', 0);
    }
    if j < n && j > 0 && s.get_char(j - 1) == '\r' {
        s.substring_char(0, j - 1)
    } else {
        s.substring_char(0, j)
    }
}

/// The finding of the EXTM3U rule for one playlist, if it has one.
pub open spec fn spec_extm3u_message(name: Seq<char>, first: Seq<char>) -> Seq<char> {
    "RFC 8216bis §4.4.1.1: Playlist '"@ + name + "' does not start with #EXTM3U. First line: '"@ + first + "'"@
}

/// The playlists, among the first `n`, whose first line is not `#EXTM3U` once trimmed:
/// each as its name and the rule's message.
pub open spec fn spec_extm3u_findings(pls: Seq<PlaylistFacts>, n: int) -> Seq<(Seq<char>, Seq<char>)>
    decreases n,
{
    if n <= 0 {
        Seq::empty()
    } else {
        let pl = pls[n - 1];
        let first = spec_first_line(pl.raw_content@);
        let rest = spec_extm3u_findings(pls, n - 1);
        if spec_trim(first) != "#EXTM3U"@ {
            rest.push((pl.name@, spec_extm3u_message(pl.name@, first)))
        } else {
            rest
        }
    }
}

/// Whether `r` holds, in order, one finding of `severity` from `check` per entry of
/// `expected` (rendition and message).
pub open spec fn spec_findings_are(r: Seq<Issue>, severity: Severity, check: CheckId, expected: Seq<(Seq<char>, Seq<char>)>) -> bool {
    &&& r.len() == expected.len()
    &&& forall|k: int| 0 <= k < r.len() ==> spec_finding(#[trigger] r[k], severity, check, Some(expected[k].0), expected[k].1)
}

/// RFC 8216bis §4.4.1.1: every playlist's first line is `#EXTM3U`. Each playlist whose
/// first line is not is an error.
pub fn check_extm3u_header(playlists: &[PlaylistFacts]) -> (r: Vec<Issue>)
    ensures
        spec_findings_are(r@, Severity::Error, CheckId::ExtM3uHeader, spec_extm3u_findings(playlists@, playlists@.len() as int)),
{
    let mut issues: Vec<Issue> = Vec::new();
    let mut i: usize = 0;
    while i < playlists.len()
        invariant
            i <= playlists@.len(),
            spec_findings_are(issues@, Severity::Error, CheckId::ExtM3uHeader, spec_extm3u_findings(playlists@, i as int)),
        decreases playlists.len() - i,
    {
        let pl = &playlists[i];
        let first = first_line(pl.raw_content.as_str());
        if !str_equals_text(trim(first), "#EXTM3U") {
            let mut message = String::from_str("RFC 8216bis §4.4.1.1: Playlist '");
            push_str(&mut message, pl.name.as_str());
            push_str(&mut message, "' does not start with #EXTM3U. First line: '");
            push_str(&mut message, first);
            push_str(&mut message, "'");
            issues.push(finding(Severity::Error, CheckId::ExtM3uHeader, Some(pl.name.clone()), message));
        }
        i = i + 1;
    }
    issues
}

/// The message of the live-window rule.
pub open spec fn spec_live_window_message(name: Seq<char>, n: nat) -> Seq<char> {
    "RFC 8216 §6.2.2: Live playlist '"@ + name + "' contains only "@ + spec_decimal(n)
        + " segment(s). A Live Media Playlist MUST retain at least 3 segments."@
}

/// The live playlists, among the first `n`, that hold fewer than three segments.
pub open spec fn spec_live_window_findings(pls: Seq<PlaylistFacts>, n: int) -> Seq<(Seq<char>, Seq<char>)>
    decreases n,
{
    if n <= 0 {
        Seq::empty()
    } else {
        let pl = pls[n - 1];
        let rest = spec_live_window_findings(pls, n - 1);
        if !pl.has_endlist && pl.segments@.len() < 3 {
            rest.push((pl.name@, spec_live_window_message(pl.name@, pl.segments@.len())))
        } else {
            rest
        }
    }
}

/// RFC 8216 §6.2.2: a live playlist (one without ENDLIST) keeps at least three segments.
pub fn check_live_playlist_min_segments(playlists: &[PlaylistFacts]) -> (r: Vec<Issue>)
    ensures
        spec_findings_are(r@, Severity::Error, CheckId::LivePlaylistWindow, spec_live_window_findings(playlists@, playlists@.len() as int)),
{
    let mut issues: Vec<Issue> = Vec::new();
    let mut i: usize = 0;
    while i < playlists.len()
        invariant
            i <= playlists@.len(),
            spec_findings_are(issues@, Severity::Error, CheckId::LivePlaylistWindow, spec_live_window_findings(playlists@, i as int)),
        decreases playlists.len() - i,
    {
        let pl = &playlists[i];
        if !pl.has_endlist && pl.segments.len() < 3 {
            let mut message = String::from_str("RFC 8216 §6.2.2: Live playlist '");
            push_str(&mut message, pl.name.as_str());
            push_str(&mut message, "' contains only ");
            push_decimal(&mut message, pl.segments.len() as u64);
            push_str(&mut message, " segment(s). A Live Media Playlist MUST retain at least 3 segments.");
            issues.push(finding(Severity::Error, CheckId::LivePlaylistWindow, Some(pl.name.clone()), message));
        }
        i = i + 1;
    }
    issues
}

/// The message of the VOD/ENDLIST rule.
pub open spec fn spec_vod_endlist_message(name: Seq<char>) -> Seq<char> {
    "RFC 8216bis §4.4.3.5: Playlist '"@ + name
        + "' declares PLAYLIST-TYPE:VOD but is missing EXT-X-ENDLIST. A VOD playlist MUST end with EXT-X-ENDLIST."@
}

/// The playlists, among the first `n`, that declare PLAYLIST-TYPE:VOD without ENDLIST.
pub open spec fn spec_vod_endlist_findings(pls: Seq<PlaylistFacts>, n: int) -> Seq<(Seq<char>, Seq<char>)>
    decreases n,
{
    if n <= 0 {
        Seq::empty()
    } else {
        let pl = pls[n - 1];
        let rest = spec_vod_endlist_findings(pls, n - 1);
        if (pl.playlist_type matches Some(t) && t@ == "VOD"@) && !pl.has_endlist {
            rest.push((pl.name@, spec_vod_endlist_message(pl.name@)))
        } else {
            rest
        }
    }
}

/// RFC 8216bis §4.4.3.5: a VOD playlist ends with EXT-X-ENDLIST. An EVENT playlist
/// without it is a live event still running, which is valid.
pub fn check_playlist_type_endlist(playlists: &[PlaylistFacts]) -> (r: Vec<Issue>)
    ensures
        spec_findings_are(r@, Severity::Error, CheckId::PlaylistTypeEndlist, spec_vod_endlist_findings(playlists@, playlists@.len() as int)),
{
    let mut issues: Vec<Issue> = Vec::new();
    let mut i: usize = 0;
    while i < playlists.len()
        invariant
            i <= playlists@.len(),
            spec_findings_are(issues@, Severity::Error, CheckId::PlaylistTypeEndlist, spec_vod_endlist_findings(playlists@, i as int)),
        decreases playlists.len() - i,
    {
        let pl = &playlists[i];
        let is_vod = match &pl.playlist_type {
            Some(t) => str_equals_text(t.as_str(), "VOD"),
            None => false,
        };
        if is_vod && !pl.has_endlist {
            let mut message = String::from_str("RFC 8216bis §4.4.3.5: Playlist '");
            push_str(&mut message, pl.name.as_str());
            push_str(
                &mut message,
                "' declares PLAYLIST-TYPE:VOD but is missing EXT-X-ENDLIST. A VOD playlist MUST end with EXT-X-ENDLIST.",
            );
            issues.push(finding(Severity::Error, CheckId::PlaylistTypeEndlist, Some(pl.name.clone()), message));
        }
        i = i + 1;
    }
    issues
}

/// `name=value` for each of `entries`, joined by `, `.
pub open spec fn spec_details(entries: Seq<(Seq<char>, nat)>) -> Seq<char>
    decreases entries.len(),
{
    if entries.len() == 0 {
        Seq::empty()
    } else if entries.len() == 1 {
        entries[0].0 + seq!['='] + spec_decimal(entries[0].1)
    } else {
        spec_details(entries.drop_last()) + ", "@ + entries.last().0 + seq!['='] + spec_decimal(entries.last().1)
    }
}

/// The name and Discontinuity Sequence of each playlist.
pub open spec fn spec_disc_entries(pls: Seq<PlaylistFacts>) -> Seq<(Seq<char>, nat)> {
    pls.map_values(|pl: PlaylistFacts| (pl.name@, pl.discontinuity_sequence as nat))
}

/// Whether all playlists agree on their Discontinuity Sequence.
pub open spec fn spec_disc_agree(pls: Seq<PlaylistFacts>) -> bool {
    forall|i: int| 0 <= i < pls.len() ==> #[trigger] pls[i].discontinuity_sequence == pls[0].discontinuity_sequence
}

/// The message of the Discontinuity Sequence rule.
pub open spec fn spec_disc_message(pls: Seq<PlaylistFacts>) -> Seq<char> {
    "EXT-X-DISCONTINUITY-SEQUENCE values differ across renditions: "@ + spec_details(spec_disc_entries(pls))
        + ". They SHOULD be consistent for synchronized playback."@
}

/// Appends `name=value` to `out`, after `, ` where `out` already lists one.
fn push_detail(out: &mut String, first: bool, name: &str, value: u64)
    ensures
        final(out)@ == old(out)@ + (if first { Seq::empty() } else { ", "@ }) + name@ + seq!['='] + spec_decimal(value as nat),
{
    if !first {
        push_str(out, ", ");
    }
    push_str(out, name);
    push_char(out, '=');
    push_decimal(out, value);
}

/// RFC 8216bis §6.2.4: renditions agree on their Discontinuity Sequence. Where two or
/// more playlists disagree, one error lists each playlist's value, so the report's
/// Discontinuity Sequence row fails.
pub fn check_discontinuity_sequence(playlists: &[PlaylistFacts]) -> (r: Vec<Issue>)
    ensures
        playlists@.len() < 2 || spec_disc_agree(playlists@) ==> r@.len() == 0,
        playlists@.len() >= 2 && !spec_disc_agree(playlists@) ==> r@.len() == 1 && spec_finding(
            r@[0],
            Severity::Error,
            CheckId::DiscontinuitySequence,
            None,
            spec_disc_message(playlists@),
        ),
{
    let mut issues: Vec<Issue> = Vec::new();
    if playlists.len() < 2 {
        return issues;
    }
    let first = playlists[0].discontinuity_sequence;
    let mut agree = true;
    let mut details = String::new();
    let ghost pls = playlists@;
    let mut i: usize = 0;
    while i < playlists.len()
        invariant
            i <= pls.len(),
            pls == playlists@,
            pls.len() >= 2,
            first == pls[0].discontinuity_sequence,
            agree == (forall|j: int| 0 <= j < i ==> #[trigger] pls[j].discontinuity_sequence == first),
            details@ == spec_details(spec_disc_entries(pls.take(i as int))),
        decreases playlists.len() - i,
    {
        let pl = &playlists[i];
        if pl.discontinuity_sequence != first {
            agree = false;
        }
        let ghost before = details@;
        push_detail(&mut details, i == 0, pl.name.as_str(), pl.discontinuity_sequence);
        proof {
            let next = spec_disc_entries(pls.take(i + 1));
            assert(next.drop_last() =~= spec_disc_entries(pls.take(i as int)));
            if i == 0 {
                assert(before =~= Seq::<char>::empty());
            }
            assert(details@ =~= spec_details(next));
        }
        i = i + 1;
    }
    proof {
        assert(pls.take(pls.len() as int) =~= pls);
    }
    if !agree {
        let mut message = String::from_str("EXT-X-DISCONTINUITY-SEQUENCE values differ across renditions: ");
        push_str(&mut message, details.as_str());
        push_str(&mut message, ". They SHOULD be consistent for synchronized playback.");
        issues.push(finding(Severity::Error, CheckId::DiscontinuitySequence, None, message));
    }
    issues
}

/// Whether a playlist is compared by the segment-count rule: a finished video playlist
/// that is not I-frame only.
pub open spec fn spec_counted(pl: PlaylistFacts) -> bool {
    pl.has_endlist && pl.media_type@ == "VIDEO"@ && !pl.is_iframe
}

/// The playlists the segment-count rule compares, among the first `n`, in order.
pub open spec fn spec_counted_playlists(pls: Seq<PlaylistFacts>, n: int) -> Seq<PlaylistFacts>
    decreases n,
{
    if n <= 0 {
        Seq::empty()
    } else if spec_counted(pls[n - 1]) {
        spec_counted_playlists(pls, n - 1).push(pls[n - 1])
    } else {
        spec_counted_playlists(pls, n - 1)
    }
}

/// The name and segment count of each playlist.
pub open spec fn spec_count_entries(pls: Seq<PlaylistFacts>) -> Seq<(Seq<char>, nat)> {
    pls.map_values(|pl: PlaylistFacts| (pl.name@, pl.segments@.len()))
}

/// Whether all playlists hold as many segments as the first.
pub open spec fn spec_counts_agree(pls: Seq<PlaylistFacts>) -> bool {
    forall|i: int| 0 <= i < pls.len() ==> #[trigger] pls[i].segments@.len() == pls[0].segments@.len()
}

/// The message of the segment-count rule.
pub open spec fn spec_count_message(pls: Seq<PlaylistFacts>) -> Seq<char> {
    "Segment count mismatch across VIDEO renditions: "@ + spec_details(spec_count_entries(pls))
        + ". All video renditions should have the same number of segments."@
}

/// RFC 8216bis §4.4.4.1: finished video renditions hold the same number of segments.
/// Audio is left out, since audio encoders cut segments differently; where two or more
/// finished, non-I-frame video playlists disagree, one warning lists each count.
pub fn check_segment_count(playlists: &[PlaylistFacts]) -> (r: Vec<Issue>)
    ensures
        ({
            let counted = spec_counted_playlists(playlists@, playlists@.len() as int);
            &&& (playlists@.len() < 2 || counted.len() < 2 || spec_counts_agree(counted)) ==> r@.len() == 0
            &&& (playlists@.len() >= 2 && counted.len() >= 2 && !spec_counts_agree(counted)) ==> r@.len() == 1
                && spec_finding(r@[0], Severity::Warn, CheckId::SegmentCount, None, spec_count_message(counted))
        }),
{
    let mut issues: Vec<Issue> = Vec::new();
    if playlists.len() < 2 {
        return issues;
    }
    let ghost pls = playlists@;
    let mut counted: Vec<&PlaylistFacts> = Vec::new();
    let mut i: usize = 0;
    while i < playlists.len()
        invariant
            i <= pls.len(),
            pls == playlists@,
            counted@.len() == spec_counted_playlists(pls, i as int).len(),
            forall|k: int| 0 <= k < counted@.len() ==> *(#[trigger] counted@[k]) == spec_counted_playlists(pls, i as int)[k],
        decreases playlists.len() - i,
    {
        let pl = &playlists[i];
        if pl.has_endlist && str_equals_text(pl.media_type.as_str(), "VIDEO") && !pl.is_iframe {
            counted.push(pl);
        }
        i = i + 1;
    }
    let ghost cs = spec_counted_playlists(pls, pls.len() as int);
    if counted.len() < 2 {
        return issues;
    }
    let first = counted[0].segments.len();
    let mut agree = true;
    let mut details = String::new();
    let mut j: usize = 0;
    while j < counted.len()
        invariant
            j <= cs.len(),
            counted@.len() == cs.len(),
            forall|k: int| 0 <= k < counted@.len() ==> *(#[trigger] counted@[k]) == cs[k],
            cs.len() >= 2,
            first == cs[0].segments@.len(),
            agree == (forall|k: int| 0 <= k < j ==> #[trigger] cs[k].segments@.len() == first),
            details@ == spec_details(spec_count_entries(cs.take(j as int))),
        decreases counted.len() - j,
    {
        let pl = counted[j];
        if pl.segments.len() != first {
            agree = false;
        }
        let ghost before = details@;
        push_detail(&mut details, j == 0, pl.name.as_str(), pl.segments.len() as u64);
        proof {
            let next = spec_count_entries(cs.take(j + 1));
            assert(next.drop_last() =~= spec_count_entries(cs.take(j as int)));
            if j == 0 {
                assert(before =~= Seq::<char>::empty());
            }
            assert(details@ =~= spec_details(next));
        }
        j = j + 1;
    }
    proof {
        assert(cs.take(cs.len() as int) =~= cs);
    }
    if !agree {
        let mut message = String::from_str("Segment count mismatch across VIDEO renditions: ");
        push_str(&mut message, details.as_str());
        push_str(&mut message, ". All video renditions should have the same number of segments.");
        issues.push(finding(Severity::Warn, CheckId::SegmentCount, None, message));
    }
    issues
}


/// A finding located at a URI rather than in a rendition: `severity` from `check`, about
/// `rendition` where one is named, at `uri`, saying `message`.
pub open spec fn spec_finding_at(
    i: Issue,
    severity: Severity,
    check: CheckId,
    rendition: Option<Seq<char>>,
    uri: Seq<char>,
    message: Seq<char>,
) -> bool {
    &&& i.severity == severity
    &&& i.check_id == check
    &&& i.confidence == Confidence::Measured
    &&& i.segment_index == -1
    &&& match (i.rendition_a, rendition) {
        (Some(a), Some(b)) => a@ == b,
        (None, None) => true,
        _ => false,
    }
    &&& i.rendition_b is None
    &&& i.uri_a matches Some(u) && u@ == uri
    &&& i.uri_b is None
    &&& i.message@ == message
    &&& i.uri_note is None
    &&& i.count == 1
    &&& i.seg_first == -1
    &&& i.seg_last == -1
}

pub fn finding_at(severity: Severity, check: CheckId, rendition: Option<String>, uri: &str, message: String) -> (r: Issue)
    ensures
        spec_finding_at(r, severity, check, match rendition {
            Some(s) => Some(s@),
            None => None,
        }, uri@, message@),
{
    Issue {
        severity,
        check_id: check,
        confidence: Confidence::Measured,
        segment_index: -1,
        rendition_a: rendition,
        rendition_b: None,
        uri_a: Some(uri.to_string()),
        uri_b: None,
        message,
        uri_note: None,
        count: 1,
        seg_first: -1,
        seg_last: -1,
    }
}

/// The message of the PDT-coverage rule.
pub open spec fn spec_pdt_message(name: Seq<char>, missing: nat, total: nat) -> Seq<char> {
    "RFC 8216bis §6.2.4: Playlist '"@ + name + "' has partial PDT coverage: "@ + spec_decimal(missing) + " of "@
        + spec_decimal(total) + " segments lack EXT-X-PROGRAM-DATE-TIME."@
}

/// How many of the first `n` segments carry a PROGRAM-DATE-TIME.
pub open spec fn spec_pdt_count(segs: Seq<SegmentFacts>, n: int) -> nat
    decreases n,
{
    if n <= 0 {
        0
    } else {
        spec_pdt_count(segs, n - 1) + if segs[n - 1].has_pdt { 1nat } else { 0nat }
    }
}

/// Whether some but not all of a playlist's segments carry a PROGRAM-DATE-TIME.
pub open spec fn spec_partial_pdt(pl: PlaylistFacts) -> bool {
    let with = spec_pdt_count(pl.segments@, pl.segments@.len() as int);
    with > 0 && with < pl.segments@.len()
}

fn pdt_count(segs: &Vec<SegmentFacts>) -> (r: usize)
    ensures
        r == spec_pdt_count(segs@, segs@.len() as int),
        r <= segs@.len(),
{
    let mut count: usize = 0;
    let mut i: usize = 0;
    while i < segs.len()
        invariant
            i <= segs@.len(),
            count == spec_pdt_count(segs@, i as int),
            count <= i,
        decreases segs.len() - i,
    {
        if segs[i].has_pdt {
            count = count + 1;
        }
        i = i + 1;
    }
    count
}

/// The playlists, among the first `n`, whose PROGRAM-DATE-TIME coverage is partial.
pub open spec fn spec_pdt_findings(pls: Seq<PlaylistFacts>, n: int) -> Seq<(Seq<char>, Seq<char>)>
    decreases n,
{
    if n <= 0 {
        Seq::empty()
    } else {
        let pl = pls[n - 1];
        let rest = spec_pdt_findings(pls, n - 1);
        if spec_partial_pdt(pl) {
            rest.push((
                pl.name@,
                spec_pdt_message(
                    pl.name@,
                    (pl.segments@.len() - spec_pdt_count(pl.segments@, pl.segments@.len() as int)) as nat,
                    pl.segments@.len(),
                ),
            ))
        } else {
            rest
        }
    }
}

/// RFC 8216bis §6.2.4: where any segment of a playlist carries EXT-X-PROGRAM-DATE-TIME,
/// all should. A playlist with some but not all is warned about, with the count that
/// lacks one.
pub fn check_pdt_coverage(playlists: &[PlaylistFacts]) -> (r: Vec<Issue>)
    ensures
        spec_findings_are(r@, Severity::Warn, CheckId::PdtCoverage, spec_pdt_findings(playlists@, playlists@.len() as int)),
{
    let mut issues: Vec<Issue> = Vec::new();
    let mut i: usize = 0;
    while i < playlists.len()
        invariant
            i <= playlists@.len(),
            spec_findings_are(issues@, Severity::Warn, CheckId::PdtCoverage, spec_pdt_findings(playlists@, i as int)),
        decreases playlists.len() - i,
    {
        let pl = &playlists[i];
        let total = pl.segments.len();
        let with = pdt_count(&pl.segments);
        if with > 0 && with < total {
            let mut message = String::from_str("RFC 8216bis §6.2.4: Playlist '");
            push_str(&mut message, pl.name.as_str());
            push_str(&mut message, "' has partial PDT coverage: ");
            push_decimal(&mut message, (total - with) as u64);
            push_str(&mut message, " of ");
            push_decimal(&mut message, total as u64);
            push_str(&mut message, " segments lack EXT-X-PROGRAM-DATE-TIME.");
            issues.push(finding(Severity::Warn, CheckId::PdtCoverage, Some(pl.name.clone()), message));
        }
        i = i + 1;
    }
    issues
}

/// The tags a playlist may carry at most once.
pub open spec fn spec_singleton_tags() -> Seq<Seq<char>> {
    seq![
        "#EXT-X-VERSION:"@,
        "#EXT-X-INDEPENDENT-SEGMENTS"@,
        "#EXT-X-START:"@,
        "#EXT-X-TARGETDURATION:"@,
        "#EXT-X-MEDIA-SEQUENCE:"@,
        "#EXT-X-DISCONTINUITY-SEQUENCE:"@,
        "#EXT-X-PLAYLIST-TYPE:"@,
        "#EXT-X-I-FRAMES-ONLY"@,
        "#EXT-X-PART-INF:"@,
        "#EXT-X-SERVER-CONTROL:"@,
    ]
}

fn singleton_tags() -> (r: Vec<&'static str>)
    ensures
        r@.len() == spec_singleton_tags().len(),
        forall|i: int| 0 <= i < r@.len() ==> #[trigger] r@[i]@ == spec_singleton_tags()[i],
{
    vec![
        "#EXT-X-VERSION:",
        "#EXT-X-INDEPENDENT-SEGMENTS",
        "#EXT-X-START:",
        "#EXT-X-TARGETDURATION:",
        "#EXT-X-MEDIA-SEQUENCE:",
        "#EXT-X-DISCONTINUITY-SEQUENCE:",
        "#EXT-X-PLAYLIST-TYPE:",
        "#EXT-X-I-FRAMES-ONLY",
        "#EXT-X-PART-INF:",
        "#EXT-X-SERVER-CONTROL:",
    ]
}

/// How many lines of `content`, from position `i` on, begin with `tag` once trimmed;
/// lines being what lies between line feeds.
pub open spec fn spec_tag_line_count(content: Seq<char>, tag: Seq<char>, i: int) -> nat
    decreases content.len() + 1 - i,
{
    if i < 0 || i > content.len() {
        0
    } else {
        let j = spec_find_from(content, '\n', i);
        proof {
            lemma_find_from_bounds(content, '\n', i);
        }
        let here: nat = if spec_starts_with(spec_trim(content.subrange(i, j)), tag) { 1 } else { 0 };
        here + if j < content.len() { spec_tag_line_count(content, tag, j + 1) } else { 0 }
    }
}

pub proof fn lemma_trim_len(s: Seq<char>)
    ensures
        spec_trim(s).len() <= s.len(),
{
    lemma_skip_space_bounds(s, 0);
    lemma_trim_end_bounds(s, spec_skip_space(s, 0), s.len() as int);
}

fn count_tag_lines(content: &str, tag: &str) -> (r: usize)
    requires
        tag@.len() > 0,
    ensures
        r == spec_tag_line_count(content@, tag@, 0),
{
    let n = content.unicode_len();
    let mut count: usize = 0;
    let mut i: usize = 0;
    while i <= n
        invariant
            n == content@.len(),
            tag@.len() > 0,
            count <= i,
            count + spec_tag_line_count(content@, tag@, i as int) == spec_tag_line_count(content@, tag@, 0),
        decreases n + 1 - i,
    {
        let j = find_from(content, '\n', i);
        proof {
            lemma_find_from_bounds(content@, '\n', i as int);
        }
        let line = content.substring_char(i, j);
        let t = trim(line);
        proof {
            lemma_trim_len(line@);
        }
        if starts_with(t, tag) {
            count = count + 1;
        }
        if j >= n {
            return count;
        }
        i = j + 1;
    }
    count
}

/// A tag as the report names it: without its closing colon.
pub open spec fn spec_tag_label(tag: Seq<char>) -> Seq<char> {
    if tag.len() > 0 && tag.last() == ':' {
        tag.drop_last()
    } else {
        tag
    }
}

fn tag_label(tag: &str) -> (r: &str)
    ensures
        r@ == spec_tag_label(tag@),
{
    let n = tag.unicode_len();
    if n > 0 && tag.get_char(n - 1) == ':' {
        let r = tag.substring_char(0, n - 1);
        assert(r@ =~= tag@.drop_last());
        r
    } else {
        tag
    }
}

/// The message of the singleton-tag rule.
pub open spec fn spec_singleton_message(tag: Seq<char>, count: nat, name: Seq<char>) -> Seq<char> {
    "RFC 8216bis §4.4.3.2: Singleton tag '"@ + spec_tag_label(tag) + "' appears "@ + spec_decimal(count)
        + " times in '"@ + name + "'. It MUST appear at most once."@
}

/// The findings of the singleton-tag rule for one playlist, over the first `k` tags.
pub open spec fn spec_singleton_pl_findings(pl: PlaylistFacts, k: int) -> Seq<(Seq<char>, Seq<char>)>
    decreases k,
{
    if k <= 0 {
        Seq::empty()
    } else {
        let tag = spec_singleton_tags()[k - 1];
        let count = spec_tag_line_count(pl.raw_content@, tag, 0);
        let rest = spec_singleton_pl_findings(pl, k - 1);
        if count > 1 {
            rest.push((pl.name@, spec_singleton_message(tag, count, pl.name@)))
        } else {
            rest
        }
    }
}

/// The findings of the singleton-tag rule for the first `n` playlists.
pub open spec fn spec_singleton_findings(pls: Seq<PlaylistFacts>, n: int) -> Seq<(Seq<char>, Seq<char>)>
    decreases n,
{
    if n <= 0 {
        Seq::empty()
    } else {
        spec_singleton_findings(pls, n - 1) + spec_singleton_pl_findings(pls[n - 1], spec_singleton_tags().len() as int)
    }
}

/// RFC 8216bis §4.4.1.2, §4.4.2, §4.4.3: the singleton tags (EXT-X-VERSION,
/// EXT-X-INDEPENDENT-SEGMENTS, EXT-X-START and the Media Playlist tags) appear at most
/// once. Each tag of a playlist that appears on more than one line is an error.
pub fn check_media_sequence_duplicate_tags(playlists: &[PlaylistFacts]) -> (r: Vec<Issue>)
    ensures
        spec_findings_are(r@, Severity::Error, CheckId::SingletonTags, spec_singleton_findings(playlists@, playlists@.len() as int)),
{
    let tags = singleton_tags();
    let mut issues: Vec<Issue> = Vec::new();
    let mut i: usize = 0;
    while i < playlists.len()
        invariant
            i <= playlists@.len(),
            tags@.len() == spec_singleton_tags().len(),
            forall|t: int| 0 <= t < tags@.len() ==> #[trigger] tags@[t]@ == spec_singleton_tags()[t],
            spec_findings_are(issues@, Severity::Error, CheckId::SingletonTags, spec_singleton_findings(playlists@, i as int)),
        decreases playlists.len() - i,
    {
        let pl = &playlists[i];
        let ghost done = spec_singleton_findings(playlists@, i as int);
        let mut k: usize = 0;
        while k < tags.len()
            invariant
                k <= tags@.len(),
                tags@.len() == spec_singleton_tags().len(),
                forall|t: int| 0 <= t < tags@.len() ==> #[trigger] tags@[t]@ == spec_singleton_tags()[t],
                *pl == playlists@[i as int],
                spec_findings_are(issues@, Severity::Error, CheckId::SingletonTags, done + spec_singleton_pl_findings(*pl, k as int)),
            decreases tags.len() - k,
        {
            let tag = tags[k];
            proof {
                reveal_strlit("#EXT-X-VERSION:");
                reveal_strlit("#EXT-X-INDEPENDENT-SEGMENTS");
                reveal_strlit("#EXT-X-START:");
                reveal_strlit("#EXT-X-TARGETDURATION:");
                reveal_strlit("#EXT-X-MEDIA-SEQUENCE:");
                reveal_strlit("#EXT-X-DISCONTINUITY-SEQUENCE:");
                reveal_strlit("#EXT-X-PLAYLIST-TYPE:");
                reveal_strlit("#EXT-X-I-FRAMES-ONLY");
                reveal_strlit("#EXT-X-PART-INF:");
                reveal_strlit("#EXT-X-SERVER-CONTROL:");
                assert(tag@ == spec_singleton_tags()[k as int]);
            }
            let count = count_tag_lines(pl.raw_content.as_str(), tag);
            let ghost before = done + spec_singleton_pl_findings(*pl, k as int);
            if count > 1 {
                let mut message = String::from_str("RFC 8216bis §4.4.3.2: Singleton tag '");
                push_str(&mut message, tag_label(tag));
                push_str(&mut message, "' appears ");
                push_decimal(&mut message, count as u64);
                push_str(&mut message, " times in '");
                push_str(&mut message, pl.name.as_str());
                push_str(&mut message, "'. It MUST appear at most once.");
                issues.push(finding(Severity::Error, CheckId::SingletonTags, Some(pl.name.clone()), message));
                assert(done + spec_singleton_pl_findings(*pl, k + 1) =~= before.push(
                    (pl.name@, spec_singleton_message(tag@, count as nat, pl.name@)),
                ));
            } else {
                assert(done + spec_singleton_pl_findings(*pl, k + 1) =~= before);
            }
            k = k + 1;
        }
        i = i + 1;
    }
    issues
}

/// `item`, once, where `cond` holds.
pub open spec fn spec_if(cond: bool, item: (Seq<char>, Seq<char>)) -> Seq<(Seq<char>, Seq<char>)> {
    if cond {
        seq![item]
    } else {
        Seq::empty()
    }
}

/// A version-rule message: `'name' uses <what> which requires VERSION >= <min>.`
pub open spec fn spec_version_message(name: Seq<char>, what: Seq<char>, min: nat, version: u32) -> Seq<char> {
    "RFC 8216bis §8: '"@ + name + "' uses "@ + what + " which requires VERSION >= "@ + spec_decimal(min)
        + ". Declared version: "@ + spec_decimal(version as nat) + "."@
}

/// The first of the segments, from index `i` on, whose duration is not a whole number
/// of seconds: that duration as written.
pub open spec fn spec_first_fractional(segs: Seq<SegmentFacts>, i: int) -> Option<String>
    decreases segs.len() - i,
{
    if i < 0 || i >= segs.len() {
        None
    } else if segs[i].fractional_duration is Some {
        segs[i].fractional_duration
    } else {
        spec_first_fractional(segs, i + 1)
    }
}

fn first_fractional(segs: &Vec<SegmentFacts>) -> (r: Option<&String>)
    ensures
        match (r, spec_first_fractional(segs@, 0)) {
            (Some(a), Some(b)) => a@ == b@,
            (None, None) => true,
            _ => false,
        },
{
    let mut i: usize = 0;
    while i < segs.len()
        invariant
            i <= segs@.len(),
            spec_first_fractional(segs@, i as int) == spec_first_fractional(segs@, 0),
        decreases segs.len() - i,
    {
        if let Some(d) = &segs[i].fractional_duration {
            return Some(d);
        }
        i = i + 1;
    }
    None
}

/// The finding of the version rule on a fractional EXTINF, if the playlist has one.
pub open spec fn spec_fractional_finding(pl: PlaylistFacts) -> Seq<(Seq<char>, Seq<char>)> {
    match spec_first_fractional(pl.segments@, 0) {
        Some(d) => spec_if(
            pl.version < 3,
            (pl.name@, spec_version_message(pl.name@, "floating-point EXTINF ("@ + d@ + "s)"@, 3, pl.version)),
        ),
        None => Seq::empty(),
    }
}

/// The findings of the version rule for one playlist, in the order the rule tests them.
pub open spec fn spec_version_pl_findings(pl: PlaylistFacts) -> Seq<(Seq<char>, Seq<char>)> {
    let c = pl.raw_content@;
    let v = pl.version;
    let n = pl.name@;
    spec_if(
        v < 2 && spec_contains(c, "#EXT-X-KEY:"@) && spec_contains(c, "IV="@),
        (n, spec_version_message(n, "EXT-X-KEY with IV attribute"@, 2, v)),
    ) + spec_fractional_finding(pl) + spec_if(
        v < 4 && spec_contains(c, "#EXT-X-BYTERANGE:"@),
        (n, spec_version_message(n, "EXT-X-BYTERANGE"@, 4, v)),
    ) + spec_if(
        v < 5 && spec_contains(c, "#EXT-X-MAP:"@) && !spec_contains(c, "#EXT-X-I-FRAMES-ONLY"@),
        (n, spec_version_message(n, "EXT-X-MAP without I-FRAMES-ONLY"@, 5, v)),
    ) + spec_if(v < 9 && spec_contains(c, "#EXT-X-SKIP:"@), (n, spec_version_message(n, "EXT-X-SKIP"@, 9, v)))
}

/// The findings of the version rule for the first `n` playlists.
pub open spec fn spec_version_findings(pls: Seq<PlaylistFacts>, n: int) -> Seq<(Seq<char>, Seq<char>)>
    decreases n,
{
    if n <= 0 {
        Seq::empty()
    } else {
        spec_version_findings(pls, n - 1) + spec_version_pl_findings(pls[n - 1])
    }
}

fn version_message(name: &str, what: &str, min: u64, version: u32) -> (r: String)
    ensures
        r@ == spec_version_message(name@, what@, min as nat, version),
{
    let mut message = String::from_str("RFC 8216bis §8: '");
    push_str(&mut message, name);
    push_str(&mut message, "' uses ");
    push_str(&mut message, what);
    push_str(&mut message, " which requires VERSION >= ");
    push_decimal(&mut message, min);
    push_str(&mut message, ". Declared version: ");
    push_decimal(&mut message, version as u64);
    push_str(&mut message, ".");
    message
}

/// Two runs of findings, one after the other, are the findings of the two lists joined.
pub proof fn lemma_findings_concat(
    a: Seq<Issue>,
    b: Seq<Issue>,
    severity: Severity,
    check: CheckId,
    ea: Seq<(Seq<char>, Seq<char>)>,
    eb: Seq<(Seq<char>, Seq<char>)>,
)
    requires
        spec_findings_are(a, severity, check, ea),
        spec_findings_are(b, severity, check, eb),
    ensures
        spec_findings_are(a + b, severity, check, ea + eb),
{
    assert forall|k: int| 0 <= k < (a + b).len() implies spec_finding(
        #[trigger] (a + b)[k],
        severity,
        check,
        Some((ea + eb)[k].0),
        (ea + eb)[k].1,
    ) by {
        if k >= a.len() {
            assert((a + b)[k] == b[k - a.len()]);
            assert((ea + eb)[k] == eb[k - ea.len()]);
        }
    }
}

/// The version rule's findings for one playlist.
fn version_findings_of(pl: &PlaylistFacts) -> (r: Vec<Issue>)
    ensures
        spec_findings_are(r@, Severity::Error, CheckId::VersionCompatibility, spec_version_pl_findings(*pl)),
{
    let mut issues: Vec<Issue> = Vec::new();
    let c = pl.raw_content.as_str();
    let v = pl.version;
    let name = pl.name.as_str();
    let ghost n = name@;
    if v < 2 && contains(c, "#EXT-X-KEY:") && contains(c, "IV=") {
        let m = version_message(name, "EXT-X-KEY with IV attribute", 2, v);
        issues.push(finding(Severity::Error, CheckId::VersionCompatibility, Some(pl.name.clone()), m));
    }
    let ghost e1 = spec_if(
        v < 2 && spec_contains(c@, "#EXT-X-KEY:"@) && spec_contains(c@, "IV="@),
        (n, spec_version_message(n, "EXT-X-KEY with IV attribute"@, 2, v)),
    );
    assert(spec_findings_are(issues@, Severity::Error, CheckId::VersionCompatibility, e1));
    if v < 3 {
        if let Some(d) = first_fractional(&pl.segments) {
            let mut what = String::from_str("floating-point EXTINF (");
            push_str(&mut what, d.as_str());
            push_str(&mut what, "s)");
            let m = version_message(name, what.as_str(), 3, v);
            issues.push(finding(Severity::Error, CheckId::VersionCompatibility, Some(pl.name.clone()), m));
        }
    }
    let ghost e2 = e1 + spec_fractional_finding(*pl);
    assert(spec_findings_are(issues@, Severity::Error, CheckId::VersionCompatibility, e2));
    if v < 4 && contains(c, "#EXT-X-BYTERANGE:") {
        let m = version_message(name, "EXT-X-BYTERANGE", 4, v);
        issues.push(finding(Severity::Error, CheckId::VersionCompatibility, Some(pl.name.clone()), m));
    }
    let ghost e3 = e2 + spec_if(
        v < 4 && spec_contains(c@, "#EXT-X-BYTERANGE:"@),
        (n, spec_version_message(n, "EXT-X-BYTERANGE"@, 4, v)),
    );
    assert(spec_findings_are(issues@, Severity::Error, CheckId::VersionCompatibility, e3));
    if v < 5 && contains(c, "#EXT-X-MAP:") && !contains(c, "#EXT-X-I-FRAMES-ONLY") {
        let m = version_message(name, "EXT-X-MAP without I-FRAMES-ONLY", 5, v);
        issues.push(finding(Severity::Error, CheckId::VersionCompatibility, Some(pl.name.clone()), m));
    }
    let ghost e4 = e3 + spec_if(
        v < 5 && spec_contains(c@, "#EXT-X-MAP:"@) && !spec_contains(c@, "#EXT-X-I-FRAMES-ONLY"@),
        (n, spec_version_message(n, "EXT-X-MAP without I-FRAMES-ONLY"@, 5, v)),
    );
    assert(spec_findings_are(issues@, Severity::Error, CheckId::VersionCompatibility, e4));
    if v < 9 && contains(c, "#EXT-X-SKIP:") {
        let m = version_message(name, "EXT-X-SKIP", 9, v);
        issues.push(finding(Severity::Error, CheckId::VersionCompatibility, Some(pl.name.clone()), m));
    }
    let ghost e5 = e4 + spec_if(v < 9 && spec_contains(c@, "#EXT-X-SKIP:"@), (n, spec_version_message(n, "EXT-X-SKIP"@, 9, v)));
    assert(spec_findings_are(issues@, Severity::Error, CheckId::VersionCompatibility, e5));
    assert(e5 =~= spec_version_pl_findings(*pl));
    issues
}

/// RFC 8216bis §8: a playlist declares a version high enough for what it uses. IV on
/// EXT-X-KEY needs 2, a fractional EXTINF 3, EXT-X-BYTERANGE 4, EXT-X-MAP outside an
/// I-frame playlist 5, EXT-X-SKIP 9; each shortfall is an error.
pub fn check_version_compatibility(playlists: &[PlaylistFacts]) -> (r: Vec<Issue>)
    ensures
        spec_findings_are(r@, Severity::Error, CheckId::VersionCompatibility, spec_version_findings(playlists@, playlists@.len() as int)),
{
    let mut issues: Vec<Issue> = Vec::new();
    let mut i: usize = 0;
    while i < playlists.len()
        invariant
            i <= playlists@.len(),
            spec_findings_are(issues@, Severity::Error, CheckId::VersionCompatibility, spec_version_findings(playlists@, i as int)),
        decreases playlists.len() - i,
    {
        let mut more = version_findings_of(&playlists[i]);
        proof {
            lemma_findings_concat(
                issues@,
                more@,
                Severity::Error,
                CheckId::VersionCompatibility,
                spec_version_findings(playlists@, i as int),
                spec_version_pl_findings(playlists@[i as int]),
            );
        }
        issues.append(&mut more);
        i = i + 1;
    }
    issues
}

/// The message of the BANDWIDTH rule.
pub open spec fn spec_bandwidth_message(uri: Seq<char>) -> Seq<char> {
    "RFC 8216bis §4.4.6.2: EXT-X-STREAM-INF for URI '"@ + uri + "' is missing the BANDWIDTH attribute, which is REQUIRED."@
}

/// The URIs of the variants, among the first `n`, that lack BANDWIDTH.
pub open spec fn spec_bandwidth_findings(vs: Seq<VariantFacts>, n: int) -> Seq<Seq<char>>
    decreases n,
{
    if n <= 0 {
        Seq::empty()
    } else {
        let rest = spec_bandwidth_findings(vs, n - 1);
        if vs[n - 1].bandwidth is None {
            rest.push(vs[n - 1].uri@)
        } else {
            rest
        }
    }
}

/// RFC 8216bis §4.4.6.2: BANDWIDTH is required on EXT-X-STREAM-INF. Each variant without
/// it is an error located at its URI.
pub fn check_bandwidth_required(variants: &[VariantFacts]) -> (r: Vec<Issue>)
    ensures
        ({
            let uris = spec_bandwidth_findings(variants@, variants@.len() as int);
            &&& r@.len() == uris.len()
            &&& forall|k: int| 0 <= k < r@.len() ==> spec_finding_at(
                #[trigger] r@[k],
                Severity::Error,
                CheckId::BandwidthRequired,
                None,
                uris[k],
                spec_bandwidth_message(uris[k]),
            )
        }),
{
    let mut issues: Vec<Issue> = Vec::new();
    let mut i: usize = 0;
    while i < variants.len()
        invariant
            i <= variants@.len(),
            issues@.len() == spec_bandwidth_findings(variants@, i as int).len(),
            forall|k: int| 0 <= k < issues@.len() ==> spec_finding_at(
                #[trigger] issues@[k],
                Severity::Error,
                CheckId::BandwidthRequired,
                None,
                spec_bandwidth_findings(variants@, i as int)[k],
                spec_bandwidth_message(spec_bandwidth_findings(variants@, i as int)[k]),
            ),
        decreases variants.len() - i,
    {
        let v = &variants[i];
        if v.bandwidth.is_none() {
            let mut message = String::from_str("RFC 8216bis §4.4.6.2: EXT-X-STREAM-INF for URI '");
            push_str(&mut message, v.uri.as_str());
            push_str(&mut message, "' is missing the BANDWIDTH attribute, which is REQUIRED.");
            issues.push(finding_at(Severity::Error, CheckId::BandwidthRequired, None, v.uri.as_str(), message));
        }
        i = i + 1;
    }
    issues
}


/// A finding as a rule states it: severity, segment index, rendition, URI and message.
pub type Finding = (Severity, int, Option<Seq<char>>, Option<Seq<char>>, Seq<char>);

/// Whether `i` is finding `e` of `check`, everything else at the values the report reads
/// as "not said".
pub open spec fn spec_finding_is(i: Issue, check: CheckId, e: Finding) -> bool {
    &&& i.severity == e.0
    &&& i.check_id == check
    &&& i.confidence == Confidence::Measured
    &&& i.segment_index == e.1
    &&& match (i.rendition_a, e.2) {
        (Some(a), Some(b)) => a@ == b,
        (None, None) => true,
        _ => false,
    }
    &&& i.rendition_b is None
    &&& match (i.uri_a, e.3) {
        (Some(a), Some(b)) => a@ == b,
        (None, None) => true,
        _ => false,
    }
    &&& i.uri_b is None
    &&& i.message@ == e.4
    &&& i.uri_note is None
    &&& i.count == 1
    &&& i.seg_first == -1
    &&& i.seg_last == -1
}

/// Whether `r` holds, in order, the findings `expected` of `check`.
pub open spec fn spec_findings_match(r: Seq<Issue>, check: CheckId, expected: Seq<Finding>) -> bool {
    &&& r.len() == expected.len()
    &&& forall|k: int| 0 <= k < r.len() ==> spec_finding_is(#[trigger] r[k], check, expected[k])
}

pub proof fn lemma_findings_match_concat(a: Seq<Issue>, b: Seq<Issue>, check: CheckId, ea: Seq<Finding>, eb: Seq<Finding>)
    requires
        spec_findings_match(a, check, ea),
        spec_findings_match(b, check, eb),
    ensures
        spec_findings_match(a + b, check, ea + eb),
{
    assert forall|k: int| 0 <= k < (a + b).len() implies spec_finding_is(#[trigger] (a + b)[k], check, (ea + eb)[k]) by {
        if k >= a.len() {
            assert((a + b)[k] == b[k - a.len()]);
            assert((ea + eb)[k] == eb[k - ea.len()]);
        }
    }
}

pub fn located_finding(
    check: CheckId,
    severity: Severity,
    segment_index: i32,
    rendition: Option<String>,
    uri: Option<String>,
    message: String,
) -> (r: Issue)
    ensures
        spec_finding_is(
            r,
            check,
            (
                severity,
                segment_index as int,
                match rendition {
                    Some(s) => Some(s@),
                    None => None,
                },
                match uri {
                    Some(s) => Some(s@),
                    None => None,
                },
                message@,
            ),
        ),
{
    Issue {
        severity,
        check_id: check,
        confidence: Confidence::Measured,
        segment_index,
        rendition_a: rendition,
        rendition_b: None,
        uri_a: uri,
        uri_b: None,
        message,
        uri_note: None,
        count: 1,
        seg_first: -1,
        seg_last: -1,
    }
}

/// Whether a playlist leaves EXT-X-MEDIA-SEQUENCE out: its sequence number is 0 and
/// its text has no such tag.
pub open spec fn spec_sequence_tag_absent(pl: PlaylistFacts) -> bool {
    pl.media_sequence == 0 && !spec_contains(pl.raw_content@, "#EXT-X-MEDIA-SEQUENCE:"@)
}

/// The findings on a playlist that leaves EXT-X-MEDIA-SEQUENCE out: a live playlist of
/// more than one segment should declare it, and a first segment whose URI carries a
/// sequence number other than 0 contradicts the implied base of 0.
pub open spec fn spec_absent_tag_findings(pl: PlaylistFacts) -> Seq<Finding> {
    let name = pl.name@;
    if !spec_sequence_tag_absent(pl) {
        Seq::empty()
    } else {
        (if !pl.has_endlist && pl.segments@.len() > 1 {
            seq![(
                Severity::Warn,
                -1int,
                None::<Seq<char>>,
                None::<Seq<char>>,
                "rfc8216bis §4.4.3.2: Live playlist '"@ + name
                    + "' does not declare EXT-X-MEDIA-SEQUENCE. For live playlists the tag SHOULD be present so clients can track the sliding window."@,
            )]
        } else {
            Seq::empty()
        }) + match spec_msn_of_uri(pl.segments@[0].uri@) {
            Some(m) if m != 0 => seq![(
                Severity::Error,
                0int,
                Some(name),
                Some(pl.segments@[0].uri@),
                "rfc8216bis §4.4.3.2: EXT-X-MEDIA-SEQUENCE absent from '"@ + name
                    + "' but first segment URI implies MSN="@ + spec_decimal(m as nat)
                    + ". Add EXT-X-MEDIA-SEQUENCE to declare the correct base MSN."@,
            )],
            _ => Seq::empty(),
        }
    }
}

fn absent_tag_findings(pl: &PlaylistFacts) -> (r: Vec<Issue>)
    requires
        pl.segments@.len() > 0,
    ensures
        spec_findings_match(r@, CheckId::MediaSequenceTags, spec_absent_tag_findings(*pl)),
{
    let mut issues: Vec<Issue> = Vec::new();
    if !(pl.media_sequence == 0 && !contains(pl.raw_content.as_str(), "#EXT-X-MEDIA-SEQUENCE:")) {
        return issues;
    }
    if !pl.has_endlist && pl.segments.len() > 1 {
        let mut message = String::from_str("rfc8216bis §4.4.3.2: Live playlist '");
        push_str(&mut message, pl.name.as_str());
        push_str(
            &mut message,
            "' does not declare EXT-X-MEDIA-SEQUENCE. For live playlists the tag SHOULD be present so clients can track the sliding window.",
        );
        issues.push(located_finding(CheckId::MediaSequenceTags, Severity::Warn, -1, None, None, message));
    }
    let ghost first = issues@;
    let first_uri = pl.segments[0].uri.as_str();
    if let Some(m) = extract_msn_from_uri(first_uri) {
        if m != 0 {
            let mut message = String::from_str("rfc8216bis §4.4.3.2: EXT-X-MEDIA-SEQUENCE absent from '");
            push_str(&mut message, pl.name.as_str());
            push_str(&mut message, "' but first segment URI implies MSN=");
            push_decimal(&mut message, m);
            push_str(&mut message, ". Add EXT-X-MEDIA-SEQUENCE to declare the correct base MSN.");
            issues.push(located_finding(CheckId::MediaSequenceTags, Severity::Error, 0, Some(pl.name.clone()), Some(first_uri.to_string()), message));
        }
    }
    proof {
        assert(spec_findings_match(issues@, CheckId::MediaSequenceTags, spec_absent_tag_findings(*pl)));
    }
    issues
}

/// Scans the lines of `content` from position `i`, the line there being number `line`:
/// the number of the first line that begins with EXT-X-MEDIA-SEQUENCE and of the first
/// line that names a segment (not a tag, not empty, right after an EXTINF line), each
/// trimmed, on top of those already found.
pub open spec fn spec_sequence_lines_from(
    content: Seq<char>,
    i: int,
    line: nat,
    after_extinf: bool,
    tag_line: Option<nat>,
    seg_line: Option<nat>,
) -> (Option<nat>, Option<nat>)
    decreases content.len() + 1 - i,
{
    if i < 0 || i > content.len() {
        (tag_line, seg_line)
    } else {
        let j = spec_find_from(content, '\n', i);
        proof {
            lemma_find_from_bounds(content, '\n', i);
        }
        let l = spec_trim(content.subrange(i, j));
        let tag2 = if tag_line is None && spec_starts_with(l, "#EXT-X-MEDIA-SEQUENCE:"@) { Some(line) } else { tag_line };
        let seg2 = if after_extinf && !spec_starts_with(l, "#"@) && l.len() > 0 && seg_line is None {
            Some(line)
        } else {
            seg_line
        };
        if j < content.len() {
            spec_sequence_lines_from(content, j + 1, line + 1, spec_starts_with(l, "#EXTINF:"@), tag2, seg2)
        } else {
            (tag2, seg2)
        }
    }
}

/// A line number, where there is one, as a natural number.
pub open spec fn spec_line_number(o: Option<usize>) -> Option<nat> {
    match o {
        Some(v) => Some(v as nat),
        None => None,
    }
}

fn sequence_lines(content: &str) -> (r: (Option<usize>, Option<usize>))
    ensures
        ({
            let s = spec_sequence_lines_from(content@, 0, 0, false, None, None);
            &&& match (r.0, s.0) {
                (Some(a), Some(b)) => a == b && a < usize::MAX,
                (None, None) => true,
                _ => false,
            }
            &&& match (r.1, s.1) {
                (Some(a), Some(b)) => a == b && a < usize::MAX,
                (None, None) => true,
                _ => false,
            }
        }),
{
    let n = content.unicode_len();
    let mut i: usize = 0;
    let mut line: usize = 0;
    let mut after_extinf = false;
    let mut tag_line: Option<usize> = None;
    let mut seg_line: Option<usize> = None;
    while i <= n
        invariant
            n == content@.len(),
            line <= i,
            tag_line matches Some(t) ==> t < i && t < n,
            seg_line matches Some(t) ==> t < i && t < n,
            spec_sequence_lines_from(content@, i as int, line as nat, after_extinf, spec_line_number(tag_line), spec_line_number(seg_line))
                == spec_sequence_lines_from(content@, 0, 0, false, None, None),
        decreases n + 1 - i,
    {
        let j = find_from(content, '\n', i);
        proof {
            lemma_find_from_bounds(content@, '\n', i as int);
        }
        let raw = content.substring_char(i, j);
        let l = trim(raw);
        proof {
            lemma_trim_len(raw@);
            reveal_strlit("#");
            reveal_strlit("#EXT-X-MEDIA-SEQUENCE:");
        }
        let ghost old_tag = spec_line_number(tag_line);
        let ghost old_seg = spec_line_number(seg_line);
        let ghost old_after = after_extinf;
        if tag_line.is_none() && starts_with(l, "#EXT-X-MEDIA-SEQUENCE:") {
            tag_line = Some(line);
        }
        if after_extinf && !starts_with(l, "#") && l.unicode_len() > 0 && seg_line.is_none() {
            seg_line = Some(line);
        }
        after_extinf = starts_with(l, "#EXTINF:");
        proof {
            let tag2 = if old_tag is None && spec_starts_with(l@, "#EXT-X-MEDIA-SEQUENCE:"@) {
                Some(line as nat)
            } else {
                old_tag
            };
            let seg2 = if old_after && !spec_starts_with(l@, "#"@) && l@.len() > 0 && old_seg is None {
                Some(line as nat)
            } else {
                old_seg
            };
            assert(spec_line_number(tag_line) == tag2);
            assert(spec_line_number(seg_line) == seg2);
            assert(l@ == spec_trim(content@.subrange(i as int, j as int)));
        }
        if j >= n {
            return (tag_line, seg_line);
        }
        i = j + 1;
        line = line + 1;
    }
    (tag_line, seg_line)
}

/// The finding on a playlist whose EXT-X-MEDIA-SEQUENCE comes after its first segment.
pub open spec fn spec_tag_order_findings(pl: PlaylistFacts) -> Seq<Finding> {
    match spec_sequence_lines_from(pl.raw_content@, 0, 0, false, None, None) {
        (Some(t), Some(g)) if t > g => seq![(
            Severity::Error,
            -1int,
            Some(pl.name@),
            None::<Seq<char>>,
            "rfc8216bis §4.4.3.2: EXT-X-MEDIA-SEQUENCE MUST appear before the first Media Segment URI in '"@
                + pl.name@ + "' (tag at line "@ + spec_decimal((t + 1) as nat) + ", first segment at line "@
                + spec_decimal((g + 1) as nat) + ")."@,
        )],
        _ => Seq::empty(),
    }
}

fn tag_order_findings(pl: &PlaylistFacts) -> (r: Vec<Issue>)
    ensures
        spec_findings_match(r@, CheckId::MediaSequenceTags, spec_tag_order_findings(*pl)),
{
    let mut issues: Vec<Issue> = Vec::new();
    let (tag_line, seg_line) = sequence_lines(pl.raw_content.as_str());
    if let (Some(t), Some(g)) = (tag_line, seg_line) {
        if t > g {
            let mut message = String::from_str(
                "rfc8216bis §4.4.3.2: EXT-X-MEDIA-SEQUENCE MUST appear before the first Media Segment URI in '",
            );
            push_str(&mut message, pl.name.as_str());
            push_str(&mut message, "' (tag at line ");
            push_decimal(&mut message, (t + 1) as u64);
            push_str(&mut message, ", first segment at line ");
            push_decimal(&mut message, (g + 1) as u64);
            push_str(&mut message, ").");
            issues.push(located_finding(CheckId::MediaSequenceTags, Severity::Error, -1, Some(pl.name.clone()), None, message));
        }
    }
    issues
}

/// Whether the sequence numbers of a playlist's segments fit in 64 bits.
pub open spec fn spec_sequence_in_range(pl: PlaylistFacts) -> bool {
    pl.segments@.len() > 0 ==> pl.media_sequence + pl.skipped_segments + pl.segments@.len() - 1 <= u64::MAX
}

/// The findings on the first `n` segments whose URI carries a sequence number other than
/// the one its place implies (the declared base, plus the segments a delta update
/// skipped, plus its index).
pub open spec fn spec_uri_sequence_findings(pl: PlaylistFacts, n: int) -> Seq<Finding>
    decreases n,
{
    if n <= 0 {
        Seq::empty()
    } else {
        let rest = spec_uri_sequence_findings(pl, n - 1);
        let idx = n - 1;
        let seg = pl.segments@[idx];
        let expected = pl.media_sequence + pl.skipped_segments + idx;
        match spec_msn_of_uri(seg.uri@) {
            Some(a) if a != expected => rest.push((
                Severity::Warn,
                (idx as i32) as int,
                Some(pl.name@),
                Some(seg.uri@),
                "rfc8216bis §4.4.3.2: Segment MSN mismatch in '"@ + pl.name@ + "' at index "@ + spec_decimal(idx as nat)
                    + ": URI implies MSN="@ + spec_decimal(a as nat) + " but expected MSN="@ + spec_decimal(expected as nat)
                    + " (base="@ + spec_decimal(pl.media_sequence as nat) + ", skipped="@
                    + spec_decimal(pl.skipped_segments as nat) + ", index="@ + spec_decimal(idx as nat) + ")."@,
            )),
            _ => rest,
        }
    }
}

fn uri_sequence_findings(pl: &PlaylistFacts) -> (r: Vec<Issue>)
    requires
        spec_sequence_in_range(*pl),
    ensures
        spec_findings_match(r@, CheckId::MediaSequenceTags, spec_uri_sequence_findings(*pl, pl.segments@.len() as int)),
{
    let mut issues: Vec<Issue> = Vec::new();
    let mut idx: usize = 0;
    while idx < pl.segments.len()
        invariant
            idx <= pl.segments@.len(),
            spec_sequence_in_range(*pl),
            spec_findings_match(issues@, CheckId::MediaSequenceTags, spec_uri_sequence_findings(*pl, idx as int)),
        decreases pl.segments.len() - idx,
    {
        let seg = &pl.segments[idx];
        let expected = pl.media_sequence + pl.skipped_segments + idx as u64;
        if let Some(actual) = extract_msn_from_uri(seg.uri.as_str()) {
            if actual != expected {
                let mut message = String::from_str("rfc8216bis §4.4.3.2: Segment MSN mismatch in '");
                push_str(&mut message, pl.name.as_str());
                push_str(&mut message, "' at index ");
                push_decimal(&mut message, idx as u64);
                push_str(&mut message, ": URI implies MSN=");
                push_decimal(&mut message, actual);
                push_str(&mut message, " but expected MSN=");
                push_decimal(&mut message, expected);
                push_str(&mut message, " (base=");
                push_decimal(&mut message, pl.media_sequence);
                push_str(&mut message, ", skipped=");
                push_decimal(&mut message, pl.skipped_segments);
                push_str(&mut message, ", index=");
                push_decimal(&mut message, idx as u64);
                push_str(&mut message, ").");
                issues.push(
                    located_finding(CheckId::MediaSequenceTags, Severity::Warn, idx as i32, Some(pl.name.clone()), Some(seg.uri.clone()), message),
                );
            }
        }
        idx = idx + 1;
    }
    issues
}

/// The media sequence rule's findings on one playlist: none for a playlist without
/// segments; otherwise those on a missing tag, on its place, and on the URIs.
pub open spec fn spec_sequence_pl_findings(pl: PlaylistFacts) -> Seq<Finding> {
    if pl.segments@.len() == 0 {
        Seq::empty()
    } else {
        spec_absent_tag_findings(pl) + spec_tag_order_findings(pl) + spec_uri_sequence_findings(pl, pl.segments@.len() as int)
    }
}

/// The media sequence rule's findings on the first `n` playlists.
pub open spec fn spec_sequence_findings(pls: Seq<PlaylistFacts>, n: int) -> Seq<Finding>
    decreases n,
{
    if n <= 0 {
        Seq::empty()
    } else {
        spec_sequence_findings(pls, n - 1) + spec_sequence_pl_findings(pls[n - 1])
    }
}

/// RFC 8216bis §4.4.3.2: EXT-X-MEDIA-SEQUENCE is present (a live playlist should declare
/// it), comes before the first segment, and agrees with the sequence numbers that segment
/// URIs carry (see `extract_msn_from_uri`).
pub fn check_media_sequence_continuity(playlists: &[PlaylistFacts]) -> (r: Vec<Issue>)
    requires
        forall|i: int| 0 <= i < playlists@.len() ==> spec_sequence_in_range(#[trigger] playlists@[i]),
    ensures
        spec_findings_match(r@, CheckId::MediaSequenceTags, spec_sequence_findings(playlists@, playlists@.len() as int)),
{
    let mut issues: Vec<Issue> = Vec::new();
    let mut i: usize = 0;
    while i < playlists.len()
        invariant
            i <= playlists@.len(),
            forall|k: int| 0 <= k < playlists@.len() ==> spec_sequence_in_range(#[trigger] playlists@[k]),
            spec_findings_match(issues@, CheckId::MediaSequenceTags, spec_sequence_findings(playlists@, i as int)),
        decreases playlists.len() - i,
    {
        let pl = &playlists[i];
        if pl.segments.len() > 0 {
            let mut a = absent_tag_findings(pl);
            let mut b = tag_order_findings(pl);
            let mut c = uri_sequence_findings(pl);
            proof {
                let ghost e = spec_sequence_findings(playlists@, i as int);
                lemma_findings_match_concat(issues@, a@, CheckId::MediaSequenceTags, e, spec_absent_tag_findings(*pl));
                lemma_findings_match_concat(issues@ + a@, b@, CheckId::MediaSequenceTags, e + spec_absent_tag_findings(*pl), spec_tag_order_findings(*pl));
                lemma_findings_match_concat(
                    issues@ + a@ + b@,
                    c@,
                    CheckId::MediaSequenceTags,
                    e + spec_absent_tag_findings(*pl) + spec_tag_order_findings(*pl),
                    spec_uri_sequence_findings(*pl, pl.segments@.len() as int),
                );
                assert(e + spec_absent_tag_findings(*pl) + spec_tag_order_findings(*pl) + spec_uri_sequence_findings(
                    *pl,
                    pl.segments@.len() as int,
                ) =~= spec_sequence_findings(playlists@, i + 1));
            }
            issues.append(&mut a);
            issues.append(&mut b);
            issues.append(&mut c);
        } else {
            proof {
                assert(spec_sequence_findings(playlists@, i + 1) =~= spec_sequence_findings(playlists@, i as int));
            }
        }
        i = i + 1;
    }
    issues
}


/// What `{:?}` writes of a string: the text in double quotes, escaped.
pub uninterp spec fn spec_debug_str(s: Seq<char>) -> Seq<char>;

/// `format!("{:?}", s)` on a string slice: the result is named, as a function of the text
/// alone; the quoting and escaping it applies is not stated.
#[verifier::external_body]
fn debug_str(s: &str) -> (r: String)
    ensures
        r@ == spec_debug_str(s@),
{
    format!("{:?}", s)
}

/// The Debug forms of the first `n` texts, joined by `, `: what `{:?}` writes between the
/// brackets of a list or the braces of a set.
pub open spec fn spec_debug_items(v: Seq<Seq<char>>, n: int) -> Seq<char>
    decreases n,
{
    if n <= 0 {
        Seq::empty()
    } else if n == 1 {
        spec_debug_str(v[0])
    } else {
        spec_debug_items(v, n - 1) + ", "@ + spec_debug_str(v[n - 1])
    }
}

fn debug_items(v: &Vec<String>) -> (r: String)
    ensures
        r@ == spec_debug_items(v@.map_values(|x: String| x@), v@.len() as int),
{
    let ghost t = v@.map_values(|x: String| x@);
    let mut out = String::new();
    let mut i: usize = 0;
    while i < v.len()
        invariant
            i <= v@.len(),
            t == v@.map_values(|x: String| x@),
            out@ == spec_debug_items(t, i as int),
        decreases v.len() - i,
    {
        if i > 0 {
            push_str(&mut out, ", ");
        } else {
            proof {
                assert(out@ =~= Seq::<char>::empty());
            }
        }
        let d = debug_str(v[i].as_str());
        proof {
            assert(t[i as int] == v@[i as int]@);
        }
        push_str(&mut out, d.as_str());
        i = i + 1;
    }
    out
}

fn list_contains(v: &Vec<String>, x: &str) -> (r: bool)
    ensures
        r == v@.map_values(|s: String| s@).contains(x@),
{
    let ghost t = v@.map_values(|s: String| s@);
    let mut i: usize = 0;
    while i < v.len()
        invariant
            i <= v@.len(),
            t == v@.map_values(|s: String| s@),
            forall|j: int| 0 <= j < i ==> t[j] != x@,
        decreases v.len() - i,
    {
        if str_equals_text(v[i].as_str(), x) {
            proof {
                assert(t[i as int] == x@);
            }
            return true;
        }
        i = i + 1;
    }
    false
}

/// Adds `x` to `v` unless `v` already holds it.
fn push_distinct(v: &mut Vec<String>, x: &str)
    ensures
        final(v)@.map_values(|s: String| s@) == (if old(v)@.map_values(|s: String| s@).contains(x@) {
            old(v)@.map_values(|s: String| s@)
        } else {
            old(v)@.map_values(|s: String| s@).push(x@)
        }),
{
    if !list_contains(v, x) {
        let ghost before = v@.map_values(|s: String| s@);
        v.push(x.to_string());
        proof {
            assert(v@.map_values(|s: String| s@) =~= before.push(x@));
        }
    }
}

fn distinct(v: &Vec<String>) -> (r: Vec<String>)
    ensures
        r@.map_values(|s: String| s@) == spec_uniq(v@.map_values(|s: String| s@), v@.len() as int),
{
    let ghost t = v@.map_values(|s: String| s@);
    let mut out: Vec<String> = Vec::new();
    let mut i: usize = 0;
    proof {
        assert(out@.map_values(|s: String| s@) =~= Seq::<Seq<char>>::empty());
    }
    while i < v.len()
        invariant
            i <= v@.len(),
            t == v@.map_values(|s: String| s@),
            out@.map_values(|s: String| s@) == spec_uniq(t, i as int),
        decreases v.len() - i,
    {
        proof {
            assert(t[i as int] == v@[i as int]@);
        }
        push_distinct(&mut out, v[i].as_str());
        i = i + 1;
    }
    out
}

/// The texts of a playlist's encryption methods.
pub open spec fn spec_methods(pl: PlaylistFacts) -> Seq<Seq<char>> {
    let t = pl.encryption_methods@.map_values(|s: String| s@);
    spec_uniq(t, t.len() as int)
}

/// Whether playlist `i` is the last of `pls` with its name: the one the rule reads for
/// that name.
pub open spec fn spec_last_of_name(pls: Seq<PlaylistFacts>, i: int) -> bool {
    forall|j: int| i < j < pls.len() ==> #[trigger] pls[j].name@ != pls[i].name@
}

/// The playlists the encryption rule reads, among the first `n`: those that declare a
/// method, one per name (the last with it).
pub open spec fn spec_encrypted(pls: Seq<PlaylistFacts>, n: int) -> Seq<PlaylistFacts>
    decreases n,
{
    if n <= 0 {
        Seq::empty()
    } else if spec_methods(pls[n - 1]).len() > 0 && spec_last_of_name(pls, n - 1) {
        spec_encrypted(pls, n - 1).push(pls[n - 1])
    } else {
        spec_encrypted(pls, n - 1)
    }
}

/// Whether a playlist's methods are an expected mix: AES-128 or SAMPLE-AES with NONE.
pub open spec fn spec_normal_mix(m: Seq<Seq<char>>) -> bool {
    m.len() == 2 && m.contains("NONE"@) && (m.contains("AES-128"@) || m.contains("SAMPLE-AES"@))
}

/// The warnings on the first `n` of `es` that mix methods other than as expected.
pub open spec fn spec_mixed_findings(es: Seq<PlaylistFacts>, n: int) -> Seq<Finding>
    decreases n,
{
    if n <= 0 {
        Seq::empty()
    } else {
        let m = spec_methods(es[n - 1]);
        let rest = spec_mixed_findings(es, n - 1);
        if m.len() > 1 && !spec_normal_mix(m) {
            rest.push((
                Severity::Warn,
                -1int,
                None::<Seq<char>>,
                None::<Seq<char>>,
                "RFC 8216bis §4.4.4.4: Playlist '"@ + es[n - 1].name@ + "' uses multiple encryption methods: ["@
                    + spec_debug_items(m, m.len() as int) + "]."@,
            ))
        } else {
            rest
        }
    }
}

/// The methods the renditions use, over the first `n` of `es`, in the order first seen:
/// NONE only where it is a playlist's one method.
pub open spec fn spec_used_methods(es: Seq<PlaylistFacts>, n: int) -> Seq<Seq<char>>
    decreases n,
{
    if n <= 0 {
        Seq::empty()
    } else {
        let m = spec_methods(es[n - 1]);
        spec_add_methods(spec_used_methods(es, n - 1), m, m.len() as int)
    }
}

/// `acc` with the first `k` of `m` added once each, NONE only where `m` holds one method.
pub open spec fn spec_add_methods(acc: Seq<Seq<char>>, m: Seq<Seq<char>>, k: int) -> Seq<Seq<char>>
    decreases k,
{
    if k <= 0 {
        acc
    } else {
        let before = spec_add_methods(acc, m, k - 1);
        let x = m[k - 1];
        if (x != "NONE"@ || m.len() == 1) && !before.contains(x) {
            before.push(x)
        } else {
            before
        }
    }
}

/// The encryption rule's findings: warnings on playlists that mix methods unexpectedly,
/// then one error where the renditions use more than one method.
pub open spec fn spec_encryption_findings(pls: Seq<PlaylistFacts>) -> Seq<Finding> {
    let es = spec_encrypted(pls, pls.len() as int);
    let used = spec_used_methods(es, es.len() as int);
    spec_mixed_findings(es, es.len() as int) + if used.len() > 1 {
        seq![(
            Severity::Error,
            -1int,
            None::<Seq<char>>,
            None::<Seq<char>>,
            "RFC 8216bis §6.2.4: Renditions use inconsistent encryption methods: {"@ + spec_debug_items(used, used.len() as int)
                + "}. All renditions SHOULD use the same encryption method."@,
        )]
    } else {
        Seq::empty()
    }
}

/// RFC 8216bis §4.4.4.4, §6.2.4: a playlist mixes encryption methods only as AES-128 or
/// SAMPLE-AES with NONE, and all renditions use one method. Each playlist name is read
/// once, the last playlist with it; methods are listed in the order first declared.
pub fn check_encryption_consistency(playlists: &[PlaylistFacts]) -> (r: Vec<Issue>)
    ensures
        spec_findings_match(r@, CheckId::EncryptionConsistency, spec_encryption_findings(playlists@)),
{
    let ghost pls = playlists@;
    let mut chosen: Vec<(&String, Vec<String>)> = Vec::new();
    let mut i: usize = 0;
    while i < playlists.len()
        invariant
            i <= pls.len(),
            pls == playlists@,
            chosen@.len() == spec_encrypted(pls, i as int).len(),
            forall|k: int| 0 <= k < chosen@.len() ==> {
                let e = #[trigger] spec_encrypted(pls, i as int)[k];
                &&& chosen@[k].0@ == e.name@
                &&& chosen@[k].1@.map_values(|s: String| s@) == spec_methods(e)
            },
        decreases playlists.len() - i,
    {
        let pl = &playlists[i];
        let methods = distinct(&pl.encryption_methods);
        let mut last = true;
        let mut j: usize = i + 1;
        while j < playlists.len()
            invariant
                i < j <= pls.len(),
                pls == playlists@,
                *pl == pls[i as int],
                last == (forall|x: int| i < x < j ==> #[trigger] pls[x].name@ != pls[i as int].name@),
            decreases playlists.len() - j,
        {
            if str_equals_text(playlists[j].name.as_str(), pl.name.as_str()) {
                last = false;
            }
            j = j + 1;
        }
        proof {
            assert(methods@.map_values(|s: String| s@).len() == methods@.len());
        }
        if methods.len() > 0 && last {
            chosen.push((&pl.name, methods));
        }
        i = i + 1;
    }
    let ghost es = spec_encrypted(pls, pls.len() as int);
    let mut issues: Vec<Issue> = Vec::new();
    let mut used: Vec<String> = Vec::new();
    let mut k: usize = 0;
    proof {
        assert(used@.map_values(|s: String| s@) =~= Seq::<Seq<char>>::empty());
    }
    while k < chosen.len()
        invariant
            k <= chosen@.len(),
            chosen@.len() == es.len(),
            forall|x: int| 0 <= x < chosen@.len() ==> {
                let e = #[trigger] es[x];
                &&& chosen@[x].0@ == e.name@
                &&& chosen@[x].1@.map_values(|s: String| s@) == spec_methods(e)
            },
            spec_findings_match(issues@, CheckId::EncryptionConsistency, spec_mixed_findings(es, k as int)),
            used@.map_values(|s: String| s@) == spec_used_methods(es, k as int),
        decreases chosen.len() - k,
    {
        let name = chosen[k].0;
        let methods = &chosen[k].1;
        let ghost m = spec_methods(es[k as int]);
        proof {
            assert(chosen@[k as int].1@.map_values(|s: String| s@) == m);
            assert(methods@.len() == m.len());
        }
        let has_none = list_contains(methods, "NONE");
        let has_aes = list_contains(methods, "AES-128");
        let has_sample = list_contains(methods, "SAMPLE-AES");
        let normal = methods.len() == 2 && has_none && (has_aes || has_sample);
        if methods.len() > 1 && !normal {
            let mut message = String::from_str("RFC 8216bis §4.4.4.4: Playlist '");
            push_str(&mut message, name.as_str());
            push_str(&mut message, "' uses multiple encryption methods: [");
            let items = debug_items(methods);
            push_str(&mut message, items.as_str());
            push_str(&mut message, "].");
            let issue = located_finding(CheckId::EncryptionConsistency, Severity::Warn, -1, None, None, message);
            let ghost before = issues@;
            proof {
                let f = spec_mixed_findings(es, k + 1);
                assert(f == spec_mixed_findings(es, k as int) + seq![f.last()]);
                lemma_findings_match_concat(before, seq![issue], CheckId::EncryptionConsistency, spec_mixed_findings(es, k as int), seq![f.last()]);
            }
            issues.push(issue);
            proof {
                assert(issues@ =~= before + seq![issue]);
            }
        }
        let single = methods.len() == 1;
        let mut q: usize = 0;
        let ghost acc = used@.map_values(|s: String| s@);
        while q < methods.len()
            invariant
                q <= methods@.len(),
                methods@.map_values(|s: String| s@) == m,
                single == (m.len() == 1),
                used@.map_values(|s: String| s@) == spec_add_methods(acc, m, q as int),
            decreases methods.len() - q,
        {
            let x = methods[q].as_str();
            proof {
                assert(m[q as int] == x@);
                reveal_strlit("NONE");
            }
            if !str_equals_text(x, "NONE") || single {
                push_distinct(&mut used, x);
            }
            q = q + 1;
        }
        k = k + 1;
    }
    let ghost used_all = spec_used_methods(es, es.len() as int);
    if used.len() > 1 {
        let mut message = String::from_str("RFC 8216bis §6.2.4: Renditions use inconsistent encryption methods: {");
        let items = debug_items(&used);
        push_str(&mut message, items.as_str());
        push_str(&mut message, "}. All renditions SHOULD use the same encryption method.");
        let issue = located_finding(CheckId::EncryptionConsistency, Severity::Error, -1, None, None, message);
        let ghost before = issues@;
        proof {
            assert(used@.map_values(|s: String| s@).len() == used@.len());
            let tail = seq![(
                Severity::Error,
                -1int,
                None::<Seq<char>>,
                None::<Seq<char>>,
                "RFC 8216bis §6.2.4: Renditions use inconsistent encryption methods: {"@ + spec_debug_items(
                    used_all,
                    used_all.len() as int,
                ) + "}. All renditions SHOULD use the same encryption method."@,
            )];
            lemma_findings_match_concat(before, seq![issue], CheckId::EncryptionConsistency, spec_mixed_findings(es, es.len() as int), tail);
        }
        issues.push(issue);
        proof {
            assert(issues@ =~= before + seq![issue]);
        }
    } else {
        proof {
            assert(used@.map_values(|s: String| s@).len() == used@.len());
            assert(spec_encryption_findings(pls) =~= spec_mixed_findings(es, es.len() as int));
        }
    }
    issues
}


/// The distinct values among the first `n` of `s`, in the order they first appear.
pub open spec fn spec_uniq<A>(s: Seq<A>, n: int) -> Seq<A>
    decreases n,
{
    if n <= 0 {
        Seq::empty()
    } else {
        let r = spec_uniq(s, n - 1);
        if r.contains(s[n - 1]) {
            r
        } else {
            r.push(s[n - 1])
        }
    }
}

/// The text of an optional string.
pub open spec fn spec_opt_view(o: Option<String>) -> Option<Seq<char>> {
    match o {
        Some(s) => Some(s@),
        None => None,
    }
}

/// An optional text as the report writes it: `(none)` where it is absent.
pub open spec fn spec_or_none(o: Option<Seq<char>>) -> Seq<char> {
    match o {
        Some(t) => t,
        None => "(none)"@,
    }
}

/// The variants among the first `n` that have URI `u`, in order.
pub open spec fn spec_with_uri(vs: Seq<VariantFacts>, u: Seq<char>, n: int) -> Seq<VariantFacts>
    decreases n,
{
    if n <= 0 {
        Seq::empty()
    } else if vs[n - 1].uri@ == u {
        spec_with_uri(vs, u, n - 1).push(vs[n - 1])
    } else {
        spec_with_uri(vs, u, n - 1)
    }
}

/// The variants among the first `n` that name AUDIO group `g` (or none, for `None`).
pub open spec fn spec_with_group(vs: Seq<VariantFacts>, g: Option<Seq<char>>, n: int) -> Seq<VariantFacts>
    decreases n,
{
    if n <= 0 {
        Seq::empty()
    } else if spec_opt_view(vs[n - 1].audio_group) == g {
        spec_with_group(vs, g, n - 1).push(vs[n - 1])
    } else {
        spec_with_group(vs, g, n - 1)
    }
}

/// The video codec of a CODECS value: its first comma-separated entry, trimmed.
pub open spec fn spec_video_token(c: Seq<char>) -> Seq<char> {
    spec_trim(c.subrange(0, spec_find_from(c, ',', 0)))
}

/// The first `n` texts, joined by `, `.
pub open spec fn spec_joined(items: Seq<Seq<char>>, n: int) -> Seq<char>
    decreases n,
{
    if n <= 0 {
        Seq::empty()
    } else if n == 1 {
        items[0]
    } else {
        spec_joined(items, n - 1) + ", "@ + items[n - 1]
    }
}

/// How a variant's CODECS is listed.
pub open spec fn spec_codecs_item(v: VariantFacts) -> Seq<char> {
    "CODECS="@ + spec_or_none(spec_opt_view(v.codecs))
}

/// How a variant's AUDIO group and CODECS are listed.
pub open spec fn spec_audio_codecs_item(v: VariantFacts) -> Seq<char> {
    "AUDIO="@ + spec_or_none(spec_opt_view(v.audio_group)) + " CODECS="@ + spec_or_none(spec_opt_view(v.codecs))
}

/// How a variant's BANDWIDTH is listed.
pub open spec fn spec_bandwidth_item(v: VariantFacts) -> Seq<char> {
    "BANDWIDTH="@ + match v.bandwidth {
        Some(b) => spec_decimal(b as nat),
        None => "(none)"@,
    }
}

/// The CODECS finding on the variants `vs` that share URI `u`: where they share one
/// AUDIO group, their CODECS must match; where their AUDIO groups differ, their video
/// codecs must.
pub open spec fn spec_codecs_finding(u: Seq<char>, vs: Seq<VariantFacts>) -> Seq<Finding> {
    let groups_differ = exists|k: int| 0 <= k < vs.len() && spec_opt_view(#[trigger] vs[k].audio_group) != spec_opt_view(vs[0].audio_group);
    if !groups_differ {
        if exists|k: int| 0 <= k < vs.len() && spec_opt_view(#[trigger] vs[k].codecs) != spec_opt_view(vs[0].codecs) {
            seq![(
                Severity::Error,
                -1int,
                None::<Seq<char>>,
                Some(u),
                "RFC 8216bis §4.4.5.2: Multiple EXT-X-STREAM-INF tags share URI '"@ + u
                    + "' and the same AUDIO group but have different CODECS values: "@ + spec_joined(
                    vs.map_values(|v: VariantFacts| spec_codecs_item(v)),
                    vs.len() as int,
                ) + ". They MUST match."@,
            )]
        } else {
            Seq::empty()
        }
    } else if exists|j: int, k: int|
        0 <= j < vs.len() && 0 <= k < vs.len() && (#[trigger] vs[j].codecs) is Some && (#[trigger] vs[k].codecs) is Some
            && spec_video_token(vs[j].codecs->0@) != spec_video_token(vs[k].codecs->0@) {
        seq![(
            Severity::Error,
            -1int,
            None::<Seq<char>>,
            Some(u),
            "RFC 8216bis §4.4.5.2: Multiple EXT-X-STREAM-INF tags share URI '"@ + u
                + "' with different AUDIO groups but also have mismatched video codecs: "@ + spec_joined(
                vs.map_values(|v: VariantFacts| spec_audio_codecs_item(v)),
                vs.len() as int,
            ) + "."@,
        )]
    } else {
        Seq::empty()
    }
}

/// The BANDWIDTH findings on the first `m` of the AUDIO groups `groups` of the variants
/// `vs` that share URI `u`: within a group, BANDWIDTH must match.
pub open spec fn spec_bandwidth_group_findings(u: Seq<char>, vs: Seq<VariantFacts>, groups: Seq<Option<Seq<char>>>, m: int) -> Seq<Finding>
    decreases m,
{
    if m <= 0 {
        Seq::empty()
    } else {
        let g = groups[m - 1];
        let members = spec_with_group(vs, g, vs.len() as int);
        let rest = spec_bandwidth_group_findings(u, vs, groups, m - 1);
        if exists|k: int| 0 <= k < members.len() && (#[trigger] members[k]).bandwidth != members[0].bandwidth {
            rest.push((
                Severity::Error,
                -1int,
                None::<Seq<char>>,
                Some(u),
                "RFC 8216bis §4.4.5.2: Multiple EXT-X-STREAM-INF tags share URI '"@ + u + "' (AUDIO="@ + spec_or_none(g)
                    + ") but have different BANDWIDTH values: "@ + spec_joined(
                    members.map_values(|v: VariantFacts| spec_bandwidth_item(v)),
                    members.len() as int,
                ) + ". They MUST match."@,
            ))
        } else {
            rest
        }
    }
}

/// The AUDIO groups of `vs`, each once, in the order they first appear.
pub open spec fn spec_audio_groups(vs: Seq<VariantFacts>) -> Seq<Option<Seq<char>>> {
    spec_uniq(vs.map_values(|v: VariantFacts| spec_opt_view(v.audio_group)), vs.len() as int)
}

/// The findings on the variants `vs` that share URI `u`: none for a URI used once.
pub open spec fn spec_shared_uri_findings(u: Seq<char>, vs: Seq<VariantFacts>) -> Seq<Finding> {
    if vs.len() < 2 {
        Seq::empty()
    } else {
        spec_codecs_finding(u, vs) + spec_bandwidth_group_findings(u, vs, spec_audio_groups(vs), spec_audio_groups(vs).len() as int)
    }
}

/// The URIs of the variants, each once, in the order they first appear.
pub open spec fn spec_variant_uris(vs: Seq<VariantFacts>) -> Seq<Seq<char>> {
    spec_uniq(vs.map_values(|v: VariantFacts| v.uri@), vs.len() as int)
}

/// The findings on the first `n` of the variants' URIs.
pub open spec fn spec_codecs_attribute_findings(vs: Seq<VariantFacts>, n: int) -> Seq<Finding>
    decreases n,
{
    if n <= 0 {
        Seq::empty()
    } else {
        let u = spec_variant_uris(vs)[n - 1];
        spec_codecs_attribute_findings(vs, n - 1) + spec_shared_uri_findings(u, spec_with_uri(vs, u, vs.len() as int))
    }
}


/// The variants a list of references holds.
pub open spec fn spec_derefs(s: Seq<&VariantFacts>) -> Seq<VariantFacts> {
    s.map_values(|v: &VariantFacts| *v)
}

fn opt_text_eq(a: &Option<String>, b: &Option<String>) -> (r: bool)
    ensures
        r == (spec_opt_view(*a) == spec_opt_view(*b)),
{
    match (a, b) {
        (Some(x), Some(y)) => str_equals_text(x.as_str(), y.as_str()),
        (None, None) => true,
        _ => false,
    }
}

fn or_none(o: &Option<String>) -> (r: &str)
    ensures
        r@ == spec_or_none(spec_opt_view(*o)),
{
    match o {
        Some(t) => t.as_str(),
        None => "(none)",
    }
}

fn video_token(c: &str) -> (r: &str)
    ensures
        r@ == spec_video_token(c@),
{
    let j = find_from(c, ',', 0);
    proof {
        lemma_find_from_bounds(c@, ',', 0);
    }
    trim(c.substring_char(0, j))
}

/// The details list of a codecs finding: each variant's CODECS, or AUDIO group and
/// CODECS.
fn codecs_details(vs: &Vec<&VariantFacts>, with_audio: bool) -> (r: String)
    ensures
        r@ == (if with_audio {
            spec_joined(spec_derefs(vs@).map_values(|v: VariantFacts| spec_audio_codecs_item(v)), vs@.len() as int)
        } else {
            spec_joined(spec_derefs(vs@).map_values(|v: VariantFacts| spec_codecs_item(v)), vs@.len() as int)
        }),
{
    let ghost items = if with_audio {
        spec_derefs(vs@).map_values(|v: VariantFacts| spec_audio_codecs_item(v))
    } else {
        spec_derefs(vs@).map_values(|v: VariantFacts| spec_codecs_item(v))
    };
    let mut out = String::new();
    let mut k: usize = 0;
    while k < vs.len()
        invariant
            k <= vs@.len(),
            items == (if with_audio {
                spec_derefs(vs@).map_values(|v: VariantFacts| spec_audio_codecs_item(v))
            } else {
                spec_derefs(vs@).map_values(|v: VariantFacts| spec_codecs_item(v))
            }),
            out@ == spec_joined(items, k as int),
        decreases vs.len() - k,
    {
        if k > 0 {
            push_str(&mut out, ", ");
        } else {
            proof {
                assert(out@ =~= Seq::<char>::empty());
            }
        }
        let v = vs[k];
        if with_audio {
            push_str(&mut out, "AUDIO=");
            push_str(&mut out, or_none(&v.audio_group));
            push_str(&mut out, " CODECS=");
            push_str(&mut out, or_none(&v.codecs));
        } else {
            push_str(&mut out, "CODECS=");
            push_str(&mut out, or_none(&v.codecs));
        }
        k = k + 1;
    }
    out
}

fn bandwidth_details(vs: &Vec<&VariantFacts>) -> (r: String)
    ensures
        r@ == spec_joined(spec_derefs(vs@).map_values(|v: VariantFacts| spec_bandwidth_item(v)), vs@.len() as int),
{
    let ghost items = spec_derefs(vs@).map_values(|v: VariantFacts| spec_bandwidth_item(v));
    let mut out = String::new();
    let mut k: usize = 0;
    while k < vs.len()
        invariant
            k <= vs@.len(),
            items == spec_derefs(vs@).map_values(|v: VariantFacts| spec_bandwidth_item(v)),
            out@ == spec_joined(items, k as int),
        decreases vs.len() - k,
    {
        if k > 0 {
            push_str(&mut out, ", ");
        } else {
            proof {
                assert(out@ =~= Seq::<char>::empty());
            }
        }
        push_str(&mut out, "BANDWIDTH=");
        match vs[k].bandwidth {
            Some(b) => push_decimal(&mut out, b),
            None => push_str(&mut out, "(none)"),
        }
        k = k + 1;
    }
    out
}

fn codecs_finding(u: &str, vs: &Vec<&VariantFacts>) -> (r: Vec<Issue>)
    requires
        vs@.len() >= 2,
    ensures
        spec_findings_match(r@, CheckId::StreamInfConsistency, spec_codecs_finding(u@, spec_derefs(vs@))),
{
    let ghost sv = spec_derefs(vs@);
    let mut issues: Vec<Issue> = Vec::new();
    let mut groups_differ = false;
    let mut k: usize = 0;
    while k < vs.len()
        invariant
            k <= vs@.len(),
            vs@.len() >= 2,
            sv == spec_derefs(vs@),
            groups_differ == (exists|x: int| 0 <= x < k && spec_opt_view(#[trigger] sv[x].audio_group) != spec_opt_view(sv[0].audio_group)),
        decreases vs.len() - k,
    {
        proof {
            assert(sv[k as int] == *vs@[k as int]);
            assert(sv[0] == *vs@[0]);
        }
        if !opt_text_eq(&vs[k].audio_group, &vs[0].audio_group) {
            groups_differ = true;
        }
        k = k + 1;
    }
    if !groups_differ {
        let mut codecs_differ = false;
        let mut k: usize = 0;
        while k < vs.len()
            invariant
                k <= vs@.len(),
                vs@.len() >= 2,
                sv == spec_derefs(vs@),
                codecs_differ == (exists|x: int| 0 <= x < k && spec_opt_view(#[trigger] sv[x].codecs) != spec_opt_view(sv[0].codecs)),
            decreases vs.len() - k,
        {
            proof {
                assert(sv[k as int] == *vs@[k as int]);
                assert(sv[0] == *vs@[0]);
            }
            if !opt_text_eq(&vs[k].codecs, &vs[0].codecs) {
                codecs_differ = true;
            }
            k = k + 1;
        }
        if codecs_differ {
            let mut message = String::from_str("RFC 8216bis §4.4.5.2: Multiple EXT-X-STREAM-INF tags share URI '");
            push_str(&mut message, u);
            push_str(&mut message, "' and the same AUDIO group but have different CODECS values: ");
            let details = codecs_details(vs, false);
            push_str(&mut message, details.as_str());
            push_str(&mut message, ". They MUST match.");
            issues.push(located_finding(CheckId::StreamInfConsistency, Severity::Error, -1, None, Some(u.to_string()), message));
        }
    } else {
        let mut first: Option<&str> = None;
        let mut tokens_differ = false;
        let mut k: usize = 0;
        while k < vs.len()
            invariant
                k <= vs@.len(),
                sv == spec_derefs(vs@),
                first is None <==> (forall|x: int| 0 <= x < k ==> (#[trigger] sv[x].codecs) is None),
                first matches Some(f) ==> exists|x: int| 0 <= x < k && (#[trigger] sv[x].codecs) is Some && spec_video_token(sv[x].codecs->0@) == f@,
                !tokens_differ ==> (first matches Some(f) ==> forall|x: int| 0 <= x < k && (#[trigger] sv[x].codecs) is Some ==> spec_video_token(sv[x].codecs->0@) == f@),
                tokens_differ == (exists|j: int, x: int|
                    0 <= j < k && 0 <= x < k && (#[trigger] sv[j].codecs) is Some && (#[trigger] sv[x].codecs) is Some
                        && spec_video_token(sv[j].codecs->0@) != spec_video_token(sv[x].codecs->0@)),
            decreases vs.len() - k,
        {
            if let Some(c) = &vs[k].codecs {
                let t = video_token(c.as_str());
                match first {
                    None => {
                        first = Some(t);
                    },
                    Some(f) => {
                        if !str_equals_text(t, f) {
                            proof {
                                let x = choose|x: int| 0 <= x < k && (#[trigger] sv[x].codecs) is Some && spec_video_token(sv[x].codecs->0@) == f@;
                                assert(sv[k as int].codecs is Some && spec_video_token(sv[k as int].codecs->0@) == t@);
                                assert(sv[x].codecs is Some && sv[k as int].codecs is Some && spec_video_token(sv[x].codecs->0@) != spec_video_token(sv[k as int].codecs->0@));
                            }
                            tokens_differ = true;
                        }
                    },
                }
            }
            proof {
                if !tokens_differ {
                    assert forall|j: int, x: int|
                        0 <= j < k + 1 && 0 <= x < k + 1 && (#[trigger] sv[j].codecs) is Some && (#[trigger] sv[x].codecs) is Some implies spec_video_token(sv[j].codecs->0@) == spec_video_token(sv[x].codecs->0@) by {
                        let f = first->0;
                        assert(spec_video_token(sv[j].codecs->0@) == f@);
                        assert(spec_video_token(sv[x].codecs->0@) == f@);
                    }
                }
            }
            k = k + 1;
        }
        if tokens_differ {
            let mut message = String::from_str("RFC 8216bis §4.4.5.2: Multiple EXT-X-STREAM-INF tags share URI '");
            push_str(&mut message, u);
            push_str(&mut message, "' with different AUDIO groups but also have mismatched video codecs: ");
            let details = codecs_details(vs, true);
            push_str(&mut message, details.as_str());
            push_str(&mut message, ".");
            issues.push(located_finding(CheckId::StreamInfConsistency, Severity::Error, -1, None, Some(u.to_string()), message));
        }
    }
    issues
}


/// The texts of a list of optional strings.
pub open spec fn spec_opt_views(v: Seq<Option<String>>) -> Seq<Option<Seq<char>>> {
    v.map_values(|o: Option<String>| spec_opt_view(o))
}

fn audio_groups(vs: &Vec<&VariantFacts>) -> (r: Vec<Option<String>>)
    ensures
        spec_opt_views(r@) == spec_audio_groups(spec_derefs(vs@)),
{
    let ghost sv = spec_derefs(vs@);
    let ghost all = sv.map_values(|v: VariantFacts| spec_opt_view(v.audio_group));
    let mut out: Vec<Option<String>> = Vec::new();
    let mut k: usize = 0;
    proof {
        assert(spec_opt_views(out@) =~= Seq::<Option<Seq<char>>>::empty());
    }
    while k < vs.len()
        invariant
            k <= vs@.len(),
            sv == spec_derefs(vs@),
            all == sv.map_values(|v: VariantFacts| spec_opt_view(v.audio_group)),
            spec_opt_views(out@) == spec_uniq(all, k as int),
        decreases vs.len() - k,
    {
        let g = &vs[k].audio_group;
        proof {
            assert(sv[k as int] == *vs@[k as int]);
            assert(all[k as int] == spec_opt_view(*g));
        }
        let mut seen = false;
        let mut x: usize = 0;
        while x < out.len()
            invariant
                x <= out@.len(),
                seen == (exists|y: int| 0 <= y < x && spec_opt_view(#[trigger] out@[y]) == spec_opt_view(*g)),
            decreases out.len() - x,
        {
            if opt_text_eq(&out[x], g) {
                seen = true;
            }
            x = x + 1;
        }
        let ghost before = spec_opt_views(out@);
        proof {
            if seen {
                let y = choose|y: int| 0 <= y < out@.len() && spec_opt_view(#[trigger] out@[y]) == spec_opt_view(*g);
                assert(before[y] == spec_opt_view(*g));
            } else {
                assert forall|y: int| 0 <= y < before.len() implies before[y] != spec_opt_view(*g) by {
                    assert(before[y] == spec_opt_view(out@[y]));
                }
            }
        }
        if !seen {
            out.push(g.clone());
            proof {
                assert(spec_opt_views(out@) =~= before.push(spec_opt_view(*g)));
            }
        }
        k = k + 1;
    }
    out
}

fn bandwidth_group_findings(u: &str, vs: &Vec<&VariantFacts>) -> (r: Vec<Issue>)
    ensures
        ({
            let sv = spec_derefs(vs@);
            spec_findings_match(
                r@,
                CheckId::StreamInfConsistency,
                spec_bandwidth_group_findings(u@, sv, spec_audio_groups(sv), spec_audio_groups(sv).len() as int),
            )
        }),
{
    let ghost sv = spec_derefs(vs@);
    let groups = audio_groups(vs);
    let ghost gs = spec_audio_groups(sv);
    let mut issues: Vec<Issue> = Vec::new();
    let mut m: usize = 0;
    while m < groups.len()
        invariant
            m <= groups@.len(),
            sv == spec_derefs(vs@),
            gs == spec_audio_groups(sv),
            spec_opt_views(groups@) == gs,
            spec_findings_match(issues@, CheckId::StreamInfConsistency, spec_bandwidth_group_findings(u@, sv, gs, m as int)),
        decreases groups.len() - m,
    {
        let g = &groups[m];
        proof {
            assert(gs[m as int] == spec_opt_view(*g));
        }
        let mut members: Vec<&VariantFacts> = Vec::new();
        let mut k: usize = 0;
        proof {
            assert(spec_derefs(members@) =~= Seq::<VariantFacts>::empty());
        }
        while k < vs.len()
            invariant
                k <= vs@.len(),
                sv == spec_derefs(vs@),
                spec_derefs(members@) == spec_with_group(sv, spec_opt_view(*g), k as int),
            decreases vs.len() - k,
        {
            proof {
                assert(sv[k as int] == *vs@[k as int]);
            }
            if opt_text_eq(&vs[k].audio_group, g) {
                let ghost before = spec_derefs(members@);
                members.push(vs[k]);
                proof {
                    assert(spec_derefs(members@) =~= before.push(*vs@[k as int]));
                }
            }
            k = k + 1;
        }
        let ghost ms = spec_with_group(sv, spec_opt_view(*g), sv.len() as int);
        let mut differ = false;
        if members.len() > 0 {
            let mut k: usize = 0;
            while k < members.len()
                invariant
                    k <= members@.len(),
                    members@.len() > 0,
                    spec_derefs(members@) == ms,
                    differ == (exists|x: int| 0 <= x < k && (#[trigger] ms[x]).bandwidth != ms[0].bandwidth),
                decreases members.len() - k,
            {
                proof {
                    assert(ms[k as int] == *members@[k as int]);
                    assert(ms[0] == *members@[0]);
                }
                if members[k].bandwidth != members[0].bandwidth {
                    differ = true;
                }
                k = k + 1;
            }
        }
        if differ {
            let mut message = String::from_str("RFC 8216bis §4.4.5.2: Multiple EXT-X-STREAM-INF tags share URI '");
            push_str(&mut message, u);
            push_str(&mut message, "' (AUDIO=");
            push_str(&mut message, or_none(g));
            push_str(&mut message, ") but have different BANDWIDTH values: ");
            let details = bandwidth_details(&members);
            push_str(&mut message, details.as_str());
            push_str(&mut message, ". They MUST match.");
            let issue = located_finding(CheckId::StreamInfConsistency, Severity::Error, -1, None, Some(u.to_string()), message);
            let ghost before = issues@;
            proof {
                let f = spec_bandwidth_group_findings(u@, sv, gs, m + 1);
                assert(f == spec_bandwidth_group_findings(u@, sv, gs, m as int) + seq![f.last()]);
                lemma_findings_match_concat(
                    before,
                    seq![issue],
                    CheckId::StreamInfConsistency,
                    spec_bandwidth_group_findings(u@, sv, gs, m as int),
                    seq![f.last()],
                );
            }
            issues.push(issue);
            proof {
                assert(issues@ =~= before + seq![issue]);
            }
        }
        m = m + 1;
    }
    issues
}

/// RFC 8216bis §4.4.5.2: EXT-X-STREAM-INF tags that share a URI describe one stream. Where
/// they share an AUDIO group their CODECS must match, and where their AUDIO groups differ
/// (so CODECS legitimately names different audio) their video codecs must; within each
/// AUDIO group their BANDWIDTH must match. URIs, and AUDIO groups within one, are taken
/// in the order they first appear.
pub fn check_codecs_attribute(variants: &[VariantFacts]) -> (r: Vec<Issue>)
    ensures
        spec_findings_match(
            r@,
            CheckId::StreamInfConsistency,
            spec_codecs_attribute_findings(variants@, spec_variant_uris(variants@).len() as int),
        ),
{
    let ghost vs = variants@;
    let mut all_uris: Vec<String> = Vec::new();
    let mut k: usize = 0;
    while k < variants.len()
        invariant
            k <= vs.len(),
            vs == variants@,
            all_uris@.map_values(|s: String| s@) == vs.map_values(|v: VariantFacts| v.uri@).take(k as int),
        decreases variants.len() - k,
    {
        let ghost before = all_uris@.map_values(|s: String| s@);
        let copy = variants[k].uri.clone();
        assert(copy@ == vs[k as int].uri@);
        all_uris.push(copy);
        proof {
            let whole = vs.map_values(|v: VariantFacts| v.uri@);
            assert(all_uris@.map_values(|s: String| s@) =~= before.push(vs[k as int].uri@));
            assert(whole.take(k + 1) =~= whole.take(k as int).push(whole[k as int]));
        }
        k = k + 1;
    }
    proof {
        assert(vs.map_values(|v: VariantFacts| v.uri@).take(vs.len() as int) =~= vs.map_values(|v: VariantFacts| v.uri@));
    }
    let uris = distinct(&all_uris);
    let ghost us = spec_variant_uris(vs);
    let mut issues: Vec<Issue> = Vec::new();
    let mut n: usize = 0;
    while n < uris.len()
        invariant
            n <= uris@.len(),
            vs == variants@,
            us == spec_variant_uris(vs),
            uris@.map_values(|s: String| s@) == us,
            spec_findings_match(issues@, CheckId::StreamInfConsistency, spec_codecs_attribute_findings(vs, n as int)),
        decreases uris.len() - n,
    {
        let u = uris[n].as_str();
        proof {
            assert(us[n as int] == u@);
        }
        let mut shared: Vec<&VariantFacts> = Vec::new();
        let mut k: usize = 0;
        proof {
            assert(spec_derefs(shared@) =~= Seq::<VariantFacts>::empty());
        }
        while k < variants.len()
            invariant
                k <= vs.len(),
                vs == variants@,
                spec_derefs(shared@) == spec_with_uri(vs, u@, k as int),
            decreases variants.len() - k,
        {
            if str_equals_text(variants[k].uri.as_str(), u) {
                let ghost before = spec_derefs(shared@);
                shared.push(&variants[k]);
                proof {
                    assert(spec_derefs(shared@) =~= before.push(vs[k as int]));
                }
            }
            k = k + 1;
        }
        let ghost sv = spec_with_uri(vs, u@, vs.len() as int);
        if shared.len() >= 2 {
            let mut a = codecs_finding(u, &shared);
            let mut b = bandwidth_group_findings(u, &shared);
            proof {
                lemma_findings_match_concat(
                    issues@,
                    a@,
                    CheckId::StreamInfConsistency,
                    spec_codecs_attribute_findings(vs, n as int),
                    spec_codecs_finding(u@, sv),
                );
                lemma_findings_match_concat(
                    issues@ + a@,
                    b@,
                    CheckId::StreamInfConsistency,
                    spec_codecs_attribute_findings(vs, n as int) + spec_codecs_finding(u@, sv),
                    spec_bandwidth_group_findings(u@, sv, spec_audio_groups(sv), spec_audio_groups(sv).len() as int),
                );
                assert(spec_codecs_attribute_findings(vs, n as int) + spec_codecs_finding(u@, sv) + spec_bandwidth_group_findings(
                    u@,
                    sv,
                    spec_audio_groups(sv),
                    spec_audio_groups(sv).len() as int,
                ) =~= spec_codecs_attribute_findings(vs, n + 1));
            }
            issues.append(&mut a);
            issues.append(&mut b);
        } else {
            proof {
                assert(spec_codecs_attribute_findings(vs, n + 1) =~= spec_codecs_attribute_findings(vs, n as int));
            }
        }
        n = n + 1;
    }
    issues
}


/// `s` with `x` put before the first text it sorts before (at the end where there is
/// none).
pub open spec fn spec_insert_sorted(s: Seq<Seq<char>>, x: Seq<char>) -> Seq<Seq<char>>
    decreases s.len(),
{
    if s.len() == 0 {
        seq![x]
    } else if spec_lex_lt(x, s[0]) {
        seq![x] + s
    } else {
        seq![s[0]] + spec_insert_sorted(s.drop_first(), x)
    }
}

/// The first `n` texts of `s` in ascending order (each inserted in turn).
pub open spec fn spec_sorted(s: Seq<Seq<char>>, n: int) -> Seq<Seq<char>>
    decreases n,
{
    if n <= 0 {
        Seq::empty()
    } else {
        spec_insert_sorted(spec_sorted(s, n - 1), s[n - 1])
    }
}

proof fn lemma_insert_sorted_at(s: Seq<Seq<char>>, x: Seq<char>, p: int)
    requires
        0 <= p <= s.len(),
        forall|j: int| 0 <= j < p ==> !spec_lex_lt(x, #[trigger] s[j]),
        p < s.len() ==> spec_lex_lt(x, s[p]),
    ensures
        spec_insert_sorted(s, x) == s.insert(p, x),
    decreases s.len(),
{
    if s.len() == 0 {
        assert(s.insert(p, x) =~= seq![x]);
    } else if p == 0 {
        assert(s.insert(0, x) =~= seq![x] + s);
    } else {
        let t = s.drop_first();
        assert forall|j: int| 0 <= j < p - 1 implies !spec_lex_lt(x, #[trigger] t[j]) by {
            assert(t[j] == s[j + 1]);
        }
        if p < s.len() {
            assert(t[p - 1] == s[p]);
        }
        lemma_insert_sorted_at(t, x, p - 1);
        assert(seq![s[0]] + t.insert(p - 1, x) =~= s.insert(p, x));
    }
}

/// Puts `x` in the ascending list `v` before the first text it sorts before.
fn insert_sorted(v: &mut Vec<String>, x: String)
    ensures
        final(v)@.map_values(|s: String| s@) == spec_insert_sorted(old(v)@.map_values(|s: String| s@), x@),
{
    let ghost t = v@.map_values(|s: String| s@);
    let mut p: usize = 0;
    while p < v.len() && !str_lex_lt(x.as_str(), v[p].as_str())
        invariant
            p <= v@.len(),
            t == v@.map_values(|s: String| s@),
            forall|j: int| 0 <= j < p ==> !spec_lex_lt(x@, #[trigger] t[j]),
        decreases v.len() - p,
    {
        p = p + 1;
    }
    proof {
        if p < v@.len() {
            assert(t[p as int] == v@[p as int]@);
        }
        lemma_insert_sorted_at(t, x@, p as int);
    }
    let ghost xv = x@;
    v.insert(p, x);
    proof {
        assert(v@.map_values(|s: String| s@) =~= t.insert(p as int, xv));
    }
}

/// The renditions among the first `n` of media type `t`.
pub open spec fn spec_of_type(rs: Seq<MediaRendition>, t: Seq<char>, n: int) -> Seq<MediaRendition>
    decreases n,
{
    if n <= 0 {
        Seq::empty()
    } else if rs[n - 1].media_type@ == t {
        spec_of_type(rs, t, n - 1).push(rs[n - 1])
    } else {
        spec_of_type(rs, t, n - 1)
    }
}

/// Whether a rendition named `x` is a member of group `g` among `ts`.
pub open spec fn spec_member_of(ts: Seq<MediaRendition>, g: Seq<char>, x: Seq<char>) -> bool {
    exists|k: int| 0 <= k < ts.len() && (#[trigger] ts[k]).group_id@ == g && ts[k].name@ == x
}

/// The names among the first `n` of `ts` that group `g` lacks, each once, in the order
/// they first appear.
pub open spec fn spec_missing_from(ts: Seq<MediaRendition>, g: Seq<char>, n: int) -> Seq<Seq<char>>
    decreases n,
{
    if n <= 0 {
        Seq::empty()
    } else {
        let rest = spec_missing_from(ts, g, n - 1);
        let x = ts[n - 1].name@;
        if !spec_member_of(ts, g, x) && !rest.contains(x) {
            rest.push(x)
        } else {
            rest
        }
    }
}

/// The names group `g` of the renditions `ts` (all of one type) lacks, in ascending order.
pub open spec fn spec_missing_members(ts: Seq<MediaRendition>, g: Seq<char>) -> Seq<Seq<char>> {
    let m = spec_missing_from(ts, g, ts.len() as int);
    spec_sorted(m, m.len() as int)
}

/// `'name'` for each of the first `n` names, joined by `, `.
pub open spec fn spec_quoted_names(ns: Seq<Seq<char>>, n: int) -> Seq<char>
    decreases n,
{
    if n <= 0 {
        Seq::empty()
    } else if n == 1 {
        seq!['\''] + ns[0] + seq!['\'']
    } else {
        spec_quoted_names(ns, n - 1) + ", '"@ + ns[n - 1] + seq!['\'']
    }
}

/// The groups of the renditions `ts`, each once, in the order they first appear.
pub open spec fn spec_group_ids(ts: Seq<MediaRendition>) -> Seq<Seq<char>> {
    spec_uniq(ts.map_values(|r: MediaRendition| r.group_id@), ts.len() as int)
}

/// The membership findings on the first `m` of the groups `gs` of type `t`.
pub open spec fn spec_group_findings(t: Seq<char>, ts: Seq<MediaRendition>, gs: Seq<Seq<char>>, m: int) -> Seq<Finding>
    decreases m,
{
    if m <= 0 {
        Seq::empty()
    } else {
        let g = gs[m - 1];
        let missing = spec_missing_members(ts, g);
        let rest = spec_group_findings(t, ts, gs, m - 1);
        if missing.len() > 0 {
            rest.push((
                Severity::Error,
                -1int,
                None::<Seq<char>>,
                None::<Seq<char>>,
                "rfc8216bis §4.4.6.1.1: "@ + t + " Group '"@ + g
                    + "' is missing member(s) present in other groups of the same type: "@ + spec_quoted_names(
                    missing,
                    missing.len() as int,
                ) + ". All groups of the same TYPE MUST have the same set of members."@,
            ))
        } else {
            rest
        }
    }
}

/// The media types of the renditions, each once, in the order they first appear.
pub open spec fn spec_media_types(rs: Seq<MediaRendition>) -> Seq<Seq<char>> {
    spec_uniq(rs.map_values(|r: MediaRendition| r.media_type@), rs.len() as int)
}

/// The membership findings on the first `n` media types.
pub open spec fn spec_membership_findings(rs: Seq<MediaRendition>, n: int) -> Seq<Finding>
    decreases n,
{
    if n <= 0 {
        Seq::empty()
    } else {
        let t = spec_media_types(rs)[n - 1];
        let ts = spec_of_type(rs, t, rs.len() as int);
        let gs = spec_group_ids(ts);
        spec_membership_findings(rs, n - 1) + if gs.len() < 2 {
            Seq::empty()
        } else {
            spec_group_findings(t, ts, gs, gs.len() as int)
        }
    }
}


/// The renditions a list of references holds.
pub open spec fn spec_rendition_refs(s: Seq<&MediaRendition>) -> Seq<MediaRendition> {
    s.map_values(|r: &MediaRendition| *r)
}

fn member_of(ts: &Vec<&MediaRendition>, g: &str, x: &str) -> (r: bool)
    ensures
        r == spec_member_of(spec_rendition_refs(ts@), g@, x@),
{
    let ghost sv = spec_rendition_refs(ts@);
    let mut k: usize = 0;
    while k < ts.len()
        invariant
            k <= ts@.len(),
            sv == spec_rendition_refs(ts@),
            forall|j: int| 0 <= j < k ==> !((#[trigger] sv[j]).group_id@ == g@ && sv[j].name@ == x@),
        decreases ts.len() - k,
    {
        proof {
            assert(sv[k as int] == *ts@[k as int]);
        }
        if str_equals_text(ts[k].group_id.as_str(), g) && str_equals_text(ts[k].name.as_str(), x) {
            return true;
        }
        k = k + 1;
    }
    false
}

/// The names group `g` lacks, in ascending order.
fn missing_members(ts: &Vec<&MediaRendition>, g: &str) -> (r: Vec<String>)
    ensures
        r@.map_values(|s: String| s@) == spec_missing_members(spec_rendition_refs(ts@), g@),
{
    let ghost sv = spec_rendition_refs(ts@);
    let mut missing: Vec<String> = Vec::new();
    let mut k: usize = 0;
    proof {
        assert(missing@.map_values(|s: String| s@) =~= Seq::<Seq<char>>::empty());
    }
    while k < ts.len()
        invariant
            k <= ts@.len(),
            sv == spec_rendition_refs(ts@),
            missing@.map_values(|s: String| s@) == spec_missing_from(sv, g@, k as int),
        decreases ts.len() - k,
    {
        let x = ts[k].name.as_str();
        proof {
            assert(sv[k as int] == *ts@[k as int]);
        }
        if !member_of(ts, g, x) {
            push_distinct(&mut missing, x);
        }
        k = k + 1;
    }
    let ghost m = spec_missing_from(sv, g@, sv.len() as int);
    let mut sorted: Vec<String> = Vec::new();
    let mut q: usize = 0;
    proof {
        assert(sorted@.map_values(|s: String| s@) =~= Seq::<Seq<char>>::empty());
    }
    while q < missing.len()
        invariant
            q <= missing@.len(),
            missing@.map_values(|s: String| s@) == m,
            sorted@.map_values(|s: String| s@) == spec_sorted(m, q as int),
        decreases missing.len() - q,
    {
        proof {
            assert(m[q as int] == missing@[q as int]@);
        }
        insert_sorted(&mut sorted, missing[q].clone());
        q = q + 1;
    }
    sorted
}

fn quoted_names(ns: &Vec<String>) -> (r: String)
    ensures
        r@ == spec_quoted_names(ns@.map_values(|s: String| s@), ns@.len() as int),
{
    let ghost t = ns@.map_values(|s: String| s@);
    let mut out = String::new();
    let mut k: usize = 0;
    while k < ns.len()
        invariant
            k <= ns@.len(),
            t == ns@.map_values(|s: String| s@),
            out@ == spec_quoted_names(t, k as int),
        decreases ns.len() - k,
    {
        proof {
            assert(t[k as int] == ns@[k as int]@);
        }
        if k > 0 {
            push_str(&mut out, ", '");
        } else {
            proof {
                assert(out@ =~= Seq::<char>::empty());
            }
            push_char(&mut out, '\'');
        }
        push_str(&mut out, ns[k].as_str());
        push_char(&mut out, '\'');
        k = k + 1;
    }
    out
}

/// RFC 8216bis §4.4.6.1.1: where a playlist holds several groups of one media TYPE, every
/// group has the same set of member NAMEs. Each group that lacks names present in another
/// group of its type is an error listing them in ascending order. Types, and groups
/// within one, are taken in the order they first appear.
pub fn check_media_group_membership(renditions: &[MediaRendition]) -> (r: Vec<Issue>)
    ensures
        spec_findings_match(
            r@,
            CheckId::MediaGroupMembership,
            spec_membership_findings(renditions@, spec_media_types(renditions@).len() as int),
        ),
{
    let ghost rs = renditions@;
    let mut all_types: Vec<String> = Vec::new();
    let mut k: usize = 0;
    while k < renditions.len()
        invariant
            k <= rs.len(),
            rs == renditions@,
            all_types@.map_values(|s: String| s@) == rs.map_values(|r: MediaRendition| r.media_type@).take(k as int),
        decreases renditions.len() - k,
    {
        let ghost before = all_types@.map_values(|s: String| s@);
        let copy = renditions[k].media_type.clone();
        assert(copy@ == rs[k as int].media_type@);
        all_types.push(copy);
        proof {
            let whole = rs.map_values(|r: MediaRendition| r.media_type@);
            assert(all_types@.map_values(|s: String| s@) =~= before.push(rs[k as int].media_type@));
            assert(whole.take(k + 1) =~= whole.take(k as int).push(whole[k as int]));
        }
        k = k + 1;
    }
    proof {
        assert(rs.map_values(|r: MediaRendition| r.media_type@).take(rs.len() as int) =~= rs.map_values(
            |r: MediaRendition| r.media_type@,
        ));
    }
    let types = distinct(&all_types);
    let ghost tys = spec_media_types(rs);
    let mut issues: Vec<Issue> = Vec::new();
    let mut n: usize = 0;
    while n < types.len()
        invariant
            n <= types@.len(),
            rs == renditions@,
            tys == spec_media_types(rs),
            types@.map_values(|s: String| s@) == tys,
            spec_findings_match(issues@, CheckId::MediaGroupMembership, spec_membership_findings(rs, n as int)),
        decreases types.len() - n,
    {
        let t = types[n].as_str();
        proof {
            assert(tys[n as int] == t@);
        }
        let mut ts: Vec<&MediaRendition> = Vec::new();
        let mut k: usize = 0;
        proof {
            assert(spec_rendition_refs(ts@) =~= Seq::<MediaRendition>::empty());
        }
        while k < renditions.len()
            invariant
                k <= rs.len(),
                rs == renditions@,
                spec_rendition_refs(ts@) == spec_of_type(rs, t@, k as int),
            decreases renditions.len() - k,
        {
            if str_equals_text(renditions[k].media_type.as_str(), t) {
                let ghost before = spec_rendition_refs(ts@);
                ts.push(&renditions[k]);
                proof {
                    assert(spec_rendition_refs(ts@) =~= before.push(rs[k as int]));
                }
            }
            k = k + 1;
        }
        let ghost sv = spec_of_type(rs, t@, rs.len() as int);
        let mut all_groups: Vec<String> = Vec::new();
        let mut k: usize = 0;
        while k < ts.len()
            invariant
                k <= ts@.len(),
                sv == spec_rendition_refs(ts@),
                all_groups@.map_values(|s: String| s@) == sv.map_values(|r: MediaRendition| r.group_id@).take(k as int),
            decreases ts.len() - k,
        {
            let ghost before = all_groups@.map_values(|s: String| s@);
            proof {
                assert(sv[k as int] == *ts@[k as int]);
            }
            let copy = ts[k].group_id.clone();
            all_groups.push(copy);
            proof {
                let whole = sv.map_values(|r: MediaRendition| r.group_id@);
                assert(all_groups@.map_values(|s: String| s@) =~= before.push(sv[k as int].group_id@));
                assert(whole.take(k + 1) =~= whole.take(k as int).push(whole[k as int]));
            }
            k = k + 1;
        }
        proof {
            assert(sv.map_values(|r: MediaRendition| r.group_id@).take(sv.len() as int) =~= sv.map_values(
                |r: MediaRendition| r.group_id@,
            ));
        }
        let groups = distinct(&all_groups);
        let ghost gs = spec_group_ids(sv);
        let ghost start = spec_membership_findings(rs, n as int);
        if groups.len() >= 2 {
            let mut m: usize = 0;
            while m < groups.len()
                invariant
                    m <= groups@.len(),
                    groups@.map_values(|s: String| s@) == gs,
                    sv == spec_rendition_refs(ts@),
                    spec_findings_match(issues@, CheckId::MediaGroupMembership, start + spec_group_findings(t@, sv, gs, m as int)),
                decreases groups.len() - m,
            {
                let g = groups[m].as_str();
                proof {
                    assert(gs[m as int] == g@);
                }
                let missing = missing_members(&ts, g);
                if missing.len() > 0 {
                    let mut message = String::from_str("rfc8216bis §4.4.6.1.1: ");
                    push_str(&mut message, t);
                    push_str(&mut message, " Group '");
                    push_str(&mut message, g);
                    push_str(&mut message, "' is missing member(s) present in other groups of the same type: ");
                    let names = quoted_names(&missing);
                    push_str(&mut message, names.as_str());
                    push_str(&mut message, ". All groups of the same TYPE MUST have the same set of members.");
                    let issue = located_finding(CheckId::MediaGroupMembership, Severity::Error, -1, None, None, message);
                    let ghost before = issues@;
                    proof {
                        let f = spec_group_findings(t@, sv, gs, m + 1);
                        assert(missing@.map_values(|s: String| s@).len() == missing@.len());
                        assert(f == spec_group_findings(t@, sv, gs, m as int) + seq![f.last()]);
                        lemma_findings_match_concat(
                            before,
                            seq![issue],
                            CheckId::MediaGroupMembership,
                            start + spec_group_findings(t@, sv, gs, m as int),
                            seq![f.last()],
                        );
                        assert(start + spec_group_findings(t@, sv, gs, m as int) + seq![f.last()] =~= start + f);
                    }
                    issues.push(issue);
                    proof {
                        assert(issues@ =~= before + seq![issue]);
                    }
                } else {
                    proof {
                        assert(missing@.map_values(|s: String| s@).len() == missing@.len());
                    }
                }
                m = m + 1;
            }
            proof {
                assert(spec_membership_findings(rs, n + 1) =~= start + spec_group_findings(t@, sv, gs, gs.len() as int));
            }
        } else {
            proof {
                assert(groups@.map_values(|s: String| s@).len() == groups@.len());
                assert(spec_membership_findings(rs, n + 1) =~= start);
            }
        }
        n = n + 1;
    }
    issues
}


/// Whether every text of `s` sorts before every later one.
pub open spec fn spec_strictly_ascending(s: Seq<Seq<char>>) -> bool {
    forall|i: int, j: int| 0 <= i < j < s.len() ==> spec_lex_lt(#[trigger] s[i], #[trigger] s[j])
}

proof fn lemma_lex_other(a: Seq<char>, b: Seq<char>)
    requires
        a != b,
        !spec_lex_lt(a, b),
    ensures
        spec_lex_lt(b, a),
{
    if !spec_lex_lt(b, a) {
        lemma_lex_total(a, b, 0);
    }
}

proof fn lemma_insert_sorted_props(s: Seq<Seq<char>>, x: Seq<char>)
    requires
        spec_strictly_ascending(s),
        !s.contains(x),
    ensures
        spec_strictly_ascending(spec_insert_sorted(s, x)),
        spec_insert_sorted(s, x).len() == s.len() + 1,
        forall|y: Seq<char>| #[trigger] spec_insert_sorted(s, x).contains(y) <==> (s.contains(y) || y == x),
    decreases s.len(),
{
    let r = spec_insert_sorted(s, x);
    if s.len() == 0 {
        assert(r =~= seq![x]);
        assert forall|y: Seq<char>| #[trigger] r.contains(y) <==> (s.contains(y) || y == x) by {
            if r.contains(y) {
                assert(r[0] == y);
            }
            if y == x {
                assert(r[0] == x);
            }
        }
    } else if spec_lex_lt(x, s[0]) {
        assert(r =~= seq![x] + s);
        assert forall|i: int, j: int| 0 <= i < j < r.len() implies spec_lex_lt(#[trigger] r[i], #[trigger] r[j]) by {
            if i == 0 {
                if j > 1 {
                    lemma_lex_transitive(x, s[0], s[j - 1], 0);
                }
            } else {
                assert(r[i] == s[i - 1] && r[j] == s[j - 1]);
            }
        }
        assert forall|y: Seq<char>| #[trigger] r.contains(y) <==> (s.contains(y) || y == x) by {
            if r.contains(y) {
                let k = choose|k: int| 0 <= k < r.len() && r[k] == y;
                if k > 0 {
                    assert(s[k - 1] == y);
                }
            }
            if s.contains(y) {
                let k = choose|k: int| 0 <= k < s.len() && s[k] == y;
                assert(r[k + 1] == y);
            }
            if y == x {
                assert(r[0] == x);
            }
        }
    } else {
        let t = s.drop_first();
        assert(s[0] != x);
        lemma_lex_other(x, s[0]);
        assert forall|i: int, j: int| 0 <= i < j < t.len() implies spec_lex_lt(#[trigger] t[i], #[trigger] t[j]) by {
            assert(t[i] == s[i + 1] && t[j] == s[j + 1]);
        }
        assert(!t.contains(x)) by {
            if t.contains(x) {
                let k = choose|k: int| 0 <= k < t.len() && t[k] == x;
                assert(s[k + 1] == x);
            }
        }
        lemma_insert_sorted_props(t, x);
        let rest = spec_insert_sorted(t, x);
        assert(r =~= seq![s[0]] + rest);
        assert forall|i: int, j: int| 0 <= i < j < r.len() implies spec_lex_lt(#[trigger] r[i], #[trigger] r[j]) by {
            if i == 0 {
                let y = rest[j - 1];
                assert(rest.contains(y));
                if y == x {
                } else {
                    assert(t.contains(y));
                    let k = choose|k: int| 0 <= k < t.len() && t[k] == y;
                    assert(s[k + 1] == y);
                }
            } else {
                assert(r[i] == rest[i - 1] && r[j] == rest[j - 1]);
            }
        }
        assert forall|y: Seq<char>| #[trigger] r.contains(y) <==> (s.contains(y) || y == x) by {
            if r.contains(y) {
                let k = choose|k: int| 0 <= k < r.len() && r[k] == y;
                if k > 0 {
                    assert(rest[k - 1] == y);
                    assert(rest.contains(y));
                    if t.contains(y) {
                        let q = choose|q: int| 0 <= q < t.len() && t[q] == y;
                        assert(s[q + 1] == y);
                    }
                } else {
                    assert(s[0] == y);
                }
            }
            if s.contains(y) {
                let k = choose|k: int| 0 <= k < s.len() && s[k] == y;
                if k == 0 {
                    assert(r[0] == y);
                } else {
                    assert(t[k - 1] == y);
                    assert(rest.contains(y));
                    let q = choose|q: int| 0 <= q < rest.len() && rest[q] == y;
                    assert(r[q + 1] == y);
                }
            }
            if y == x {
                assert(rest.contains(x));
                let q = choose|q: int| 0 <= q < rest.len() && rest[q] == x;
                assert(r[q + 1] == x);
            }
        }
    }
}

proof fn lemma_sorted_props(s: Seq<Seq<char>>, n: int)
    requires
        0 <= n <= s.len(),
        forall|i: int, j: int| 0 <= i < j < n ==> s[i] != s[j],
    ensures
        spec_strictly_ascending(spec_sorted(s, n)),
        forall|y: Seq<char>| #[trigger] spec_sorted(s, n).contains(y) <==> exists|k: int| 0 <= k < n && s[k] == y,
    decreases n,
{
    if n > 0 {
        lemma_sorted_props(s, n - 1);
        let prev = spec_sorted(s, n - 1);
        assert(!prev.contains(s[n - 1])) by {
            if prev.contains(s[n - 1]) {
                assert(exists|k: int| 0 <= k < n - 1 && #[trigger] s[k] == s[n - 1]);
                let k = choose|k: int| 0 <= k < n - 1 && #[trigger] s[k] == s[n - 1];
                assert(s[k] != s[n - 1]);
            }
        }
        lemma_insert_sorted_props(prev, s[n - 1]);
        assert forall|y: Seq<char>| #[trigger] spec_sorted(s, n).contains(y) <==> exists|k: int| 0 <= k < n && s[k] == y by {
            if exists|k: int| 0 <= k < n && s[k] == y {
                let k = choose|k: int| 0 <= k < n && s[k] == y;
                if k < n - 1 {
                    assert(prev.contains(y));
                }
            }
        }
    } else {
        assert forall|y: Seq<char>| #[trigger] spec_sorted(s, n).contains(y) <==> exists|k: int| 0 <= k < n && s[k] == y by {
            assert(spec_sorted(s, n) =~= Seq::<Seq<char>>::empty());
        }
    }
}

proof fn lemma_missing_from_props(ts: Seq<MediaRendition>, g: Seq<char>, n: int)
    requires
        0 <= n <= ts.len(),
    ensures
        ({
            let m = spec_missing_from(ts, g, n);
            &&& forall|i: int, j: int| 0 <= i < j < m.len() ==> m[i] != m[j]
            &&& forall|y: Seq<char>| #[trigger] m.contains(y) <==> ((exists|k: int| 0 <= k < n && (#[trigger] ts[k]).name@ == y) && !spec_member_of(ts, g, y))
        }),
    decreases n,
{
    if n > 0 {
        lemma_missing_from_props(ts, g, n - 1);
        let rest = spec_missing_from(ts, g, n - 1);
        let m = spec_missing_from(ts, g, n);
        let x = ts[n - 1].name@;
        assert forall|y: Seq<char>| #[trigger] m.contains(y) <==> ((exists|k: int| 0 <= k < n && (#[trigger] ts[k]).name@ == y) && !spec_member_of(ts, g, y)) by {
            if m.contains(y) && !rest.contains(y) {
                let q = choose|q: int| 0 <= q < m.len() && m[q] == y;
                assert(q == rest.len());
                assert(ts[n - 1].name@ == y);
            }
            if rest.contains(y) {
                let q = choose|q: int| 0 <= q < rest.len() && rest[q] == y;
                assert(m[q] == y);
            }
            if (exists|k: int| 0 <= k < n && (#[trigger] ts[k]).name@ == y) && !spec_member_of(ts, g, y) {
                let k = choose|k: int| 0 <= k < n && (#[trigger] ts[k]).name@ == y;
                if k == n - 1 && !rest.contains(y) {
                    assert(m[rest.len() as int] == y);
                }
            }
        }
    }
}

/// The names a group is reported as missing are exactly those of renditions of its type
/// that the group lacks, each once, in ascending order.
pub proof fn lemma_missing_members_are_sorted(ts: Seq<MediaRendition>, g: Seq<char>)
    ensures
        spec_strictly_ascending(spec_missing_members(ts, g)),
        forall|y: Seq<char>| #[trigger] spec_missing_members(ts, g).contains(y) <==> ((exists|k: int|
            0 <= k < ts.len() && (#[trigger] ts[k]).name@ == y) && !spec_member_of(ts, g, y)),
{
    lemma_missing_from_props(ts, g, ts.len() as int);
    let m = spec_missing_from(ts, g, ts.len() as int);
    lemma_sorted_props(m, m.len() as int);
    assert forall|y: Seq<char>| #[trigger] spec_missing_members(ts, g).contains(y) <==> ((exists|k: int|
        0 <= k < ts.len() && (#[trigger] ts[k]).name@ == y) && !spec_member_of(ts, g, y)) by {
        if m.contains(y) {
            let q = choose|q: int| 0 <= q < m.len() && m[q] == y;
            assert(exists|k: int| 0 <= k < m.len() && m[k] == y);
        }
        if exists|k: int| 0 <= k < m.len() && m[k] == y {
            let q = choose|q: int| 0 <= q < m.len() && m[q] == y;
            assert(m.contains(y));
        }
    }
}


/// A playlist that declares EXT-X-VERSION 9 or later has every feature the version rule
/// knows of: it never gets a version finding.
pub proof fn lemma_recent_version_needs_nothing_more(pl: PlaylistFacts)
    requires
        pl.version >= 9,
    ensures
        spec_version_pl_findings(pl) == Seq::<(Seq<char>, Seq<char>)>::empty(),
{
    assert(spec_fractional_finding(pl) =~= Seq::<(Seq<char>, Seq<char>)>::empty());
    assert(spec_version_pl_findings(pl) =~= Seq::<(Seq<char>, Seq<char>)>::empty());
}


/// Where a playlist's window begins: its declared sequence number plus the segments a
/// delta update skipped.
pub open spec fn spec_window_start(pl: PlaylistFacts) -> int {
    pl.media_sequence + pl.skipped_segments
}

/// Whether a playlist's window, start to end, fits in 64 bits.
pub open spec fn spec_window_in_range(pl: PlaylistFacts) -> bool {
    spec_window_start(pl) + pl.segments@.len() <= u64::MAX
}

/// The segment pairs of two playlists at the same Media Sequence Number, for each number
/// both windows hold, in order: (index in `a`, index in `b`, number), from the first
/// `n` numbers of the overlap.
pub open spec fn spec_overlap(a: PlaylistFacts, b: PlaylistFacts, n: int) -> Seq<(usize, usize, u64)>
    decreases n,
{
    let lo = if spec_window_start(a) > spec_window_start(b) { spec_window_start(a) } else { spec_window_start(b) };
    if n <= 0 {
        Seq::empty()
    } else {
        let msn = lo + n - 1;
        spec_overlap(a, b, n - 1).push(
            ((msn - spec_window_start(a)) as usize, (msn - spec_window_start(b)) as usize, msn as u64),
        )
    }
}

/// How many Media Sequence Numbers both windows hold.
pub open spec fn spec_overlap_len(a: PlaylistFacts, b: PlaylistFacts) -> int {
    let lo = if spec_window_start(a) > spec_window_start(b) { spec_window_start(a) } else { spec_window_start(b) };
    let end_a = spec_window_start(a) + a.segments@.len();
    let end_b = spec_window_start(b) + b.segments@.len();
    let hi = if end_a < end_b { end_a } else { end_b };
    if hi > lo { hi - lo } else { 0 }
}

/// Pairs the segments of two playlists by Media Sequence Number, over the numbers both
/// windows hold: each pair as its index in `a`, its index in `b`, and the number.
pub fn overlapping_segments(a: &PlaylistFacts, b: &PlaylistFacts) -> (r: Vec<(usize, usize, u64)>)
    requires
        spec_window_in_range(*a),
        spec_window_in_range(*b),
    ensures
        r@ == spec_overlap(*a, *b, spec_overlap_len(*a, *b)),
        forall|k: int| 0 <= k < r@.len() ==> (#[trigger] r@[k]).0 < a.segments@.len() && r@[k].1 < b.segments@.len(),
        forall|k: int| 0 <= k < r@.len() ==> spec_window_start(*a) + (#[trigger] r@[k]).0 == r@[k].2 && spec_window_start(*b)
            + r@[k].1 == r@[k].2,
{
    let la = a.segments.len();
    let lb = b.segments.len();
    let start_a = a.media_sequence + a.skipped_segments;
    let end_a = start_a + la as u64;
    let start_b = b.media_sequence + b.skipped_segments;
    let end_b = start_b + lb as u64;
    let lo = if start_a > start_b { start_a } else { start_b };
    let hi = if end_a < end_b { end_a } else { end_b };
    let mut out: Vec<(usize, usize, u64)> = Vec::new();
    if hi <= lo {
        return out;
    }
    let mut msn = lo;
    while msn < hi
        invariant
            lo <= msn <= hi,
            la == a.segments@.len(),
            lb == b.segments@.len(),
            start_a as int == spec_window_start(*a),
            start_b as int == spec_window_start(*b),
            end_a as int == start_a + a.segments@.len(),
            end_b as int == start_b + b.segments@.len(),
            lo as int == (if spec_window_start(*a) > spec_window_start(*b) { spec_window_start(*a) } else { spec_window_start(*b) }),
            hi as int == (if end_a < end_b { end_a } else { end_b }),
            out@ == spec_overlap(*a, *b, msn - lo),
            forall|k: int| 0 <= k < out@.len() ==> (#[trigger] out@[k]).0 < a.segments@.len() && out@[k].1 < b.segments@.len(),
            forall|k: int| 0 <= k < out@.len() ==> spec_window_start(*a) + (#[trigger] out@[k]).0 == out@[k].2
                && spec_window_start(*b) + out@[k].1 == out@[k].2,
        decreases hi - msn,
    {
        assert(msn - start_a < la && msn - start_b < lb);
        let ia = (msn - start_a) as usize;
        let ib = (msn - start_b) as usize;
        out.push((ia, ib, msn));
        msn = msn + 1;
    }
    out
}

} // verus!
