//! The validator's data model: findings, their severity and confidence, and the checks that
//! produce them.

use vstd::prelude::*;
use vstd::string::StringExecFns;
use crate::validator::text_map::TextMap;
use crate::text::{contains, spec_contains};

verus! {

/// How serious a finding is, from the least to the most.
#[derive(Debug, Clone, Copy, PartialEq, Eq, Structural, PartialOrd, Ord, Hash)]
pub enum Severity {
    Info,
    Warn,
    Error,
}

/// The place of a severity in the order Info < Warn < Error.
pub open spec fn spec_severity_rank(s: Severity) -> int {
    match s {
        Severity::Info => 0,
        Severity::Warn => 1,
        Severity::Error => 2,
    }
}

impl Default for Severity {
    fn default() -> (r: Severity)
        ensures
            r == Severity::Warn,
    {
        Severity::Warn
    }
}

impl Severity {
    /// The label the report prints for this severity.
    pub fn to_text(&self) -> (r: &'static str)
        ensures
            r == (match *self {
                Severity::Info => "INFO",
                Severity::Warn => "WARN",
                Severity::Error => "ERROR",
            }),
    {
        match self {
            Severity::Info => "INFO",
            Severity::Warn => "WARN",
            Severity::Error => "ERROR",
        }
    }
}

/// How sure a check is of the evidence behind a finding, which is a different question
/// from how serious the finding would be.
///
/// A rule that read a playlist knows what it saw. A rule that measured a handful of
/// sampled segments, or read NAL syntax out of a payload it could not scope to one track,
/// does not, and reporting both as an `ERROR` would make the second look as firm as the
/// first.
#[derive(Debug, Clone, Copy, PartialEq, Eq, Structural, PartialOrd, Ord, Hash)]
pub enum Confidence {
    /// Read directly from the playlists, the init segments or the HTTP responses.
    Measured,
    /// Measured, but from a bounded sample of the media rather than all of it.
    Sampled,
    /// Inferred from a heuristic that can be wrong about conforming content.
    Heuristic,
}

impl Default for Confidence {
    fn default() -> (r: Confidence)
        ensures
            r == Confidence::Measured,
    {
        Confidence::Measured
    }
}

/// The less severe of two severities.
pub open spec fn spec_severity_min(a: Severity, b: Severity) -> Severity {
    if spec_severity_rank(a) <= spec_severity_rank(b) {
        a
    } else {
        b
    }
}

impl Confidence {
    /// The most severe a finding at this confidence may be. `Error` is reserved for
    /// evidence read straight from the stream, so a MUST that was only inferred is
    /// reported as a warning rather than failing the run.
    pub fn cap(self, severity: Severity) -> (r: Severity)
        ensures
            r == (match self {
                Confidence::Measured => severity,
                _ => spec_severity_min(severity, Severity::Warn),
            }),
            spec_severity_rank(r) <= spec_severity_rank(severity),
    {
        match self {
            Confidence::Measured => severity,
            _ => match severity {
                Severity::Error => Severity::Warn,
                other => other,
            },
        }
    }

    /// Short label for findings whose evidence is worth qualifying in the report.
    /// `Measured` is the norm, so it carries none.
    pub fn note(self) -> (r: Option<&'static str>)
        ensures
            r == (match self {
                Confidence::Measured => None,
                Confidence::Sampled => Some("sampled evidence"),
                Confidence::Heuristic => Some("heuristic"),
            }),
    {
        match self {
            Confidence::Measured => None,
            Confidence::Sampled => Some("sampled evidence"),
            Confidence::Heuristic => Some("heuristic"),
        }
    }

    /// The label the report prints for this confidence.
    pub fn to_text(&self) -> (r: &'static str)
        ensures
            r == (match *self {
                Confidence::Measured => "MEASURED",
                Confidence::Sampled => "SAMPLED",
                Confidence::Heuristic => "HEURISTIC",
            }),
    {
        match self {
            Confidence::Measured => "MEASURED",
            Confidence::Sampled => "SAMPLED",
            Confidence::Heuristic => "HEURISTIC",
        }
    }
}

/// Which check produced a finding. The producing check names itself here, and grouping
/// the findings in the report is a lookup.
#[derive(Debug, Clone, Copy, PartialEq, Eq, Structural, Hash)]
pub enum CheckId {
    /// No check claimed this finding. The report collects these into a catch-all group
    /// rather than dropping them.
    Unassigned,
    ExtM3uHeader,
    SingletonTags,
    TargetDurationCompliance,
    MediaSequenceTags,
    DiscontinuitySequence,
    PlaylistTypeEndlist,
    EncryptionConsistency,
    DeltaUpdates,
    BandwidthRequired,
    StreamInfConsistency,
    MediaGroupMembership,
    RenditionGroupReferences,
    LivePlaylistWindow,
    PdtCoverage,
    PdtAlignment,
    TargetDurationConsistency,
    CumulativeDrift,
    DurationDrift,
    SegmentCount,
    VersionCompatibility,
    LlHls,
    Interstitials,
    SegmentStructure,
    PlaylistFetch,
    /// §4.4.6.3: an I-frame Variant Stream and the playlist it points at.
    IFramePlaylists,
    /// §6.2.4: the Date Ranges of one rendition against the others that carry them.
    DateRangeConsistency,
    /// §4.4.2.3: EXT-X-DEFINE declarations and whether their values can be resolved.
    VariableDefinitions,
}

impl Default for CheckId {
    fn default() -> (r: CheckId)
        ensures
            r == CheckId::Unassigned,
    {
        CheckId::Unassigned
    }
}

impl CheckId {
    /// Every check that can name itself, in the order the report lists them.
    pub fn all() -> (r: Vec<CheckId>)
        ensures
            forall|id: CheckId| id != CheckId::Unassigned ==> #[trigger] r@.contains(id),
            !r@.contains(CheckId::Unassigned),
            r@.no_duplicates(),
    {
        let r = vec![
            CheckId::ExtM3uHeader,
            CheckId::SingletonTags,
            CheckId::TargetDurationCompliance,
            CheckId::MediaSequenceTags,
            CheckId::DiscontinuitySequence,
            CheckId::PlaylistTypeEndlist,
            CheckId::EncryptionConsistency,
            CheckId::DeltaUpdates,
            CheckId::BandwidthRequired,
            CheckId::StreamInfConsistency,
            CheckId::MediaGroupMembership,
            CheckId::RenditionGroupReferences,
            CheckId::LivePlaylistWindow,
            CheckId::PdtCoverage,
            CheckId::PdtAlignment,
            CheckId::TargetDurationConsistency,
            CheckId::CumulativeDrift,
            CheckId::DurationDrift,
            CheckId::SegmentCount,
            CheckId::VersionCompatibility,
            CheckId::LlHls,
            CheckId::Interstitials,
            CheckId::SegmentStructure,
            CheckId::PlaylistFetch,
            CheckId::IFramePlaylists,
            CheckId::DateRangeConsistency,
            CheckId::VariableDefinitions,
        ];
        proof {
            assert forall|id: CheckId| id != CheckId::Unassigned implies #[trigger] r@.contains(id) by {
                match id {
                    CheckId::Unassigned => {},
                    CheckId::ExtM3uHeader => { assert(r@[0] == id); },
                    CheckId::SingletonTags => { assert(r@[1] == id); },
                    CheckId::TargetDurationCompliance => { assert(r@[2] == id); },
                    CheckId::MediaSequenceTags => { assert(r@[3] == id); },
                    CheckId::DiscontinuitySequence => { assert(r@[4] == id); },
                    CheckId::PlaylistTypeEndlist => { assert(r@[5] == id); },
                    CheckId::EncryptionConsistency => { assert(r@[6] == id); },
                    CheckId::DeltaUpdates => { assert(r@[7] == id); },
                    CheckId::BandwidthRequired => { assert(r@[8] == id); },
                    CheckId::StreamInfConsistency => { assert(r@[9] == id); },
                    CheckId::MediaGroupMembership => { assert(r@[10] == id); },
                    CheckId::RenditionGroupReferences => { assert(r@[11] == id); },
                    CheckId::LivePlaylistWindow => { assert(r@[12] == id); },
                    CheckId::PdtCoverage => { assert(r@[13] == id); },
                    CheckId::PdtAlignment => { assert(r@[14] == id); },
                    CheckId::TargetDurationConsistency => { assert(r@[15] == id); },
                    CheckId::CumulativeDrift => { assert(r@[16] == id); },
                    CheckId::DurationDrift => { assert(r@[17] == id); },
                    CheckId::SegmentCount => { assert(r@[18] == id); },
                    CheckId::VersionCompatibility => { assert(r@[19] == id); },
                    CheckId::LlHls => { assert(r@[20] == id); },
                    CheckId::Interstitials => { assert(r@[21] == id); },
                    CheckId::SegmentStructure => { assert(r@[22] == id); },
                    CheckId::PlaylistFetch => { assert(r@[23] == id); },
                    CheckId::IFramePlaylists => { assert(r@[24] == id); },
                    CheckId::DateRangeConsistency => { assert(r@[25] == id); },
                    CheckId::VariableDefinitions => { assert(r@[26] == id); },
                }
            }
        }
        r
    }
}

/// One finding of a check.
#[derive(Debug)]
pub struct Issue {
    pub severity: Severity,
    /// Which check produced this finding, used to group it in the report.
    pub check_id: CheckId,
    /// How the evidence for this finding was obtained.
    pub confidence: Confidence,
    pub segment_index: i32,
    pub rendition_a: Option<String>,
    pub rendition_b: Option<String>,
    pub uri_a: Option<String>,
    pub uri_b: Option<String>,
    pub message: String,
    pub uri_note: Option<String>,
    /// How many findings this one stands for. A run of segments that all break the same
    /// rule is reported once, and the report renders the range rather than one row per
    /// segment.
    pub count: usize,
    /// First and last segment index of the run, valid when `count` is greater than one.
    pub seg_first: i32,
    pub seg_last: i32,
}

/// A finding of `severity` with `message` at `segment_index`, everything else at the
/// values the report reads as "not said".
pub open spec fn spec_plain_issue(severity: Severity, segment_index: int, message: Seq<char>, i: Issue) -> bool {
    &&& i.severity == severity
    &&& i.check_id == CheckId::Unassigned
    &&& i.confidence == Confidence::Measured
    &&& i.segment_index == segment_index
    &&& i.rendition_a is None
    &&& i.rendition_b is None
    &&& i.uri_a is None
    &&& i.uri_b is None
    &&& i.message@ == message
    &&& i.uri_note is None
    &&& i.count == 1
    &&& i.seg_first == -1
    &&& i.seg_last == -1
}

/// Two optional texts are both absent, or both present with the same text.
pub open spec fn spec_opt_same(a: Option<String>, b: Option<String>) -> bool {
    match (a, b) {
        (None, None) => true,
        (Some(x), Some(y)) => x@ == y@,
        _ => false,
    }
}

/// Two findings say the same thing, field by field, texts compared as text.
pub open spec fn spec_issue_same(a: Issue, b: Issue) -> bool {
    &&& a.severity == b.severity
    &&& a.check_id == b.check_id
    &&& a.confidence == b.confidence
    &&& a.segment_index == b.segment_index
    &&& spec_opt_same(a.rendition_a, b.rendition_a)
    &&& spec_opt_same(a.rendition_b, b.rendition_b)
    &&& spec_opt_same(a.uri_a, b.uri_a)
    &&& spec_opt_same(a.uri_b, b.uri_b)
    &&& a.message@ == b.message@
    &&& spec_opt_same(a.uri_note, b.uri_note)
    &&& a.count == b.count
    &&& a.seg_first == b.seg_first
    &&& a.seg_last == b.seg_last
}

fn clone_opt(o: &Option<String>) -> (r: Option<String>)
    ensures
        spec_opt_same(r, *o),
{
    match o {
        Some(s) => Some(s.clone()),
        None => None,
    }
}

impl Clone for Issue {
    fn clone(&self) -> (r: Issue)
        ensures
            spec_issue_same(r, *self),
    {
        Issue {
            severity: self.severity,
            check_id: self.check_id,
            confidence: self.confidence,
            segment_index: self.segment_index,
            rendition_a: clone_opt(&self.rendition_a),
            rendition_b: clone_opt(&self.rendition_b),
            uri_a: clone_opt(&self.uri_a),
            uri_b: clone_opt(&self.uri_b),
            message: self.message.clone(),
            uri_note: clone_opt(&self.uri_note),
            count: self.count,
            seg_first: self.seg_first,
            seg_last: self.seg_last,
        }
    }
}

impl Default for Issue {
    fn default() -> (r: Issue)
        ensures
            spec_plain_issue(Severity::Warn, -1, Seq::empty(), r),
    {
        Issue {
            severity: Severity::Warn,
            check_id: CheckId::Unassigned,
            confidence: Confidence::Measured,
            segment_index: -1,
            rendition_a: None,
            rendition_b: None,
            uri_a: None,
            uri_b: None,
            message: String::new(),
            uri_note: None,
            count: 1,
            seg_first: -1,
            seg_last: -1,
        }
    }
}

/// `b` is `a` with only the fields that `same` leaves out changed.
pub open spec fn spec_same_except_place(a: Issue, b: Issue) -> bool {
    &&& b.severity == a.severity
    &&& b.check_id == a.check_id
    &&& b.confidence == a.confidence
    &&& b.message@ == a.message@
    &&& b.count == a.count
    &&& b.seg_first == a.seg_first
    &&& b.seg_last == a.seg_last
}

impl Issue {
    /// A finding of `severity` at `segment_index`, everything else at its default.
    pub fn new(severity: Severity, segment_index: i32, message: String) -> (r: Issue)
        ensures
            spec_plain_issue(severity, segment_index as int, message@, r),
    {
        Issue {
            severity,
            check_id: CheckId::Unassigned,
            confidence: Confidence::Measured,
            segment_index,
            rendition_a: None,
            rendition_b: None,
            uri_a: None,
            uri_b: None,
            message,
            uri_note: None,
            count: 1,
            seg_first: -1,
            seg_last: -1,
        }
    }

    /// An error about the playlist as a whole.
    pub fn error(message: String) -> (r: Issue)
        ensures
            spec_plain_issue(Severity::Error, -1, message@, r),
    {
        Issue::new(Severity::Error, -1, message)
    }

    /// A warning about the playlist as a whole.
    pub fn warn(message: String) -> (r: Issue)
        ensures
            spec_plain_issue(Severity::Warn, -1, message@, r),
    {
        Issue::new(Severity::Warn, -1, message)
    }

    /// An informational finding about the playlist as a whole.
    pub fn info(message: String) -> (r: Issue)
        ensures
            spec_plain_issue(Severity::Info, -1, message@, r),
    {
        Issue::new(Severity::Info, -1, message)
    }

    /// Name the check that produced this finding, so the report can group it.
    pub fn for_check(self, check_id: CheckId) -> (r: Issue)
        ensures
            r == (Issue { check_id, ..self }),
    {
        Issue { check_id, ..self }
    }

    /// Name the rendition this finding is about.
    pub fn in_rendition(self, name: &str) -> (r: Issue)
        ensures
            spec_same_except_place(self, r),
            r.rendition_a matches Some(a) && a@ == name@,
            r.rendition_b == self.rendition_b,
            r.uri_a == self.uri_a,
            r.uri_b == self.uri_b,
            r.uri_note == self.uri_note,
            r.segment_index == self.segment_index,
    {
        Issue { rendition_a: Some(String::from_str(name)), ..self }
    }

    /// Name the two renditions a rule compared against each other.
    pub fn between_renditions(self, a: &str, b: &str) -> (r: Issue)
        ensures
            spec_same_except_place(self, r),
            r.rendition_a matches Some(x) && x@ == a@,
            r.rendition_b matches Some(y) && y@ == b@,
            r.uri_a == self.uri_a,
            r.uri_b == self.uri_b,
            r.uri_note == self.uri_note,
            r.segment_index == self.segment_index,
    {
        Issue { rendition_a: Some(String::from_str(a)), rendition_b: Some(String::from_str(b)), ..self }
    }

    /// Record what the finding was measured on: the playlist, segment or part the reader
    /// would open to see it for themselves.
    pub fn at_uri(self, uri: &str) -> (r: Issue)
        ensures
            spec_same_except_place(self, r),
            r.uri_a matches Some(x) && x@ == uri@,
            r.rendition_a == self.rendition_a,
            r.rendition_b == self.rendition_b,
            r.uri_b == self.uri_b,
            r.uri_note == self.uri_note,
            r.segment_index == self.segment_index,
    {
        Issue { uri_a: Some(String::from_str(uri)), ..self }
    }

    /// Record both sides of a comparison between two segments.
    pub fn between_uris(self, a: &str, b: &str) -> (r: Issue)
        ensures
            spec_same_except_place(self, r),
            r.uri_a matches Some(x) && x@ == a@,
            r.uri_b matches Some(y) && y@ == b@,
            r.rendition_a == self.rendition_a,
            r.rendition_b == self.rendition_b,
            r.uri_note == self.uri_note,
            r.segment_index == self.segment_index,
    {
        Issue { uri_a: Some(String::from_str(a)), uri_b: Some(String::from_str(b)), ..self }
    }

    /// The segment or Media Sequence Number this finding is about.
    pub fn at_segment(self, index: i32) -> (r: Issue)
        ensures
            r == (Issue { segment_index: index, ..self }),
    {
        Issue { segment_index: index, ..self }
    }

    /// An aside for the report to show under the message.
    pub fn with_note(self, note: &str) -> (r: Issue)
        ensures
            spec_same_except_place(self, r),
            r.uri_note matches Some(x) && x@ == note@,
            r.rendition_a == self.rendition_a,
            r.rendition_b == self.rendition_b,
            r.uri_a == self.uri_a,
            r.uri_b == self.uri_b,
            r.segment_index == self.segment_index,
    {
        Issue { uri_note: Some(String::from_str(note)), ..self }
    }

    /// Record how the evidence for this finding was obtained, keeping the severity the
    /// rule chose.
    pub fn with_confidence(self, confidence: Confidence) -> (r: Issue)
        ensures
            r == (Issue { confidence, ..self }),
    {
        Issue { confidence, ..self }
    }
}

/// One EXT-X-DATERANGE tag, as the parser read it: every attribute/value pair, with the
/// names upper-cased as `parse_attributes` reads them.
#[derive(Debug, Clone)]
pub struct DateRange {
    /// The ID attribute, absent when the tag omits it.
    pub id: Option<String>,
    pub attributes: TextMap,
    /// The attribute text as written.
    pub raw_attributes: String,
}

impl DateRange {
    /// Whether this Date Range declares itself an HLS Interstitial (§D.2): its CLASS names
    /// `com.apple.hls.interstitial`.
    pub fn is_interstitial(&self) -> (r: bool)
        ensures
            r == (self.attributes@.contains_key("CLASS"@) && spec_contains(
                self.attributes@["CLASS"@],
                "com.apple.hls.interstitial"@,
            )),
    {
        match self.attributes.get("CLASS") {
            Some(class) => contains(class.as_str(), "com.apple.hls.interstitial"),
            None => false,
        }
    }
}

/// One EXT-X-MAP tag: the URI and BYTERANGE that were written together. The URI is kept
/// as written, since it may hold `{$VAR}` references.
#[derive(Debug, Clone, PartialEq, Eq)]
pub struct InitMap {
    pub uri: String,
    pub byterange: Option<String>,
}

/// HTTP response metadata captured when fetching a playlist.
#[derive(Debug, Clone, Default)]
pub struct PlaylistHttpMeta {
    pub request_url: String,
    pub final_url: String,
    pub content_encoding: Option<String>,
    /// `Content-Length` from the response, which counts the bytes as sent.
    pub content_length: Option<u64>,
    /// Bytes of the playlist text after the browser decoded any content coding.
    pub body_bytes: Option<u64>,
    pub last_modified: Option<String>,
    pub date: Option<String>,
}

/// One EXT-X-MEDIA tag of a multivariant playlist.
#[derive(Debug, Clone)]
pub struct MediaRendition {
    pub media_type: String,
    pub group_id: String,
    pub name: String,
    /// The URI as written, which may hold `{$VAR}` references.
    pub uri: Option<String>,
    pub language: Option<String>,
    pub autoselect: bool,
    pub channels: Option<String>,
    pub characteristics: Option<String>,
    pub forced: bool,
}

/// One EXT-X-RENDITION-REPORT of a Low-Latency media playlist.
#[derive(Debug, Clone)]
pub struct RenditionReport {
    pub uri: String,
    pub last_msn: i64,
}

/// One row of the report table and the findings filed under it.
#[derive(Debug, Clone)]
pub struct CheckGroup {
    pub name: String,
    pub section: String,
    pub reference: String,
    /// "PASS", "FAIL", "WARN", "INFO", or "N/A". "N/A" says the run held nothing for this
    /// check to read: it did not pass and it did not run.
    pub status: String,
    pub issues: Vec<Issue>,
}

/// What one validation run had to work with, so a check with nothing to read can be told
/// apart from a check that read the stream and found nothing wrong.
#[derive(Debug, Clone, Copy, Default)]
pub struct RunInputs {
    /// The stream was reached through a Multivariant Playlist.
    pub has_master: bool,
    /// The Multivariant Playlist declares an I-frame Variant Stream.
    pub has_iframe_variants: bool,
    /// Media Playlists that were fetched and parsed.
    pub playlists: usize,
    /// VIDEO Media Playlists that are not I-frame only: what the drift checks compare.
    pub video_playlists: usize,
    /// Those of them that have ENDLIST, which is all the segment-count check compares.
    pub vod_video_playlists: usize,
    /// A playlist carries an interstitial EXT-X-DATERANGE.
    pub has_interstitials: bool,
    /// A playlist carries EXT-X-PART, EXT-X-PART-INF or EXT-X-SERVER-CONTROL.
    pub has_low_latency_tags: bool,
    /// A Playlist Delta Update was requested from at least one rendition.
    pub delta_probed: bool,
    /// A playlist declares EXT-X-KEY.
    pub has_encryption: bool,
    /// A playlist carries EXT-X-DATERANGE tags.
    pub has_dateranges: bool,
    /// A playlist carries EXT-X-PROGRAM-DATE-TIME tags.
    pub has_pdt_tags: bool,
    /// A playlist declares a variable with EXT-X-DEFINE.
    pub has_defines: bool,
}

impl RunInputs {
    /// Everything available, for grouping findings when what the run read does not matter.
    pub fn everything() -> (r: RunInputs)
        ensures
            r == (RunInputs {
                has_master: true,
                has_iframe_variants: true,
                playlists: 2,
                video_playlists: 2,
                vod_video_playlists: 2,
                has_interstitials: true,
                has_low_latency_tags: true,
                delta_probed: true,
                has_encryption: true,
                has_dateranges: true,
                has_pdt_tags: true,
                has_defines: true,
            }),
    {
        RunInputs {
            has_master: true,
            has_iframe_variants: true,
            playlists: 2,
            video_playlists: 2,
            vod_video_playlists: 2,
            has_interstitials: true,
            has_low_latency_tags: true,
            delta_probed: true,
            has_encryption: true,
            has_dateranges: true,
            has_pdt_tags: true,
            has_defines: true,
        }
    }
}

} // verus!
