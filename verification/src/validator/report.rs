//! How findings are grouped into the rows of the report table.

use vstd::prelude::*;
use vstd::string::StringExecFns;
use crate::validator::types::{spec_issue_same, CheckGroup, CheckId, Issue, RunInputs, Severity};

verus! {

/// What a run must have held for a check to have had something to read.
#[derive(Debug, Clone, Copy, PartialEq, Eq, Structural)]
pub enum Applies {
    /// Every run: such a check is only ever PASS, WARN or FAIL.
    Always,
    /// More than one media playlist.
    SeveralPlaylists,
    /// A playlist declares EXT-X-KEY.
    Encryption,
    /// A Playlist Delta Update was requested.
    DeltaProbed,
    /// A multivariant playlist.
    Master,
    /// An I-frame Variant Stream.
    IFrameVariants,
    /// PROGRAM-DATE-TIME tags or Date Ranges.
    PdtOrDateRanges,
    /// PROGRAM-DATE-TIME tags and more than one video playlist.
    PdtAndSeveralVideo,
    /// More than one video playlist.
    SeveralVideo,
    /// Date Ranges and more than one media playlist.
    DateRangesAndSeveralPlaylists,
    /// More than one finished video playlist.
    SeveralVodVideo,
    /// An EXT-X-DEFINE.
    Defines,
    /// Low-Latency tags.
    LowLatency,
    /// An interstitial Date Range.
    Interstitials,
}

/// Whether a run with `r` held what a check with condition `a` reads.
pub open spec fn spec_applies(a: Applies, r: RunInputs) -> bool {
    match a {
        Applies::Always => true,
        Applies::SeveralPlaylists => r.playlists > 1,
        Applies::Encryption => r.has_encryption,
        Applies::DeltaProbed => r.delta_probed,
        Applies::Master => r.has_master,
        Applies::IFrameVariants => r.has_iframe_variants,
        Applies::PdtOrDateRanges => r.has_pdt_tags || r.has_dateranges,
        Applies::PdtAndSeveralVideo => r.has_pdt_tags && r.video_playlists > 1,
        Applies::SeveralVideo => r.video_playlists > 1,
        Applies::DateRangesAndSeveralPlaylists => r.has_dateranges && r.playlists > 1,
        Applies::SeveralVodVideo => r.vod_video_playlists > 1,
        Applies::Defines => r.has_defines,
        Applies::LowLatency => r.has_low_latency_tags,
        Applies::Interstitials => r.has_interstitials,
    }
}

impl Applies {
    /// Whether a run with `r` held what a check with this condition reads.
    pub fn holds(self, r: &RunInputs) -> (b: bool)
        ensures
            b == spec_applies(self, *r),
    {
        match self {
            Applies::Always => true,
            Applies::SeveralPlaylists => r.playlists > 1,
            Applies::Encryption => r.has_encryption,
            Applies::DeltaProbed => r.delta_probed,
            Applies::Master => r.has_master,
            Applies::IFrameVariants => r.has_iframe_variants,
            Applies::PdtOrDateRanges => r.has_pdt_tags || r.has_dateranges,
            Applies::PdtAndSeveralVideo => r.has_pdt_tags && r.video_playlists > 1,
            Applies::SeveralVideo => r.video_playlists > 1,
            Applies::DateRangesAndSeveralPlaylists => r.has_dateranges && r.playlists > 1,
            Applies::SeveralVodVideo => r.vod_video_playlists > 1,
            Applies::Defines => r.has_defines,
            Applies::LowLatency => r.has_low_latency_tags,
            Applies::Interstitials => r.has_interstitials,
        }
    }
}

/// How a check is presented in the report table.
#[derive(Debug, Clone, Copy)]
pub struct CheckDef {
    pub id: CheckId,
    pub name: &'static str,
    pub section: &'static str,
    pub reference: &'static str,
    /// Whether the run held what this check reads. A check with nothing to read is
    /// reported N/A: it did not pass and it did not run.
    pub applies: Applies,
}

/// The report table, in display order.
pub open spec fn spec_check_defs() -> Seq<CheckDef> {
    seq![
        CheckDef { id: CheckId::ExtM3uHeader, name: "EXTM3U Header", section: "Basic Tags", reference: "rfc8216bis §4.4.1.1", applies: Applies::Always },
        CheckDef { id: CheckId::SingletonTags, name: "Singleton Tags", section: "Structural", reference: "rfc8216bis §4.4.1.2/§4.4.2/§4.4.3", applies: Applies::Always },
        CheckDef { id: CheckId::TargetDurationCompliance, name: "Target Duration Compliance", section: "Structural", reference: "rfc8216bis §4.4.3.1", applies: Applies::Always },
        CheckDef { id: CheckId::MediaSequenceTags, name: "Media Sequence Tags", section: "Structural", reference: "rfc8216bis §4.4.3.2", applies: Applies::Always },
        CheckDef { id: CheckId::DiscontinuitySequence, name: "Discontinuity Sequence", section: "Alignment", reference: "rfc8216bis §4.4.3.3/§6.2.4", applies: Applies::SeveralPlaylists },
        CheckDef { id: CheckId::PlaylistTypeEndlist, name: "Playlist Type / ENDLIST", section: "Structural", reference: "rfc8216bis §4.4.3.5", applies: Applies::Always },
        CheckDef { id: CheckId::SegmentStructure, name: "Segment Structure", section: "Structural", reference: "rfc8216bis §4.4.4.1", applies: Applies::Always },
        CheckDef { id: CheckId::EncryptionConsistency, name: "Encryption Consistency", section: "Security", reference: "rfc8216bis §4.4.4.4", applies: Applies::Encryption },
        CheckDef { id: CheckId::DeltaUpdates, name: "Playlist Delta Updates", section: "LL-HLS", reference: "rfc8216bis §4.4.5.2/§6.2.5.1", applies: Applies::DeltaProbed },
        CheckDef { id: CheckId::BandwidthRequired, name: "BANDWIDTH Required", section: "Multivariant", reference: "rfc8216bis §4.4.6.2", applies: Applies::Master },
        CheckDef { id: CheckId::StreamInfConsistency, name: "STREAM-INF Consistency", section: "Multivariant", reference: "rfc8216bis §4.4.6.2/§6.2.4", applies: Applies::Master },
        CheckDef { id: CheckId::RenditionGroupReferences, name: "Rendition Group References", section: "Multivariant", reference: "rfc8216bis §4.4.6.2", applies: Applies::Master },
        CheckDef { id: CheckId::MediaGroupMembership, name: "Media Group Membership", section: "Multivariant", reference: "rfc8216bis §4.4.6.1.1", applies: Applies::Master },
        CheckDef { id: CheckId::IFramePlaylists, name: "I-Frame Playlists", section: "Multivariant", reference: "rfc8216bis §4.4.6.3", applies: Applies::IFrameVariants },
        CheckDef { id: CheckId::LivePlaylistWindow, name: "Live Playlist Window", section: "Live", reference: "rfc8216bis §6.2.2", applies: Applies::Always },
        CheckDef { id: CheckId::PdtCoverage, name: "PDT Coverage", section: "Timing", reference: "rfc8216bis §6.2.4/§4.4.5.1", applies: Applies::PdtOrDateRanges },
        CheckDef { id: CheckId::PdtAlignment, name: "PDT Alignment", section: "Alignment", reference: "rfc8216bis §6.2.4", applies: Applies::PdtAndSeveralVideo },
        CheckDef { id: CheckId::TargetDurationConsistency, name: "Target Duration Consistency", section: "Alignment", reference: "rfc8216bis §6.2.4", applies: Applies::SeveralPlaylists },
        CheckDef { id: CheckId::CumulativeDrift, name: "Cumulative Drift", section: "Alignment", reference: "rfc8216bis §6.2.4", applies: Applies::SeveralVideo },
        CheckDef { id: CheckId::DateRangeConsistency, name: "Date Range Consistency", section: "Alignment", reference: "rfc8216bis §6.2.4", applies: Applies::DateRangesAndSeveralPlaylists },
        CheckDef { id: CheckId::DurationDrift, name: "EXTINF Duration Drift", section: "Alignment", reference: "rfc8216bis §4.4.4.1", applies: Applies::SeveralVideo },
        CheckDef { id: CheckId::SegmentCount, name: "Segment Count", section: "Alignment", reference: "rfc8216bis §4.4.4.1", applies: Applies::SeveralVodVideo },
        CheckDef { id: CheckId::VariableDefinitions, name: "Variable Definitions", section: "Structural", reference: "rfc8216bis §4.4.2.3", applies: Applies::Defines },
        CheckDef { id: CheckId::VersionCompatibility, name: "Version Compatibility", section: "Version", reference: "rfc8216bis §8", applies: Applies::Always },
        CheckDef { id: CheckId::LlHls, name: "LL-HLS Compliance", section: "LL-HLS", reference: "rfc8216bis §4.4.3–4.4.5", applies: Applies::LowLatency },
        CheckDef { id: CheckId::Interstitials, name: "HLS Interstitials", section: "Interstitials", reference: "rfc8216bis Appendix D", applies: Applies::Interstitials },
        CheckDef { id: CheckId::PlaylistFetch, name: "Playlist Retrieval", section: "Delivery", reference: "rfc8216bis §6.2", applies: Applies::Always },
    ]
}

/// The report table, in display order: one row per check.
pub fn check_defs() -> (r: Vec<CheckDef>)
    ensures
        r@ == spec_check_defs(),
{
    vec![
        CheckDef { id: CheckId::ExtM3uHeader, name: "EXTM3U Header", section: "Basic Tags", reference: "rfc8216bis §4.4.1.1", applies: Applies::Always },
        CheckDef { id: CheckId::SingletonTags, name: "Singleton Tags", section: "Structural", reference: "rfc8216bis §4.4.1.2/§4.4.2/§4.4.3", applies: Applies::Always },
        CheckDef { id: CheckId::TargetDurationCompliance, name: "Target Duration Compliance", section: "Structural", reference: "rfc8216bis §4.4.3.1", applies: Applies::Always },
        CheckDef { id: CheckId::MediaSequenceTags, name: "Media Sequence Tags", section: "Structural", reference: "rfc8216bis §4.4.3.2", applies: Applies::Always },
        CheckDef { id: CheckId::DiscontinuitySequence, name: "Discontinuity Sequence", section: "Alignment", reference: "rfc8216bis §4.4.3.3/§6.2.4", applies: Applies::SeveralPlaylists },
        CheckDef { id: CheckId::PlaylistTypeEndlist, name: "Playlist Type / ENDLIST", section: "Structural", reference: "rfc8216bis §4.4.3.5", applies: Applies::Always },
        CheckDef { id: CheckId::SegmentStructure, name: "Segment Structure", section: "Structural", reference: "rfc8216bis §4.4.4.1", applies: Applies::Always },
        CheckDef { id: CheckId::EncryptionConsistency, name: "Encryption Consistency", section: "Security", reference: "rfc8216bis §4.4.4.4", applies: Applies::Encryption },
        CheckDef { id: CheckId::DeltaUpdates, name: "Playlist Delta Updates", section: "LL-HLS", reference: "rfc8216bis §4.4.5.2/§6.2.5.1", applies: Applies::DeltaProbed },
        CheckDef { id: CheckId::BandwidthRequired, name: "BANDWIDTH Required", section: "Multivariant", reference: "rfc8216bis §4.4.6.2", applies: Applies::Master },
        CheckDef { id: CheckId::StreamInfConsistency, name: "STREAM-INF Consistency", section: "Multivariant", reference: "rfc8216bis §4.4.6.2/§6.2.4", applies: Applies::Master },
        CheckDef { id: CheckId::RenditionGroupReferences, name: "Rendition Group References", section: "Multivariant", reference: "rfc8216bis §4.4.6.2", applies: Applies::Master },
        CheckDef { id: CheckId::MediaGroupMembership, name: "Media Group Membership", section: "Multivariant", reference: "rfc8216bis §4.4.6.1.1", applies: Applies::Master },
        CheckDef { id: CheckId::IFramePlaylists, name: "I-Frame Playlists", section: "Multivariant", reference: "rfc8216bis §4.4.6.3", applies: Applies::IFrameVariants },
        CheckDef { id: CheckId::LivePlaylistWindow, name: "Live Playlist Window", section: "Live", reference: "rfc8216bis §6.2.2", applies: Applies::Always },
        CheckDef { id: CheckId::PdtCoverage, name: "PDT Coverage", section: "Timing", reference: "rfc8216bis §6.2.4/§4.4.5.1", applies: Applies::PdtOrDateRanges },
        CheckDef { id: CheckId::PdtAlignment, name: "PDT Alignment", section: "Alignment", reference: "rfc8216bis §6.2.4", applies: Applies::PdtAndSeveralVideo },
        CheckDef { id: CheckId::TargetDurationConsistency, name: "Target Duration Consistency", section: "Alignment", reference: "rfc8216bis §6.2.4", applies: Applies::SeveralPlaylists },
        CheckDef { id: CheckId::CumulativeDrift, name: "Cumulative Drift", section: "Alignment", reference: "rfc8216bis §6.2.4", applies: Applies::SeveralVideo },
        CheckDef { id: CheckId::DateRangeConsistency, name: "Date Range Consistency", section: "Alignment", reference: "rfc8216bis §6.2.4", applies: Applies::DateRangesAndSeveralPlaylists },
        CheckDef { id: CheckId::DurationDrift, name: "EXTINF Duration Drift", section: "Alignment", reference: "rfc8216bis §4.4.4.1", applies: Applies::SeveralVideo },
        CheckDef { id: CheckId::SegmentCount, name: "Segment Count", section: "Alignment", reference: "rfc8216bis §4.4.4.1", applies: Applies::SeveralVodVideo },
        CheckDef { id: CheckId::VariableDefinitions, name: "Variable Definitions", section: "Structural", reference: "rfc8216bis §4.4.2.3", applies: Applies::Defines },
        CheckDef { id: CheckId::VersionCompatibility, name: "Version Compatibility", section: "Version", reference: "rfc8216bis §8", applies: Applies::Always },
        CheckDef { id: CheckId::LlHls, name: "LL-HLS Compliance", section: "LL-HLS", reference: "rfc8216bis §4.4.3–4.4.5", applies: Applies::LowLatency },
        CheckDef { id: CheckId::Interstitials, name: "HLS Interstitials", section: "Interstitials", reference: "rfc8216bis Appendix D", applies: Applies::Interstitials },
        CheckDef { id: CheckId::PlaylistFetch, name: "Playlist Retrieval", section: "Delivery", reference: "rfc8216bis §6.2", applies: Applies::Always },
    ]
}

/// Whether check `id` has a row among the first `m` rows of `defs`.
pub open spec fn spec_has_row(defs: Seq<CheckDef>, id: CheckId, m: int) -> bool {
    exists|k: int| 0 <= k < m && #[trigger] defs[k].id == id
}

/// Every check but `Unassigned` has exactly one row in the report table, and
/// `Unassigned` has none: its findings go to the catch-all group.
pub proof fn lemma_check_defs_cover_every_check_id()
    ensures
        forall|id: CheckId| id != CheckId::Unassigned ==> #[trigger] spec_has_row(spec_check_defs(), id, spec_check_defs().len() as int),
        !spec_has_row(spec_check_defs(), CheckId::Unassigned, spec_check_defs().len() as int),
        forall|i: int, j: int|
            0 <= i < j < spec_check_defs().len() ==> spec_check_defs()[i].id != spec_check_defs()[j].id,
{
    let defs = spec_check_defs();
    assert forall|id: CheckId| id != CheckId::Unassigned implies #[trigger] spec_has_row(defs, id, defs.len() as int) by {
        match id {
            CheckId::Unassigned => {},
                CheckId::ExtM3uHeader => { assert(defs[0].id == id); },
                CheckId::SingletonTags => { assert(defs[1].id == id); },
                CheckId::TargetDurationCompliance => { assert(defs[2].id == id); },
                CheckId::MediaSequenceTags => { assert(defs[3].id == id); },
                CheckId::DiscontinuitySequence => { assert(defs[4].id == id); },
                CheckId::PlaylistTypeEndlist => { assert(defs[5].id == id); },
                CheckId::SegmentStructure => { assert(defs[6].id == id); },
                CheckId::EncryptionConsistency => { assert(defs[7].id == id); },
                CheckId::DeltaUpdates => { assert(defs[8].id == id); },
                CheckId::BandwidthRequired => { assert(defs[9].id == id); },
                CheckId::StreamInfConsistency => { assert(defs[10].id == id); },
                CheckId::RenditionGroupReferences => { assert(defs[11].id == id); },
                CheckId::MediaGroupMembership => { assert(defs[12].id == id); },
                CheckId::IFramePlaylists => { assert(defs[13].id == id); },
                CheckId::LivePlaylistWindow => { assert(defs[14].id == id); },
                CheckId::PdtCoverage => { assert(defs[15].id == id); },
                CheckId::PdtAlignment => { assert(defs[16].id == id); },
                CheckId::TargetDurationConsistency => { assert(defs[17].id == id); },
                CheckId::CumulativeDrift => { assert(defs[18].id == id); },
                CheckId::DateRangeConsistency => { assert(defs[19].id == id); },
                CheckId::DurationDrift => { assert(defs[20].id == id); },
                CheckId::SegmentCount => { assert(defs[21].id == id); },
                CheckId::VariableDefinitions => { assert(defs[22].id == id); },
                CheckId::VersionCompatibility => { assert(defs[23].id == id); },
                CheckId::LlHls => { assert(defs[24].id == id); },
                CheckId::Interstitials => { assert(defs[25].id == id); },
                CheckId::PlaylistFetch => { assert(defs[26].id == id); },
        }
    }
    assert forall|i: int, j: int| 0 <= i < j < defs.len() implies defs[i].id != defs[j].id by {
    }
}

/// The findings of `issues` that check `id` produced, in their order.
pub open spec fn spec_issues_of(issues: Seq<Issue>, id: CheckId) -> Seq<Issue>
    decreases issues.len(),
{
    if issues.len() == 0 {
        Seq::empty()
    } else if issues.last().check_id == id {
        spec_issues_of(issues.drop_last(), id).push(issues.last())
    } else {
        spec_issues_of(issues.drop_last(), id)
    }
}

/// The findings of `issues` whose check has no row in `defs`, in their order.
pub open spec fn spec_issues_without_row(issues: Seq<Issue>, defs: Seq<CheckDef>) -> Seq<Issue>
    decreases issues.len(),
{
    if issues.len() == 0 {
        Seq::empty()
    } else if !spec_has_row(defs, issues.last().check_id, defs.len() as int) {
        spec_issues_without_row(issues.drop_last(), defs).push(issues.last())
    } else {
        spec_issues_without_row(issues.drop_last(), defs)
    }
}

/// Two lists of findings say the same things in the same order.
pub open spec fn spec_issues_same(a: Seq<Issue>, b: Seq<Issue>) -> bool {
    a.len() == b.len() && forall|i: int| 0 <= i < a.len() ==> spec_issue_same(#[trigger] a[i], b[i])
}

/// The status of a group of findings: FAIL with an error, else WARN with a warning, else
/// PASS.
pub open spec fn spec_status(issues: Seq<Issue>) -> Seq<char> {
    if exists|i: int| 0 <= i < issues.len() && #[trigger] issues[i].severity == Severity::Error {
        "FAIL"@
    } else if exists|i: int| 0 <= i < issues.len() && #[trigger] issues[i].severity == Severity::Warn {
        "WARN"@
    } else {
        "PASS"@
    }
}

/// [`CheckGroup::status`] for a check the run held nothing for.
pub const NOT_APPLICABLE: &'static str = "N/A";

/// The catch-all group, so a finding whose check has no row is still shown.
pub const UNGROUPED_NAME: &'static str = "Other Findings";

fn status_of(issues: &Vec<Issue>) -> (r: &'static str)
    ensures
        r@ == spec_status(issues@),
{
    let mut i: usize = 0;
    while i < issues.len()
        invariant
            i <= issues@.len(),
            forall|j: int| 0 <= j < i ==> issues@[j].severity != Severity::Error,
        decreases issues.len() - i,
    {
        if issues[i].severity == Severity::Error {
            return "FAIL";
        }
        i = i + 1;
    }
    let mut j: usize = 0;
    while j < issues.len()
        invariant
            j <= issues@.len(),
            forall|k: int| 0 <= k < issues@.len() ==> issues@[k].severity != Severity::Error,
            forall|k: int| 0 <= k < j ==> issues@[k].severity != Severity::Warn,
        decreases issues.len() - j,
    {
        if issues[j].severity == Severity::Warn {
            return "WARN";
        }
        j = j + 1;
    }
    "PASS"
}

/// The findings of `issues` that check `id` produced.
fn issues_of(issues: &[Issue], id: CheckId) -> (r: Vec<Issue>)
    ensures
        spec_issues_same(r@, spec_issues_of(issues@, id)),
{
    let mut r: Vec<Issue> = Vec::new();
    let mut i: usize = 0;
    while i < issues.len()
        invariant
            i <= issues@.len(),
            spec_issues_same(r@, spec_issues_of(issues@.take(i as int), id)),
        decreases issues.len() - i,
    {
        proof {
            assert(issues@.take(i + 1).drop_last() =~= issues@.take(i as int));
        }
        if issues[i].check_id == id {
            r.push(issues[i].clone());
        }
        i = i + 1;
    }
    proof {
        assert(issues@.take(issues@.len() as int) =~= issues@);
    }
    r
}

fn has_row(defs: &Vec<CheckDef>, id: CheckId) -> (r: bool)
    ensures
        r == spec_has_row(defs@, id, defs@.len() as int),
{
    let mut k: usize = 0;
    while k < defs.len()
        invariant
            k <= defs@.len(),
            forall|j: int| 0 <= j < k ==> defs@[j].id != id,
        decreases defs.len() - k,
    {
        if defs[k].id == id {
            return true;
        }
        k = k + 1;
    }
    false
}

/// The findings of `issues` whose check has no row in `defs`.
fn issues_without_row(issues: &[Issue], defs: &Vec<CheckDef>) -> (r: Vec<Issue>)
    ensures
        spec_issues_same(r@, spec_issues_without_row(issues@, defs@)),
{
    let mut r: Vec<Issue> = Vec::new();
    let mut i: usize = 0;
    while i < issues.len()
        invariant
            i <= issues@.len(),
            spec_issues_same(r@, spec_issues_without_row(issues@.take(i as int), defs@)),
        decreases issues.len() - i,
    {
        proof {
            assert(issues@.take(i + 1).drop_last() =~= issues@.take(i as int));
        }
        if !has_row(defs, issues[i].check_id) {
            r.push(issues[i].clone());
        }
        i = i + 1;
    }
    proof {
        assert(issues@.take(issues@.len() as int) =~= issues@);
    }
    r
}

/// The status a row of the table reports: N/A where the check found nothing and the run
/// held nothing for it, else the status of its findings.
pub open spec fn spec_row_status(def: CheckDef, issues: Seq<Issue>, inputs: RunInputs) -> Seq<char> {
    if spec_issues_of(issues, def.id).len() == 0 && !spec_applies(def.applies, inputs) {
        "N/A"@
    } else {
        spec_status(spec_issues_of(issues, def.id))
    }
}

/// How many findings the groups hold in all.
pub open spec fn spec_grouped_count(groups: Seq<CheckGroup>) -> int
    decreases groups.len(),
{
    if groups.len() == 0 {
        0
    } else {
        spec_grouped_count(groups.drop_last()) + groups.last().issues@.len()
    }
}

/// How many findings of `issues` the first `m` rows of `defs` claim.
pub open spec fn spec_claimed(issues: Seq<Issue>, defs: Seq<CheckDef>, m: int) -> int
    decreases m,
{
    if m <= 0 {
        0
    } else {
        spec_claimed(issues, defs, m - 1) + spec_issues_of(issues, defs[m - 1].id).len()
    }
}

proof fn lemma_claimed_step(issues: Seq<Issue>, defs: Seq<CheckDef>, m: int)
    requires
        issues.len() > 0,
        0 <= m <= defs.len(),
        forall|i: int, j: int| 0 <= i < j < defs.len() ==> defs[i].id != defs[j].id,
    ensures
        spec_claimed(issues, defs, m) == spec_claimed(issues.drop_last(), defs, m) + if spec_has_row(
            defs,
            issues.last().check_id,
            m,
        ) {
            1int
        } else {
            0int
        },
    decreases m,
{
    if m > 0 {
        lemma_claimed_step(issues, defs, m - 1);
        let id = issues.last().check_id;
        if spec_has_row(defs, id, m) && !spec_has_row(defs, id, m - 1) {
            assert(defs[m - 1].id == id);
        }
        if spec_has_row(defs, id, m - 1) {
            let k = choose|k: int| 0 <= k < m - 1 && #[trigger] defs[k].id == id;
            assert(defs[k].id != defs[m - 1].id);
        }
    }
}

proof fn lemma_claimed_none(issues: Seq<Issue>, defs: Seq<CheckDef>, m: int)
    requires
        issues.len() == 0,
    ensures
        spec_claimed(issues, defs, m) == 0,
    decreases m,
{
    if m > 0 {
        lemma_claimed_none(issues, defs, m - 1);
    }
}

/// Every finding is claimed by exactly one group: the rows of a table whose checks are
/// distinct, and the catch-all group, together hold each finding once.
pub proof fn lemma_every_finding_is_grouped_once(issues: Seq<Issue>, defs: Seq<CheckDef>)
    requires
        forall|i: int, j: int| 0 <= i < j < defs.len() ==> defs[i].id != defs[j].id,
    ensures
        spec_claimed(issues, defs, defs.len() as int) + spec_issues_without_row(issues, defs).len() == issues.len(),
    decreases issues.len(),
{
    if issues.len() > 0 {
        lemma_every_finding_is_grouped_once(issues.drop_last(), defs);
        lemma_claimed_step(issues, defs, defs.len() as int);
    } else {
        lemma_claimed_none(issues, defs, defs.len() as int);
    }
}

/// Groups findings by the check that produced them, one group per row of the report
/// table in table order, and a last group for findings whose check has no row, present
/// only when there are such findings.
///
/// A row whose check found nothing is reported N/A where the run held nothing for it to
/// read; a finding is proof the check ran, so a row with findings is never N/A.
pub fn categorize_issues(issues: &[Issue], inputs: &RunInputs) -> (r: Vec<CheckGroup>)
    ensures
        ({
            let defs = spec_check_defs();
            let rest = spec_issues_without_row(issues@, defs);
            &&& r@.len() == defs.len() + if rest.len() > 0 { 1int } else { 0int }
            &&& forall|k: int|
                0 <= k < defs.len() ==> {
                    &&& (#[trigger] r@[k]).name@ == defs[k].name@
                    &&& r@[k].section@ == defs[k].section@
                    &&& r@[k].reference@ == defs[k].reference@
                    &&& r@[k].status@ == spec_row_status(defs[k], issues@, *inputs)
                    &&& spec_issues_same(r@[k].issues@, spec_issues_of(issues@, defs[k].id))
                }
            &&& rest.len() > 0 ==> {
                let g = r@[defs.len() as int];
                &&& g.name@ == UNGROUPED_NAME@
                &&& g.section@ == "Other"@
                &&& g.reference@ == "rfc8216bis"@
                &&& g.status@ == spec_status(rest)
                &&& spec_issues_same(g.issues@, rest)
            }
            &&& spec_grouped_count(r@) == issues@.len()
        }),
{
    let defs = check_defs();
    let mut groups: Vec<CheckGroup> = Vec::new();
    let mut k: usize = 0;
    while k < defs.len()
        invariant
            k <= defs@.len(),
            defs@ == spec_check_defs(),
            groups@.len() == k,
            forall|j: int|
                0 <= j < k ==> {
                    &&& (#[trigger] groups@[j]).name@ == defs@[j].name@
                    &&& groups@[j].section@ == defs@[j].section@
                    &&& groups@[j].reference@ == defs@[j].reference@
                    &&& groups@[j].status@ == spec_row_status(defs@[j], issues@, *inputs)
                    &&& spec_issues_same(groups@[j].issues@, spec_issues_of(issues@, defs@[j].id))
                },
            spec_grouped_count(groups@) == spec_claimed(issues@, defs@, k as int),
        decreases defs.len() - k,
    {
        let def = defs[k];
        let matched = issues_of(issues, def.id);
        let status = if matched.len() == 0 && !def.applies.holds(inputs) {
            NOT_APPLICABLE
        } else {
            status_of(&matched)
        };
        proof {
            let spec_matched = spec_issues_of(issues@, def.id);
            if exists|i: int| 0 <= i < spec_matched.len() && #[trigger] spec_matched[i].severity == Severity::Error {
                let i = choose|i: int| 0 <= i < spec_matched.len() && #[trigger] spec_matched[i].severity == Severity::Error;
                assert(spec_issue_same(matched@[i], spec_matched[i]));
            }
            if exists|i: int| 0 <= i < spec_matched.len() && #[trigger] spec_matched[i].severity == Severity::Warn {
                let i = choose|i: int| 0 <= i < spec_matched.len() && #[trigger] spec_matched[i].severity == Severity::Warn;
                assert(spec_issue_same(matched@[i], spec_matched[i]));
            }
            if exists|i: int| 0 <= i < matched@.len() && #[trigger] matched@[i].severity == Severity::Error {
                let i = choose|i: int| 0 <= i < matched@.len() && #[trigger] matched@[i].severity == Severity::Error;
                assert(spec_issue_same(matched@[i], spec_matched[i]));
            }
            if exists|i: int| 0 <= i < matched@.len() && #[trigger] matched@[i].severity == Severity::Warn {
                let i = choose|i: int| 0 <= i < matched@.len() && #[trigger] matched@[i].severity == Severity::Warn;
                assert(spec_issue_same(matched@[i], spec_matched[i]));
            }
            assert(spec_status(matched@) == spec_status(spec_matched));
        }
        let group = CheckGroup {
            name: String::from_str(def.name),
            section: String::from_str(def.section),
            reference: String::from_str(def.reference),
            status: String::from_str(status),
            issues: matched,
        };
        let ghost before = groups@;
        groups.push(group);
        proof {
            assert(groups@.drop_last() =~= before);
        }
        k = k + 1;
    }
    let rest = issues_without_row(issues, &defs);
    proof {
        lemma_check_defs_cover_every_check_id();
        lemma_every_finding_is_grouped_once(issues@, defs@);
    }
    if rest.len() > 0 {
        let status = status_of(&rest);
        proof {
            let spec_rest = spec_issues_without_row(issues@, defs@);
            if exists|i: int| 0 <= i < spec_rest.len() && #[trigger] spec_rest[i].severity == Severity::Error {
                let i = choose|i: int| 0 <= i < spec_rest.len() && #[trigger] spec_rest[i].severity == Severity::Error;
                assert(spec_issue_same(rest@[i], spec_rest[i]));
            }
            if exists|i: int| 0 <= i < spec_rest.len() && #[trigger] spec_rest[i].severity == Severity::Warn {
                let i = choose|i: int| 0 <= i < spec_rest.len() && #[trigger] spec_rest[i].severity == Severity::Warn;
                assert(spec_issue_same(rest@[i], spec_rest[i]));
            }
            if exists|i: int| 0 <= i < rest@.len() && #[trigger] rest@[i].severity == Severity::Error {
                let i = choose|i: int| 0 <= i < rest@.len() && #[trigger] rest@[i].severity == Severity::Error;
                assert(spec_issue_same(rest@[i], spec_rest[i]));
            }
            if exists|i: int| 0 <= i < rest@.len() && #[trigger] rest@[i].severity == Severity::Warn {
                let i = choose|i: int| 0 <= i < rest@.len() && #[trigger] rest@[i].severity == Severity::Warn;
                assert(spec_issue_same(rest@[i], spec_rest[i]));
            }
        }
        let group = CheckGroup {
            name: String::from_str(UNGROUPED_NAME),
            section: String::from_str("Other"),
            reference: String::from_str("rfc8216bis"),
            status: String::from_str(status),
            issues: rest,
        };
        let ghost before = groups@;
        groups.push(group);
        proof {
            assert(groups@.drop_last() =~= before);
        }
    }
    groups
}


/// How many of the first `n` findings have severity `sev`.
pub open spec fn spec_severity_count(issues: Seq<Issue>, sev: Severity, n: int) -> nat
    decreases n,
{
    if n <= 0 {
        0
    } else {
        spec_severity_count(issues, sev, n - 1) + if issues[n - 1].severity == sev { 1nat } else { 0nat }
    }
}

/// The totals of a report: how many findings of each severity, and the verdict.
#[derive(Debug, Clone, PartialEq)]
pub struct ReportTotals {
    pub total_errors: usize,
    pub total_warnings: usize,
    pub total_info: usize,
    /// "FAIL" where there is an error, "PASS" otherwise.
    pub result: String,
}

fn severity_count(issues: &[Issue], sev: Severity) -> (r: usize)
    ensures
        r == spec_severity_count(issues@, sev, issues@.len() as int),
{
    let mut count: usize = 0;
    let mut i: usize = 0;
    while i < issues.len()
        invariant
            i <= issues@.len(),
            count == spec_severity_count(issues@, sev, i as int),
            count <= i,
        decreases issues.len() - i,
    {
        if issues[i].severity == sev {
            count = count + 1;
        }
        i = i + 1;
    }
    count
}

/// The totals a finished report carries: findings counted by severity, and FAIL where
/// any of them is an error.
pub fn report_totals(issues: &[Issue]) -> (r: ReportTotals)
    ensures
        r.total_errors == spec_severity_count(issues@, Severity::Error, issues@.len() as int),
        r.total_warnings == spec_severity_count(issues@, Severity::Warn, issues@.len() as int),
        r.total_info == spec_severity_count(issues@, Severity::Info, issues@.len() as int),
        r.result@ == (if r.total_errors > 0 { "FAIL"@ } else { "PASS"@ }),
{
    let total_errors = severity_count(issues, Severity::Error);
    let total_warnings = severity_count(issues, Severity::Warn);
    let total_info = severity_count(issues, Severity::Info);
    let result = if total_errors > 0 { String::from_str("FAIL") } else { String::from_str("PASS") };
    ReportTotals { total_errors, total_warnings, total_info, result }
}


/// Every finding is counted once: the totals of a report add up to its findings.
pub proof fn lemma_totals_add_up(issues: Seq<Issue>, n: int)
    requires
        0 <= n <= issues.len(),
    ensures
        spec_severity_count(issues, Severity::Error, n) + spec_severity_count(issues, Severity::Warn, n)
            + spec_severity_count(issues, Severity::Info, n) == n,
    decreases n,
{
    if n > 0 {
        lemma_totals_add_up(issues, n - 1);
    }
}

} // verus!
