use vstd::prelude::*;
use vstd::string::StringExecFns;
use std::collections::HashMap;
use crate::live::{spec_fetchable, EdgePart, EdgeSegment};
use crate::text::{push_decimal, push_str, spec_decimal, str_equals_text, str_lex_lt, spec_lex_lt, lemma_lex_irreflexive, lemma_lex_transitive, lemma_lex_total};

verus! {

pub const DEFAULT_PLAYLIST_REQUESTS: usize = 4;
pub const DEFAULT_MEDIA_PAIRS: usize = 4;
pub const MIN_PLAYLIST_REQUESTS: usize = 1;
pub const MAX_PLAYLIST_REQUESTS: usize = 20;
pub const MIN_MEDIA_PAIRS: usize = 1;
pub const MAX_MEDIA_PAIRS: usize = 10;

/// Bytes a Timing run may download before it stops starting new pairs. Checked after each
/// pair against what actually arrived, so a stream whose segments are far larger than its
/// BANDWIDTH suggests still cannot run away with the user's connection.
pub const BYTE_BUDGET: u64 = 157286400;

/// How much Timing to do. Both counts are clamped, so a pasted or spun value cannot ask
/// for a thousand requests.
#[derive(Debug, Clone, Copy, PartialEq, Eq, Structural)]
pub struct TimingOptions {
    /// Repeats of the selected media playlist. The multivariant playlist is fetched once
    /// on top of these.
    pub playlist_requests: usize,
    /// Video+audio pairs. Each pair is two concurrent requests, or one for a muxed
    /// rendition.
    pub media_pairs: usize,
    /// Whether the playlist rows are wanted at all.
    pub playlist_timing: bool,
    /// Whether media bytes may be downloaded from a finished asset: `EXT-X-ENDLIST`
    /// present, segments strided across the whole duration. This flag never waits at a
    /// live edge, because striding a sliding window would report percentages of an asset
    /// that is still being written.
    pub media_timing: bool,
    /// Whether the live edge may be watched: blocking reloads or polling, then the item
    /// that appeared. Costs waits rather than a stride, so it is asked for separately.
    pub live_timing: bool,
}

impl Default for TimingOptions {
    fn default() -> (r: TimingOptions)
        ensures
            r == (TimingOptions {
                playlist_requests: DEFAULT_PLAYLIST_REQUESTS,
                media_pairs: DEFAULT_MEDIA_PAIRS,
                playlist_timing: true,
                media_timing: false,
                live_timing: false,
            }),
    {
        TimingOptions {
            playlist_requests: DEFAULT_PLAYLIST_REQUESTS,
            media_pairs: DEFAULT_MEDIA_PAIRS,
            playlist_timing: true,
            media_timing: false,
            live_timing: false,
        }
    }
}

/// `value` brought into `[min, max]`.
pub open spec fn spec_clamp(value: int, min: int, max: int) -> int {
    if value < min {
        min
    } else if value > max {
        max
    } else {
        value
    }
}

/// `value` brought into `[min, max]`.
pub fn clamp_count(value: usize, min: usize, max: usize) -> (r: usize)
    requires
        min <= max,
    ensures
        r == spec_clamp(value as int, min as int, max as int),
{
    if value < min {
        min
    } else if value > max {
        max
    } else {
        value
    }
}

impl TimingOptions {
    /// The options as they will actually be run: both counts clamped, every flag kept.
    pub fn clamped(self) -> (r: TimingOptions)
        ensures
            r == (TimingOptions {
                playlist_requests: spec_clamp(
                    self.playlist_requests as int,
                    MIN_PLAYLIST_REQUESTS as int,
                    MAX_PLAYLIST_REQUESTS as int,
                ) as usize,
                media_pairs: spec_clamp(self.media_pairs as int, MIN_MEDIA_PAIRS as int, MAX_MEDIA_PAIRS as int) as usize,
                ..self
            }),
    {
        TimingOptions {
            playlist_requests: clamp_count(self.playlist_requests, MIN_PLAYLIST_REQUESTS, MAX_PLAYLIST_REQUESTS),
            media_pairs: clamp_count(self.media_pairs, MIN_MEDIA_PAIRS, MAX_MEDIA_PAIRS),
            ..self
        }
    }

    /// Whether either media check was asked for, so the run has a media phase to enter at
    /// all. Which of the two applies cannot be known until a playlist has said whether it
    /// carries `EXT-X-ENDLIST`; that is [`media_phase_kind`]'s job.
    pub fn wants_media_samples(self) -> (r: bool)
        ensures
            r == (self.media_timing || self.live_timing),
    {
        self.media_timing || self.live_timing
    }
}

/// What the media phase of a run does, for one playlist kind and one pair of checks.
///
/// The two media checks measure different things and neither substitutes for the other, so
/// a check that cannot apply to the playlist in hand declines out loud instead of quietly
/// running the other one.
#[derive(Debug, Clone, Copy, PartialEq, Eq, Structural)]
pub enum MediaPhaseKind {
    /// Neither media check was ticked: the run ends after the playlist rows.
    Skip,
    /// Stride a finished asset. `live_declined` is the both-boxes case, where the live edge
    /// was also asked for and there is no edge to watch.
    Vod { live_declined: bool },
    /// Watch the live edge. `vod_declined` is the both-boxes case, where a VOD stride was
    /// also asked for and this playlist is still being written.
    Live { vod_declined: bool },
    /// VOD sampling on a playlist with no `EXT-X-ENDLIST`. No media bytes are taken.
    DeclineVodOnLive,
    /// Live edge timing on a playlist that has `EXT-X-ENDLIST`. No media bytes are taken.
    DeclineLiveOnVod,
}

/// The media phase of one playlist kind and one pair of checks.
pub open spec fn spec_media_phase_kind(is_live: bool, media_timing: bool, live_timing: bool) -> MediaPhaseKind {
    if !media_timing && !live_timing {
        MediaPhaseKind::Skip
    } else if is_live {
        if live_timing {
            MediaPhaseKind::Live { vod_declined: media_timing }
        } else {
            MediaPhaseKind::DeclineVodOnLive
        }
    } else if media_timing {
        MediaPhaseKind::Vod { live_declined: live_timing }
    } else {
        MediaPhaseKind::DeclineLiveOnVod
    }
}

/// Which media phase one playlist and one pair of checks add up to.
pub fn media_phase_kind(is_live: bool, media_timing: bool, live_timing: bool) -> (r: MediaPhaseKind)
    ensures
        r == spec_media_phase_kind(is_live, media_timing, live_timing),
{
    if !media_timing && !live_timing {
        MediaPhaseKind::Skip
    } else if is_live {
        if live_timing {
            MediaPhaseKind::Live { vod_declined: media_timing }
        } else {
            MediaPhaseKind::DeclineVodOnLive
        }
    } else if media_timing {
        MediaPhaseKind::Vod { live_declined: live_timing }
    } else {
        MediaPhaseKind::DeclineLiveOnVod
    }
}

/// A media check that was asked for is never silently swapped for the other: the phase
/// runs the check that applies to the playlist, or declines the one that does not.
pub proof fn lemma_media_phase_runs_only_what_was_asked(is_live: bool, media_timing: bool, live_timing: bool)
    ensures
        spec_media_phase_kind(is_live, media_timing, live_timing) is Vod ==> media_timing && !is_live,
        spec_media_phase_kind(is_live, media_timing, live_timing) is Live ==> live_timing && is_live,
        spec_media_phase_kind(is_live, media_timing, live_timing) is Skip <==> !media_timing && !live_timing,
        (media_timing || live_timing) ==> !(spec_media_phase_kind(is_live, media_timing, live_timing) is Skip),
{
}

/// There is no monotonic clock, so there is nothing to measure with.
#[derive(Debug, Clone, Copy, PartialEq, Eq, Structural)]
pub struct ClockUnavailable;

/// What the connect timings, if any, say about the connection a request used.
#[derive(Debug, Clone, Copy, PartialEq, Eq, Structural)]
pub enum ConnectionState {
    /// A connection was opened for this request.
    NewConnection,
    /// An existing connection was reused.
    ReusedConnection,
    /// The browser did not expose the connect timings, so neither can be shown.
    Unknown,
}

impl ConnectionState {
    pub fn label(&self) -> (r: &'static str)
        ensures
            r@ == match *self {
                ConnectionState::NewConnection => "Cold (connection opened)"@,
                ConnectionState::ReusedConnection => "Warm (connection reused)"@,
                ConnectionState::Unknown => "Unknown (no Timing-Allow-Origin)"@,
            },
    {
        match self {
            ConnectionState::NewConnection => "Cold (connection opened)",
            ConnectionState::ReusedConnection => "Warm (connection reused)",
            ConnectionState::Unknown => "Unknown (no Timing-Allow-Origin)",
        }
    }
}

/// Which clock a total came from. Resource Timing wins whenever it matched an entry.
#[derive(Debug, Clone, Copy, PartialEq, Eq, Structural)]
pub enum TotalSource {
    ResourceTiming,
    AppObserved,
}

impl TotalSource {
    pub fn label(&self) -> (r: &'static str)
        ensures
            r@ == match *self {
                TotalSource::ResourceTiming => "Resource Timing"@,
                TotalSource::AppObserved => "app-observed"@,
            },
    {
        match self {
            TotalSource::ResourceTiming => "Resource Timing",
            TotalSource::AppObserved => "app-observed",
        }
    }
}

/// What the Timing phase needs from a multivariant playlist.
#[derive(Debug, Clone, Default, PartialEq)]
pub struct MasterSummary {
    pub variants: Vec<VariantSummary>,
    pub audio: Vec<AudioSummary>,
    pub definitions: HashMap<String, String>,
}

#[derive(Debug, Clone, Default, PartialEq)]
pub struct VariantSummary {
    pub uri: String,
    /// How the results table names this rendition.
    pub label: String,
    pub bandwidth: Option<u64>,
    pub is_iframe: bool,
    pub audio_group: Option<String>,
    /// True when CODECS names an audio codec, so this variant's segments are muxed and no
    /// separate audio request belongs in the pair.
    pub has_audio_codec: bool,
}

#[derive(Debug, Clone, Default, PartialEq)]
pub struct AudioSummary {
    pub name: String,
    pub group_id: String,
    /// `None` for a rendition carried inside the video segments.
    pub uri: Option<String>,
    pub is_default: bool,
}

/// Whether a rendition can be fetched on its own in group `g`: it has a URI and is in `g`.
pub open spec fn spec_candidate(a: AudioSummary, g: Seq<char>) -> bool {
    a.uri is Some && a.group_id@ == g
}

/// The index of the first candidate from `i` on that is the group's default, if any.
pub open spec fn spec_first_default(audio: Seq<AudioSummary>, g: Seq<char>, i: int) -> Option<int>
    decreases audio.len() - i,
{
    if i >= audio.len() {
        None
    } else if spec_candidate(audio[i], g) && audio[i].is_default {
        Some(i)
    } else {
        spec_first_default(audio, g, i + 1)
    }
}

/// The index of the first candidate from `i` on, if any.
pub open spec fn spec_first_candidate(audio: Seq<AudioSummary>, g: Seq<char>, i: int) -> Option<int>
    decreases audio.len() - i,
{
    if i >= audio.len() {
        None
    } else if spec_candidate(audio[i], g) {
        Some(i)
    } else {
        spec_first_candidate(audio, g, i + 1)
    }
}

/// The rendition a player would start with in group `g`: the first default among those
/// with a URI in the group, else the first with a URI in the group.
pub open spec fn spec_default_audio(audio: Seq<AudioSummary>, g: Seq<char>) -> Option<int> {
    match spec_first_default(audio, g, 0) {
        Some(i) => Some(i),
        None => spec_first_candidate(audio, g, 0),
    }
}

fn text_equals(a: &str, b: &str) -> (r: bool)
    ensures
        r == (a@ == b@),
{
    crate::query_codec::str_equals(a, b)
}

/// The audio rendition a player would start with: the group's DEFAULT if it has one, and
/// otherwise the first rendition with a URI of its own.
///
/// A variant that names no AUDIO group has no rendition to pair with, so `None` for
/// `group_id` means no pairing rather than "any group": pairing a variant with a
/// rendition from a group it never referenced would time a combination no player makes.
///
/// Renditions with no URI are muxed into the video segments and are not fetched
/// separately.
pub fn default_audio_rendition<'a>(audio: &'a [AudioSummary], group_id: Option<&str>) -> (r: Option<&'a AudioSummary>)
    ensures
        match group_id {
            None => r is None,
            Some(g) => match spec_default_audio(audio@, g@) {
                None => r is None,
                Some(i) => r == Some(&audio@[i]),
            },
        },
{
    let g = match group_id {
        None => {
            return None;
        },
        Some(g) => g,
    };
    let mut i: usize = 0;
    while i < audio.len()
        invariant
            i <= audio@.len(),
            group_id == Some(g),
            spec_first_default(audio@, g@, i as int) == spec_first_default(audio@, g@, 0),
        decreases audio.len() - i,
    {
        let a = &audio[i];
        if a.uri.is_some() && a.is_default && text_equals(a.group_id.as_str(), g) {
            return Some(a);
        }
        i = i + 1;
    }
    let mut j: usize = 0;
    while j < audio.len()
        invariant
            j <= audio@.len(),
            group_id == Some(g),
            spec_first_default(audio@, g@, 0) is None,
            spec_first_candidate(audio@, g@, j as int) == spec_first_candidate(audio@, g@, 0),
        decreases audio.len() - j,
    {
        let a = &audio[j];
        if a.uri.is_some() && text_equals(a.group_id.as_str(), g) {
            return Some(a);
        }
        j = j + 1;
    }
    None
}

/// The bandwidth a variant is ranked by: its BANDWIDTH, or 0 where it has none.
pub open spec fn spec_rung_bandwidth(v: VariantSummary) -> int {
    match v.bandwidth {
        Some(b) => b as int,
        None => 0,
    }
}

/// Whether variant `i` sorts before variant `j` on the ladder: by bandwidth, then by URI,
/// then by position in the playlist, which is the order a stable sort by
/// (bandwidth, URI) leaves.
pub open spec fn spec_rung_before(vs: Seq<VariantSummary>, i: int, j: int) -> bool {
    let bi = spec_rung_bandwidth(vs[i]);
    let bj = spec_rung_bandwidth(vs[j]);
    ||| bi < bj
    ||| bi == bj && spec_lex_lt(vs[i].uri@, vs[j].uri@)
    ||| bi == bj && vs[i].uri@ == vs[j].uri@ && i < j
}

/// Whether variant `i` is on the bitrate ladder: every variant but trick play.
pub open spec fn spec_on_ladder(vs: Seq<VariantSummary>, i: int) -> bool {
    !vs[i].is_iframe
}

/// How many of the first `n` variants are on the ladder.
pub open spec fn spec_ladder_count(vs: Seq<VariantSummary>, n: int) -> nat
    decreases n,
{
    if n <= 0 {
        0
    } else {
        spec_ladder_count(vs, n - 1) + if spec_on_ladder(vs, n - 1) { 1nat } else { 0nat }
    }
}

/// How many of the first `n` variants are on the ladder and sort before variant `c`.
pub open spec fn spec_rungs_before(vs: Seq<VariantSummary>, c: int, n: int) -> nat
    decreases n,
{
    if n <= 0 {
        0
    } else {
        spec_rungs_before(vs, c, n - 1) + if spec_on_ladder(vs, n - 1) && spec_rung_before(
            vs,
            n - 1,
            c,
        ) {
            1nat
        } else {
            0nat
        }
    }
}

/// The position of variant `c` on the sorted ladder.
pub open spec fn spec_rung_rank(vs: Seq<VariantSummary>, c: int) -> nat {
    spec_rungs_before(vs, c, vs.len() as int)
}

proof fn lemma_rung_irreflexive(vs: Seq<VariantSummary>, i: int)
    ensures
        !spec_rung_before(vs, i, i),
{
    lemma_lex_irreflexive(vs[i].uri@, 0);
}

proof fn lemma_rung_transitive(vs: Seq<VariantSummary>, i: int, j: int, k: int)
    requires
        spec_rung_before(vs, i, j),
        spec_rung_before(vs, j, k),
    ensures
        spec_rung_before(vs, i, k),
{
    let (a, b, c) = (vs[i].uri@, vs[j].uri@, vs[k].uri@);
    if spec_lex_lt(a, b) && spec_lex_lt(b, c) {
        lemma_lex_transitive(a, b, c, 0);
    }
}

proof fn lemma_rung_total(vs: Seq<VariantSummary>, i: int, j: int)
    requires
        i != j,
    ensures
        spec_rung_before(vs, i, j) || spec_rung_before(vs, j, i),
{
    let (a, b) = (vs[i].uri@, vs[j].uri@);
    if !spec_lex_lt(a, b) && !spec_lex_lt(b, a) {
        lemma_lex_total(a, b, 0);
    }
}

proof fn lemma_rung_asymmetric(vs: Seq<VariantSummary>, i: int, j: int)
    requires
        spec_rung_before(vs, i, j),
    ensures
        !spec_rung_before(vs, j, i),
{
    if spec_rung_before(vs, j, i) {
        lemma_rung_transitive(vs, i, j, i);
        lemma_rung_irreflexive(vs, i);
    }
}

/// With no ladder variant before `c`, `c` is first.
proof fn lemma_rank_zero(vs: Seq<VariantSummary>, c: int, n: int)
    requires
        forall|j: int| 0 <= j < n && spec_on_ladder(vs, j) ==> !spec_rung_before(vs, j, c),
    ensures
        spec_rungs_before(vs, c, n) == 0,
    decreases n,
{
    if n > 0 {
        lemma_rank_zero(vs, c, n - 1);
    }
}

/// Where what sorts before `d` is what sorts before `c`, and `c` itself, `d` stands one
/// place after `c`.
proof fn lemma_rank_step(vs: Seq<VariantSummary>, c: int, d: int, n: int)
    requires
        0 <= c,
        spec_on_ladder(vs, c),
        !spec_rung_before(vs, c, c),
        forall|j: int|
            0 <= j < n && spec_on_ladder(vs, j) ==> (spec_rung_before(vs, j, d) <==> (
            spec_rung_before(vs, j, c) || j == c)),
    ensures
        spec_rungs_before(vs, d, n) == spec_rungs_before(vs, c, n) + if c < n { 1nat } else { 0nat },
    decreases n,
{
    if n > 0 {
        lemma_rank_step(vs, c, d, n - 1);
    }
}

/// Where every ladder variant but `c` sorts before `c`, `c` is last.
proof fn lemma_rank_last(vs: Seq<VariantSummary>, c: int, n: int)
    requires
        0 <= c,
        spec_on_ladder(vs, c),
        !spec_rung_before(vs, c, c),
        forall|j: int| 0 <= j < n && spec_on_ladder(vs, j) ==> j == c || spec_rung_before(vs, j, c),
    ensures
        spec_ladder_count(vs, n) == spec_rungs_before(vs, c, n) + if c < n { 1nat } else { 0nat },
    decreases n,
{
    if n > 0 {
        lemma_rank_last(vs, c, n - 1);
    }
}

/// With no variant on the ladder, the ladder is empty.
proof fn lemma_no_rungs(vs: Seq<VariantSummary>, n: int)
    requires
        forall|j: int| 0 <= j < n ==> !spec_on_ladder(vs, j),
    ensures
        spec_ladder_count(vs, n) == 0,
    decreases n,
{
    if n > 0 {
        lemma_no_rungs(vs, n - 1);
    }
}

proof fn lemma_rank_below(vs: Seq<VariantSummary>, i: int, j: int, n: int)
    requires
        0 <= i,
        spec_on_ladder(vs, i),
        spec_rung_before(vs, i, j),
        !spec_rung_before(vs, i, i),
        forall|x: int| 0 <= x < n && spec_on_ladder(vs, x) && spec_rung_before(vs, x, i) ==> spec_rung_before(vs, x, j),
    ensures
        spec_rungs_before(vs, i, n) + (if i < n { 1int } else { 0int }) <= spec_rungs_before(vs, j, n),
    decreases n,
{
    if n > 0 {
        lemma_rank_below(vs, i, j, n - 1);
    }
}

/// Two different variants on the ladder never share a position in it, so the rung that
/// `mid_bandwidth_variant` returns is the only one at its position.
pub proof fn lemma_rung_rank_unique(vs: Seq<VariantSummary>, i: int, j: int)
    requires
        0 <= i < vs.len(),
        0 <= j < vs.len(),
        i != j,
        spec_on_ladder(vs, i),
        spec_on_ladder(vs, j),
    ensures
        spec_rung_rank(vs, i) != spec_rung_rank(vs, j),
{
    lemma_rung_total(vs, i, j);
    lemma_rung_irreflexive(vs, i);
    lemma_rung_irreflexive(vs, j);
    if spec_rung_before(vs, i, j) {
        assert forall|x: int| 0 <= x < vs.len() && spec_on_ladder(vs, x) && spec_rung_before(vs, x, i) implies spec_rung_before(vs, x, j) by {
            lemma_rung_transitive(vs, x, i, j);
        }
        lemma_rank_below(vs, i, j, vs.len() as int);
    } else {
        assert forall|x: int| 0 <= x < vs.len() && spec_on_ladder(vs, x) && spec_rung_before(vs, x, j) implies spec_rung_before(vs, x, i) by {
            lemma_rung_transitive(vs, x, j, i);
        }
        lemma_rank_below(vs, j, i, vs.len() as int);
    }
}

fn rung_bandwidth(v: &VariantSummary) -> (r: u64)
    ensures
        r == spec_rung_bandwidth(*v),
{
    match v.bandwidth {
        Some(b) => b,
        None => 0,
    }
}

fn rung_before(vs: &[VariantSummary], i: usize, j: usize) -> (r: bool)
    requires
        i < vs@.len(),
        j < vs@.len(),
    ensures
        r == spec_rung_before(vs@, i as int, j as int),
{
    let bi = rung_bandwidth(&vs[i]);
    let bj = rung_bandwidth(&vs[j]);
    if bi != bj {
        return bi < bj;
    }
    if str_lex_lt(vs[i].uri.as_str(), vs[j].uri.as_str()) {
        return true;
    }
    if text_equals(vs[i].uri.as_str(), vs[j].uri.as_str()) {
        return i < j;
    }
    false
}

/// Whether variant `j` sorts after `prev`, where there is one.
pub open spec fn spec_after(vs: Seq<VariantSummary>, prev: Option<usize>, j: int) -> bool {
    match prev {
        None => true,
        Some(p) => spec_rung_before(vs, p as int, j),
    }
}

/// The first ladder variant that sorts after `prev`.
fn next_rung(vs: &[VariantSummary], prev: Option<usize>) -> (r: Option<usize>)
    requires
        match prev {
            None => true,
            Some(p) => p < vs@.len(),
        },
    ensures
        match r {
            Some(c) => {
                &&& c < vs@.len()
                &&& spec_on_ladder(vs@, c as int)
                &&& spec_after(vs@, prev, c as int)
                &&& forall|j: int|
                    0 <= j < vs@.len() && spec_on_ladder(vs@, j) && spec_after(vs@, prev, j) ==> j
                        == c || spec_rung_before(vs@, c as int, j)
            },
            None => forall|j: int|
                0 <= j < vs@.len() && spec_on_ladder(vs@, j) ==> !spec_after(vs@, prev, j),
        },
{
    let mut best: Option<usize> = None;
    let mut i: usize = 0;
    while i < vs.len()
        invariant
            i <= vs@.len(),
            match prev {
                None => true,
                Some(p) => p < vs@.len(),
            },
            match best {
                Some(c) => {
                    &&& c < i
                    &&& spec_on_ladder(vs@, c as int)
                    &&& spec_after(vs@, prev, c as int)
                    &&& forall|j: int|
                        0 <= j < i && spec_on_ladder(vs@, j) && spec_after(vs@, prev, j) ==> j == c
                            || spec_rung_before(vs@, c as int, j)
                },
                None => forall|j: int|
                    0 <= j < i && spec_on_ladder(vs@, j) ==> !spec_after(vs@, prev, j),
            },
        decreases vs.len() - i,
    {
        let after = match prev {
            None => true,
            Some(p) => rung_before(vs, p, i),
        };
        if !vs[i].is_iframe && after {
            match best {
                None => {
                    best = Some(i);
                },
                Some(c) => {
                    if rung_before(vs, i, c) {
                        proof {
                            assert forall|j: int|
                                0 <= j < i + 1 && spec_on_ladder(vs@, j) && spec_after(
                                    vs@,
                                    prev,
                                    j,
                                ) implies j == i || spec_rung_before(vs@, i as int, j) by {
                                if j != i && j != c {
                                    lemma_rung_transitive(vs@, i as int, c as int, j);
                                }
                            }
                        }
                        best = Some(i);
                    } else {
                        proof {
                            lemma_rung_total(vs@, i as int, c as int);
                        }
                    }
                },
            }
        }
        i = i + 1;
    }
    best
}

/// The rendition a Timing run samples: the middle rung of the bitrate ladder, trick play
/// excluded, sorted by bandwidth and then URI. With an even ladder the lower middle is
/// taken, so the choice is reproducible.
pub fn mid_bandwidth_variant(variants: &[VariantSummary]) -> (r: Option<&VariantSummary>)
    ensures
        r is None <==> spec_ladder_count(variants@, variants@.len() as int) == 0,
        r matches Some(v) ==> exists|i: int|
            0 <= i < variants@.len() && spec_on_ladder(variants@, i) && spec_rung_rank(variants@, i)
                == (spec_ladder_count(variants@, variants@.len() as int) - 1) / 2 && v
                == &variants@[i],
{
    let ghost vs = variants@;
    let ghost len = vs.len() as int;
    let mut m: usize = 0;
    let mut i: usize = 0;
    while i < variants.len()
        invariant
            i <= variants@.len(),
            m == spec_ladder_count(variants@, i as int),
            m <= i,
        decreases variants.len() - i,
    {
        if !variants[i].is_iframe {
            m = m + 1;
        }
        i = i + 1;
    }
    if m == 0 {
        return None;
    }
    let first = next_rung(variants, None);
    let mut cur = match first {
        None => {
            proof {
                lemma_no_rungs(vs, len);
            }
            return None;
        },
        Some(c) => c,
    };
    let k = (m - 1) / 2;
    proof {
        assert forall|j: int| 0 <= j < len && spec_on_ladder(vs, j) implies !spec_rung_before(
            vs,
            j,
            cur as int,
        ) by {
            lemma_rung_irreflexive(vs, j);
            if j != cur {
                lemma_rung_asymmetric(vs, cur as int, j);
            }
        }
        lemma_rank_zero(vs, cur as int, len);
    }
    let mut t: usize = 0;
    while t < k
        invariant
            vs == variants@,
            len == vs.len(),
            m == spec_ladder_count(vs, len),
            m > 0,
            k == (m - 1) / 2,
            t <= k,
            cur < len,
            spec_on_ladder(vs, cur as int),
            spec_rung_rank(vs, cur as int) == t,
        decreases k - t,
    {
        proof {
            lemma_rung_irreflexive(vs, cur as int);
            if forall|j: int| 0 <= j < len && spec_on_ladder(vs, j) ==> j == cur || spec_rung_before(vs, j, cur as int) {
                lemma_rank_last(vs, cur as int, len);
            }
        }
        let next = next_rung(variants, Some(cur));
        let d = match next {
            None => {
                proof {
                    assert forall|j: int| 0 <= j < len && spec_on_ladder(vs, j) implies j == cur
                        || spec_rung_before(vs, j, cur as int) by {
                        if j != cur && !spec_rung_before(vs, j, cur as int) {
                            lemma_rung_total(vs, j, cur as int);
                        }
                    }
                }
                return None;
            },
            Some(d) => d,
        };
        proof {
            assert forall|j: int| 0 <= j < len && spec_on_ladder(vs, j) implies (spec_rung_before(
                vs,
                j,
                d as int,
            ) <==> (spec_rung_before(vs, j, cur as int) || j == cur)) by {
                if spec_rung_before(vs, j, cur as int) {
                    lemma_rung_transitive(vs, j, cur as int, d as int);
                }
                if spec_rung_before(vs, j, d as int) && !spec_rung_before(vs, j, cur as int) && j
                    != cur {
                    lemma_rung_total(vs, j, cur as int);
                    lemma_rung_irreflexive(vs, j);
                    if j != d {
                        lemma_rung_asymmetric(vs, j, d as int);
                    }
                }
            }
            lemma_rank_step(vs, cur as int, d as int, len);
        }
        cur = d;
        t = t + 1;
    }
    Some(&variants[cur])
}

/// Which kind of request a row describes.
#[derive(Debug, Clone, Copy, PartialEq, Eq, Structural)]
pub enum RequestClass {
    MultivariantPlaylist,
    MediaPlaylist,
    /// A media playlist re-requested at the live edge, which the origin may hold until it
    /// has something to publish. Kept apart from an ordinary repeat because its duration
    /// is a wait on an author rather than a download, and a median over both would
    /// describe neither.
    LivePlaylistReload,
    VideoSegment,
    AudioSegment,
    /// One request carrying both video and audio, so a pair is a single download. Only
    /// claimed where CODECS named an audio codec.
    MuxedSegment,
    /// A segment whose muxing was never established: there was no multivariant playlist
    /// to declare CODECS, so whether the bytes carry audio as well as video is unknown.
    MediaSegment,
}

impl RequestClass {
    pub fn label(&self) -> (r: &'static str)
        ensures
            r@ == match *self {
                RequestClass::MultivariantPlaylist => "Multivariant playlist"@,
                RequestClass::MediaPlaylist => "Media playlist"@,
                RequestClass::LivePlaylistReload => "Live playlist reload (held)"@,
                RequestClass::VideoSegment => "Video segment"@,
                RequestClass::AudioSegment => "Audio segment"@,
                RequestClass::MuxedSegment => "Muxed segment"@,
                RequestClass::MediaSegment => "Media segment (muxing unknown)"@,
            },
    {
        match self {
            RequestClass::MultivariantPlaylist => "Multivariant playlist",
            RequestClass::MediaPlaylist => "Media playlist",
            RequestClass::LivePlaylistReload => "Live playlist reload (held)",
            RequestClass::VideoSegment => "Video segment",
            RequestClass::AudioSegment => "Audio segment",
            RequestClass::MuxedSegment => "Muxed segment",
            RequestClass::MediaSegment => "Media segment (muxing unknown)",
        }
    }

    /// Whether requests of this class download media bytes.
    pub fn is_media(&self) -> (r: bool)
        ensures
            r == (*self is VideoSegment || *self is AudioSegment || *self is MuxedSegment
                || *self is MediaSegment),
    {
        match self {
            RequestClass::VideoSegment | RequestClass::AudioSegment | RequestClass::MuxedSegment
            | RequestClass::MediaSegment => true,
            _ => false,
        }
    }
}

/// The class of a sampled segment of the chosen rendition.
pub open spec fn spec_media_request_class(chosen: Option<VariantSummary>) -> RequestClass {
    match chosen {
        None => RequestClass::MediaSegment,
        Some(v) => if v.has_audio_codec {
            RequestClass::MuxedSegment
        } else {
            RequestClass::VideoSegment
        },
    }
}

/// What a sampled segment of the chosen rendition can honestly be called.
///
/// With no multivariant playlist there is no CODECS to read, so the segments are neither
/// proven muxed nor proven video-only and the class says as much. Where a variant was
/// chosen, CODECS decides: an audio codec means one request carries both halves, and its
/// absence means the audio lives in a rendition of its own.
pub fn media_request_class(chosen: Option<&VariantSummary>) -> (r: RequestClass)
    ensures
        r == spec_media_request_class(match chosen {
            Some(v) => Some(*v),
            None => None,
        }),
{
    match chosen {
        None => RequestClass::MediaSegment,
        Some(variant) => if variant.has_audio_codec {
            RequestClass::MuxedSegment
        } else {
            RequestClass::VideoSegment
        },
    }
}

/// The class a media sample takes, and the AUDIO group a second half could come from.
///
/// The group is only offered for a variant whose CODECS proves its segments carry no
/// audio. A muxed variant needs no pair, and an unknown-muxing segment has no variant to
/// have declared a group in the first place.
pub fn sample_class_and_audio_group(chosen: Option<&VariantSummary>) -> (r: (RequestClass, Option<&str>))
    ensures
        r.0 == spec_media_request_class(match chosen {
            Some(v) => Some(*v),
            None => None,
        }),
        match r.1 {
            Some(g) => r.0 is VideoSegment && (chosen matches Some(v) && (v.audio_group matches Some(a) && g@ == a@)),
            None => !(r.0 is VideoSegment) || (chosen matches Some(v) && v.audio_group is None),
        },
{
    let class = media_request_class(chosen);
    let group = match class {
        RequestClass::VideoSegment => match chosen {
            Some(v) => match &v.audio_group {
                Some(a) => Some(a.as_str()),
                None => None,
            },
            None => None,
        },
        _ => None,
    };
    (class, group)
}

/// Which media duration a percentage was measured against.
#[derive(Debug, Clone, Copy, PartialEq, Eq, Structural)]
pub enum DurationSource {
    /// EXTINF: what this segment actually carries. The primary denominator.
    Extinf,
    /// EXT-X-PART DURATION.
    PartDuration,
    /// EXT-X-TARGETDURATION: an upper bound on any segment, not this one's length.
    TargetDuration,
    /// EXT-X-PART-INF PART-TARGET.
    PartTarget,
}

impl DurationSource {
    pub fn label(&self) -> (r: &'static str)
        ensures
            r@ == match *self {
                DurationSource::Extinf => "EXTINF"@,
                DurationSource::PartDuration => "PART DURATION"@,
                DurationSource::TargetDuration => "TARGETDURATION"@,
                DurationSource::PartTarget => "PART-TARGET"@,
            },
    {
        match self {
            DurationSource::Extinf => "EXTINF",
            DurationSource::PartDuration => "PART DURATION",
            DurationSource::TargetDuration => "TARGETDURATION",
            DurationSource::PartTarget => "PART-TARGET",
        }
    }
}

/// A caveat the results must be read with. Named so that a run can be asked whether it hit
/// a particular one without matching on prose.
#[derive(Debug, Clone, PartialEq)]
pub struct TimingNote {
    pub id: &'static str,
    pub text: String,
}

impl TimingNote {
    pub fn new(id: &'static str, text: String) -> (r: TimingNote)
        ensures
            r.id == id,
            r.text == text,
    {
        TimingNote { id, text }
    }
}

pub const NOTE_BYTE_BUDGET: &'static str = "byte_budget_reached";
/// Live, but nothing could be sampled: no numbered media to wait beyond, or every wait
/// ended without a new URI appearing.
pub const NOTE_LIVE_NOT_MEASURED: &'static str = "live_lag_not_measured";
/// What the observation lag is and is not, pushed by every run that takes live samples.
pub const NOTE_LIVE_OBSERVATION_BOUND: &'static str = "live_observation_lag_bound";
/// The origin advertised CAN-BLOCK-RELOAD, so the reloads carried `_HLS_msn` / `_HLS_part`
/// and the playlist rows include the hold.
pub const NOTE_LIVE_BLOCKING_RELOAD: &'static str = "live_blocking_reload";
/// No CAN-BLOCK-RELOAD, so the edge was polled and an appearance can be seen late.
pub const NOTE_LIVE_POLLED: &'static str = "live_edge_polled";
/// A wait ran out of time with nothing new on the playlist.
pub const NOTE_LIVE_WAIT_TIMEOUT: &'static str = "live_wait_timed_out";
/// VOD media sampling was asked for, but the playlist carries no `EXT-X-ENDLIST`.
pub const NOTE_VOD_SAMPLE_ON_LIVE: &'static str = "vod_sampling_on_live_playlist";
/// Live edge timing was asked for, but the playlist carries `EXT-X-ENDLIST`.
pub const NOTE_LIVE_SAMPLE_ON_VOD: &'static str = "live_timing_on_vod_playlist";
pub const NOTE_CLOCK_UNAVAILABLE: &'static str = "clock_unavailable";
pub const NOTE_RANGE_IGNORED: &'static str = "range_ignored";
pub const NOTE_MUXING_UNKNOWN: &'static str = "muxing_not_established";
pub const NOTE_NO_AUDIO_RENDITION: &'static str = "no_audio_rendition_found";

/// The caveats every Timing run carries, whatever it measured.
pub open spec fn spec_provenance_notes() -> Seq<Seq<char>> {
    seq![
        "The Resource Timing total (responseEnd − startTime) is the authoritative duration where it is shown. It needs no Timing-Allow-Origin."@,
        "App-observed times come from performance.now() around the fetch. They include JS scheduling and, for media, the copy of the body into WASM memory, so the app-observed header time is not a time to first byte."@,
        "A true TTFB (responseStart − requestStart) is shown only when the response carried Timing-Allow-Origin. Otherwise the column is empty rather than zero."@,
        "Cold versus warm is proven only by the Resource Timing connect fields, which also need Timing-Allow-Origin. The first Timing sample is not a cold start in any case: Inspect has already fetched these playlists."@,
        "Failed and cancelled requests carry no duration."@,
        "No cache-busting parameters are added, so a CDN hit and a CDN miss are indistinguishable here."@,
        "A range request's preflight cost, if any, sits inside the measured time and cannot be separated from it without Timing-Allow-Origin."@,
        "Encrypted media is timed as opaque bytes. No keys are fetched and nothing is decrypted, so no key latency is included."@,
        "Content-Length is an encoded length. Any throughput derived from these rows has to name its divisor; encodedBodySize is the one to prefer."@,
        "Raw rows and a median only. Four samples do not support a mean or a standard deviation."@,
        "A few pairs of one rung are not a measurement of the whole ladder."@,
        "Observation lag, on live rows, runs from this tab first seeing a URI in a playlist body to that item's bytes being in hand. It is an upper bound on what the fetch cost — it also contains this tab's own scheduling between reading the playlist and issuing the request — and at the same time a floor on the interval from the item being published to its bytes being in hand, because whatever passed before this tab read the body is outside it."@,
        "Observation lag is not the time from a segment being added to the playlist. No browser can see that moment, and EXT-X-PROGRAM-DATE-TIME is an authoring clock, not a latency. Where a blocking reload returned quickly the item was already published before this tab asked for it, and the lag then measures this tab's lateness rather than the origin's."@,
        "A blocking reload's playlist row is the origin holding the request until it had something to publish. That hold is not a media download and is not a time to first byte for the part that followed it."@,
    ]
}

/// The caveats every Timing run carries, whatever it measured.
///
/// These are not decoration. Each one names something a browser cannot see, and without
/// them the table reads as a network measurement rather than as what a page observed.
pub fn provenance_notes() -> (r: Vec<&'static str>)
    ensures
        r@.map_values(|s: &str| s@) == spec_provenance_notes(),
{
    let mut v: Vec<&'static str> = Vec::new();
    v.push("The Resource Timing total (responseEnd − startTime) is the authoritative duration where it is shown. It needs no Timing-Allow-Origin.");
    v.push("App-observed times come from performance.now() around the fetch. They include JS scheduling and, for media, the copy of the body into WASM memory, so the app-observed header time is not a time to first byte.");
    v.push("A true TTFB (responseStart − requestStart) is shown only when the response carried Timing-Allow-Origin. Otherwise the column is empty rather than zero.");
    v.push("Cold versus warm is proven only by the Resource Timing connect fields, which also need Timing-Allow-Origin. The first Timing sample is not a cold start in any case: Inspect has already fetched these playlists.");
    v.push("Failed and cancelled requests carry no duration.");
    v.push("No cache-busting parameters are added, so a CDN hit and a CDN miss are indistinguishable here.");
    v.push("A range request's preflight cost, if any, sits inside the measured time and cannot be separated from it without Timing-Allow-Origin.");
    v.push("Encrypted media is timed as opaque bytes. No keys are fetched and nothing is decrypted, so no key latency is included.");
    v.push("Content-Length is an encoded length. Any throughput derived from these rows has to name its divisor; encodedBodySize is the one to prefer.");
    v.push("Raw rows and a median only. Four samples do not support a mean or a standard deviation.");
    v.push("A few pairs of one rung are not a measurement of the whole ladder.");
    v.push("Observation lag, on live rows, runs from this tab first seeing a URI in a playlist body to that item's bytes being in hand. It is an upper bound on what the fetch cost — it also contains this tab's own scheduling between reading the playlist and issuing the request — and at the same time a floor on the interval from the item being published to its bytes being in hand, because whatever passed before this tab read the body is outside it.");
    v.push("Observation lag is not the time from a segment being added to the playlist. No browser can see that moment, and EXT-X-PROGRAM-DATE-TIME is an authoring clock, not a latency. Where a blocking reload returned quickly the item was already published before this tab asked for it, and the lag then measures this tab's lateness rather than the origin's.");
    v.push("A blocking reload's playlist row is the origin holding the request until it had something to publish. That hold is not a media download and is not a time to first byte for the part that followed it.");
    assert(v@.map_values(|s: &str| s@) =~= spec_provenance_notes());
    v
}

/// Why a VOD stride cannot describe a playlist that is still being written.
pub open spec fn spec_vod_on_live_note(took_live_samples: bool) -> Seq<char> {
    VOD_HEAD@ + if took_live_samples { VOD_WATCHED@ } else { VOD_NOTHING@ }
}

/// Why there is no edge to watch on a playlist that has finished publishing.
pub open spec fn spec_live_on_vod_note(took_vod_samples: bool) -> Seq<char> {
    LIVE_HEAD@ + if took_vod_samples { LIVE_STRIDED@ } else { LIVE_NOTHING@ }
}

pub const VOD_HEAD: &'static str = "\"Media sample timing\" samples a finished asset, and this playlist carries no EXT-X-ENDLIST. Striding a sliding window would give percentages of an asset that is still being written, and would time media that was published before the run started. ";
pub const VOD_WATCHED: &'static str = "The live edge was watched instead, so the media rows below are edge samples rather than a stride across the asset.";
pub const VOD_NOTHING: &'static str = "No media bytes were taken. Select \"Live edge timing\" to measure the edge instead. The playlist rows below stand as measured.";
pub const LIVE_HEAD: &'static str = "\"Live edge timing\" waits for media to appear, and this playlist carries EXT-X-ENDLIST: every segment it lists is already published, so there is no edge to wait at and no observation lag to report. ";
pub const LIVE_STRIDED: &'static str = "The VOD samples below are a stride across the finished asset, and carry no observation lag.";
pub const LIVE_NOTHING: &'static str = "No media bytes were taken. Select \"Media sample timing\" for samples of the finished asset. The playlist rows below stand as measured.";

/// Why a VOD stride cannot describe a playlist that is still being written.
/// `took_live_samples` is the both-boxes case, where the note is about the stride that did
/// not happen rather than about a phase that took no bytes at all.
pub fn vod_on_live_note(took_live_samples: bool) -> (r: String)
    ensures
        r@ == spec_vod_on_live_note(took_live_samples),
{
    let mut s = String::from_str(VOD_HEAD);
    push_str(&mut s, if took_live_samples { VOD_WATCHED } else { VOD_NOTHING });
    s
}

/// Why there is no edge to watch on a playlist that has finished publishing.
pub fn live_on_vod_note(took_vod_samples: bool) -> (r: String)
    ensures
        r@ == spec_live_on_vod_note(took_vod_samples),
{
    let mut s = String::from_str(LIVE_HEAD);
    push_str(&mut s, if took_vod_samples { LIVE_STRIDED } else { LIVE_NOTHING });
    s
}

/// How far a run has got, for the progress line beside Stop.
#[derive(Debug, Clone, PartialEq)]
pub struct TimingProgress {
    pub done: usize,
    pub total: usize,
    pub label: String,
}


/// The URI a segment can be fetched at: its own, or, where it has none, that of its first
/// part that carries media.
pub open spec fn spec_fetchable_target(seg: EdgeSegment) -> Option<Seq<char>> {
    if seg.uri@.len() > 0 {
        Some(seg.uri@)
    } else {
        match spec_last_fetchable_rev(seg.parts@, 0) {
            Some(k) => Some(seg.parts@[k].uri@),
            None => None,
        }
    }
}

/// The index of the first part, at or after `k`, that carries media.
pub open spec fn spec_last_fetchable_rev(parts: Seq<EdgePart>, k: int) -> Option<int>
    decreases parts.len() - k,
{
    if k < 0 || k >= parts.len() {
        None
    } else if spec_fetchable(parts[k]) {
        Some(k)
    } else {
        spec_last_fetchable_rev(parts, k + 1)
    }
}

/// The URI a segment can be fetched at: its own, or its first part that carries media.
pub fn fetchable_target(segment: &EdgeSegment) -> (r: Option<&str>)
    ensures
        match (r, spec_fetchable_target(*segment)) {
            (Some(a), Some(b)) => a@ == b,
            (None, None) => true,
            _ => false,
        },
{
    if segment.uri.unicode_len() > 0 {
        return Some(segment.uri.as_str());
    }
    let mut k: usize = 0;
    while k < segment.parts.len()
        invariant
            k <= segment.parts@.len(),
            segment.uri@.len() == 0,
            spec_last_fetchable_rev(segment.parts@, k as int) == spec_last_fetchable_rev(segment.parts@, 0),
        decreases segment.parts.len() - k,
    {
        let p = &segment.parts[k];
        if !p.gap && p.uri.unicode_len() > 0 {
            return Some(p.uri.as_str());
        }
        k = k + 1;
    }
    None
}

/// The indices, among the first `n` segments, of those worth sampling: no GAP, and
/// something to fetch.
pub open spec fn spec_samplable(segments: Seq<EdgeSegment>, n: int) -> Seq<usize>
    decreases n,
{
    if n <= 0 {
        Seq::empty()
    } else if !segments[n - 1].gap && spec_fetchable_target(segments[n - 1]) is Some {
        spec_samplable(segments, n - 1).push((n - 1) as usize)
    } else {
        spec_samplable(segments, n - 1)
    }
}

/// The segments worth sampling: the ones the playlist says carry media that can be
/// fetched. A GAP is dropped here, so it is never fetched and never counted as a sample.
pub fn samplable_indices(segments: &[EdgeSegment]) -> (r: Vec<usize>)
    ensures
        r@ == spec_samplable(segments@, segments@.len() as int),
        forall|k: int| 0 <= k < r@.len() ==> (#[trigger] r@[k]) < segments@.len(),
{
    let mut out: Vec<usize> = Vec::new();
    let mut i: usize = 0;
    while i < segments.len()
        invariant
            i <= segments@.len(),
            out@ == spec_samplable(segments@, i as int),
            forall|k: int| 0 <= k < out@.len() ==> (#[trigger] out@[k]) < i,
        decreases segments.len() - i,
    {
        if !segments[i].gap && fetchable_target(&segments[i]).is_some() {
            out.push(i);
        }
        i = i + 1;
    }
    out
}

/// Position `i` of `count` spread across `len` places: every place where there are no
/// more of them than samples wanted; otherwise the first and the last place and the ones
/// evenly between (rounded down).
pub open spec fn spec_stride_at(len: nat, count: nat, i: nat) -> nat {
    if count >= len {
        i
    } else if count <= 1 {
        0
    } else {
        (i * (len - 1) / (count - 1)) as nat
    }
}

/// `count` positions spread across `len` places, first to last (see `spec_stride_at`);
/// as many as there are places where that is fewer.
pub fn stride_indices(len: usize, count: usize) -> (r: Vec<usize>)
    ensures
        r@.len() == if count < len { count } else { len },
        forall|i: int| 0 <= i < r@.len() ==> (#[trigger] r@[i]) as nat == spec_stride_at(len as nat, count as nat, i as nat),
        forall|i: int| 0 <= i < r@.len() ==> (#[trigger] r@[i]) < len,
{
    let n = if count < len { count } else { len };
    let mut out: Vec<usize> = Vec::new();
    let mut i: usize = 0;
    while i < n
        invariant
            i <= n,
            n == (if count < len { count } else { len }),
            out@.len() == i,
            forall|j: int| 0 <= j < i ==> (#[trigger] out@[j]) as nat == spec_stride_at(len as nat, count as nat, j as nat),
            forall|j: int| 0 <= j < i ==> (#[trigger] out@[j]) < len,
        decreases n - i,
    {
        let position: usize = if count >= len {
            i
        } else if count <= 1 {
            0
        } else {
            proof {
                assert((i as int) * ((len - 1) as int) <= 0xffff_ffff_ffff_ffff * 0xffff_ffff_ffff_ffff) by (nonlinear_arith)
                    requires
                        0 <= i <= 0xffff_ffff_ffff_ffff,
                        0 <= len - 1 <= 0xffff_ffff_ffff_ffff,
                ;
            }
            let num: u128 = (i as u128) * ((len - 1) as u128);
            let q: u128 = num / ((count - 1) as u128);
            proof {
                assert(i <= count - 1);
                assert(num <= (count - 1) * (len - 1)) by (nonlinear_arith)
                    requires
                        num == i * (len - 1),
                        i <= count - 1,
                        len >= 1,
                ;
                assert(q <= len - 1) by (nonlinear_arith)
                    requires
                        q as int == (num as int) / ((count - 1) as int),
                        num <= (count - 1) * (len - 1),
                        count - 1 > 0,
                ;
            }
            q as usize
        };
        out.push(position);
        i = i + 1;
    }
    out
}

/// One sample the plan intends to take: the video segment and, where there is an audio
/// rendition to pair with, the audio segment a player would have needed at that point.
#[derive(Debug, Clone, PartialEq)]
pub struct PlannedPair {
    /// 1-based, for the table's sample column.
    pub number: usize,
    /// The index of the video segment in its playlist.
    pub video: usize,
    /// The index of the audio segment in its playlist, where there is one.
    pub audio: Option<usize>,
    /// Why a half is missing, when it is.
    pub notes: Vec<String>,
}

/// The note on a pair that an audio rendition of `have` samplable segments cannot pair.
pub open spec fn spec_short_audio_note(rendition: Seq<char>, have: nat, pair: nat) -> Seq<char> {
    "Audio rendition \""@ + rendition + "\" has "@ + spec_decimal(have) + " samplable segment(s), so pair "@
        + spec_decimal(pair) + " has no audio half."@
}

/// Whether `p` is the `k`-th pair of the plan over video segments `video` and audio
/// rendition `audio` (its name and segments), `count` pairs wanted.
pub open spec fn spec_pair_is(
    p: PlannedPair,
    video: Seq<EdgeSegment>,
    audio: Option<(Seq<char>, Seq<EdgeSegment>)>,
    count: nat,
    k: int,
) -> bool {
    let cand = spec_samplable(video, video.len() as int);
    let pos = spec_stride_at(cand.len(), count, k as nat);
    &&& p.number == k + 1
    &&& p.video == cand[pos as int]
    &&& match audio {
        Some((name, segs)) => {
            let ac = spec_samplable(segs, segs.len() as int);
            if pos < ac.len() {
                p.audio == Some(ac[pos as int]) && p.notes@.len() == 0
            } else {
                p.audio is None && p.notes@.len() == 1 && p.notes@[0]@ == spec_short_audio_note(name, ac.len(), (k + 1) as nat)
            }
        },
        None => p.audio is None && p.notes@.len() == 0,
    }
}

/// Plans `pairs` samples strided across a VOD asset. The video rendition drives the
/// stride over its samplable segments; the audio rendition, where there is one (its name
/// and segments), is sampled at the same position in its own samplable segments, and
/// where its list is shorter the pair runs video-only and says why. No samplable video
/// segment, or no pair wanted, plans nothing.
pub fn plan_pairs(video: &[EdgeSegment], audio: Option<(&str, &[EdgeSegment])>, pairs: usize) -> (r: Vec<PlannedPair>)
    ensures
        ({
            let cand = spec_samplable(video@, video@.len() as int);
            let audio_view = match audio {
                Some((name, segs)) => Some((name@, segs@)),
                None => None,
            };
            &&& r@.len() == (if cand.len() == 0 || pairs == 0 { 0 } else if pairs < cand.len() { pairs as nat } else { cand.len() })
            &&& forall|k: int| 0 <= k < r@.len() ==> spec_pair_is(#[trigger] r@[k], video@, audio_view, pairs as nat, k)
        }),
{
    let candidates = samplable_indices(video);
    let ghost audio_view = match audio {
        Some((name, segs)) => Some((name@, segs@)),
        None => None,
    };
    let mut out: Vec<PlannedPair> = Vec::new();
    if candidates.len() == 0 || pairs == 0 {
        return out;
    }
    let audio_candidates: Option<Vec<usize>> = match audio {
        Some((_, segs)) => Some(samplable_indices(segs)),
        None => None,
    };
    let positions = stride_indices(candidates.len(), pairs);
    let mut k: usize = 0;
    while k < positions.len()
        invariant
            k <= positions@.len(),
            candidates@ == spec_samplable(video@, video@.len() as int),
            candidates@.len() > 0,
            positions@.len() == (if pairs < candidates@.len() { pairs as nat } else { candidates@.len() as nat }),
            forall|i: int| 0 <= i < positions@.len() ==> (#[trigger] positions@[i]) as nat == spec_stride_at(
                candidates@.len() as nat,
                pairs as nat,
                i as nat,
            ),
            forall|i: int| 0 <= i < positions@.len() ==> (#[trigger] positions@[i]) < candidates@.len(),
            audio_view == (match audio {
                Some((name, segs)) => Some((name@, segs@)),
                None => None,
            }),
            match (audio, &audio_candidates) {
                (Some((_, segs)), Some(list)) => list@ == spec_samplable(segs@, segs@.len() as int),
                (None, None) => true,
                _ => false,
            },
            out@.len() == k,
            forall|j: int| 0 <= j < k ==> spec_pair_is(#[trigger] out@[j], video@, audio_view, pairs as nat, j),
        decreases positions.len() - k,
    {
        let position = positions[k];
        let mut notes: Vec<String> = Vec::new();
        let audio_index: Option<usize> = match (audio, &audio_candidates) {
            (Some((name, _)), Some(list)) => {
                if position < list.len() {
                    Some(list[position])
                } else {
                    let mut note = String::from_str("Audio rendition \"");
                    push_str(&mut note, name);
                    push_str(&mut note, "\" has ");
                    push_decimal(&mut note, list.len() as u64);
                    push_str(&mut note, " samplable segment(s), so pair ");
                    push_decimal(&mut note, (k + 1) as u64);
                    push_str(&mut note, " has no audio half.");
                    notes.push(note);
                    None
                }
            },
            _ => None,
        };
        let pair = PlannedPair { number: k + 1, video: candidates[position], audio: audio_index, notes };
        proof {
            assert(spec_pair_is(pair, video@, audio_view, pairs as nat, k as int));
        }
        out.push(pair);
        k = k + 1;
    }
    out
}


/// Whether `notes` holds a note with id `id` and text `text`.
pub open spec fn spec_has_note(notes: Seq<TimingNote>, id: Seq<char>, text: Seq<char>) -> bool {
    exists|k: int| 0 <= k < notes.len() && (#[trigger] notes[k]).id@ == id && notes[k].text@ == text
}

/// Adds a note to a report's notes, unless the same note (same id, same text) is there
/// already: a note said twice is one note.
pub fn push_note(notes: &mut Vec<TimingNote>, id: &'static str, text: String)
    ensures
        spec_has_note(old(notes)@, id@, text@) ==> final(notes)@ == old(notes)@,
        !spec_has_note(old(notes)@, id@, text@) ==> final(notes)@ == old(notes)@.push(TimingNote { id, text }),
{
    let mut k: usize = 0;
    while k < notes.len()
        invariant
            k <= notes@.len(),
            forall|j: int| 0 <= j < k ==> !((#[trigger] notes@[j]).id@ == id@ && notes@[j].text@ == text@),
        decreases notes.len() - k,
    {
        if str_equals_text(notes[k].id, id) && str_equals_text(notes[k].text.as_str(), text.as_str()) {
            return;
        }
        k = k + 1;
    }
    notes.push(TimingNote::new(id, text));
}

/// The note on media segments whose muxing is unknown.
pub const MUXING_UNKNOWN_TEXT: &'static str = "No multivariant playlist was read, so there is no CODECS to say whether these segments carry audio as well as video. They are timed as media segments of unknown muxing, and no separate audio request was made.";

/// The note on a demuxed variant for which no audio rendition could be planned.
pub const NO_AUDIO_RENDITION_TEXT: &'static str = "The chosen variant's CODECS names no audio codec, but no DEFAULT audio rendition with a URI of its own could be planned from its AUDIO group — either the group names none, or that playlist could not be read. The pairs below are therefore video-only and understate what a player would have had to download.";

/// What the shape of the media sample plan has to be read with: where the muxing of the
/// segments is unknown (no multivariant playlist), and where a demuxed variant has no
/// audio rendition planned beside it, a note says so (each once).
pub fn push_media_plan_notes(notes: &mut Vec<TimingNote>, class: RequestClass, has_audio_plan: bool)
    ensures
        final(notes)@.len() == old(notes)@.len() + if (class == RequestClass::MediaSegment && !spec_has_note(
            old(notes)@,
            NOTE_MUXING_UNKNOWN@,
            MUXING_UNKNOWN_TEXT@,
        )) || (class == RequestClass::VideoSegment && !has_audio_plan && !spec_has_note(
            old(notes)@,
            NOTE_NO_AUDIO_RENDITION@,
            NO_AUDIO_RENDITION_TEXT@,
        )) {
            1int
        } else {
            0int
        },
        forall|k: int| 0 <= k < old(notes)@.len() ==> final(notes)@[k] == old(notes)@[k],
        class == RequestClass::MediaSegment ==> spec_has_note(final(notes)@, NOTE_MUXING_UNKNOWN@, MUXING_UNKNOWN_TEXT@),
        class == RequestClass::VideoSegment && !has_audio_plan ==> spec_has_note(
            final(notes)@,
            NOTE_NO_AUDIO_RENDITION@,
            NO_AUDIO_RENDITION_TEXT@,
        ),
        forall|k: int|
            old(notes)@.len() <= k < final(notes)@.len() ==> ((#[trigger] final(notes)@[k]).id@ == NOTE_MUXING_UNKNOWN@
                && final(notes)@[k].text@ == MUXING_UNKNOWN_TEXT@) || (final(notes)@[k].id@ == NOTE_NO_AUDIO_RENDITION@
                && final(notes)@[k].text@ == NO_AUDIO_RENDITION_TEXT@),
{
    let ghost start = notes@;
    if class == RequestClass::MediaSegment {
        push_note(notes, NOTE_MUXING_UNKNOWN, String::from_str(MUXING_UNKNOWN_TEXT));
        proof {
            if spec_has_note(start, NOTE_MUXING_UNKNOWN@, MUXING_UNKNOWN_TEXT@) {
                assert(notes@ == start);
            } else {
                let k = start.len() as int;
                assert(notes@[k].id@ == NOTE_MUXING_UNKNOWN@);
            }
        }
    }
    let ghost middle = notes@;
    if class == RequestClass::VideoSegment && !has_audio_plan {
        push_note(notes, NOTE_NO_AUDIO_RENDITION, String::from_str(NO_AUDIO_RENDITION_TEXT));
        proof {
            if !spec_has_note(middle, NOTE_NO_AUDIO_RENDITION@, NO_AUDIO_RENDITION_TEXT@) {
                let k = middle.len() as int;
                assert(notes@[k].id@ == NOTE_NO_AUDIO_RENDITION@);
            }
        }
    }
}


/// Samples stride across the whole asset rather than its opening seconds: with fewer
/// samples (two or more) than places, the first sample is the first place, the last the
/// last, and each lies strictly after the one before.
pub proof fn lemma_stride_spans_the_asset(len: nat, count: nat)
    requires
        2 <= count < len,
    ensures
        spec_stride_at(len, count, 0) == 0,
        spec_stride_at(len, count, (count - 1) as nat) == len - 1,
        forall|i: nat, j: nat| i < j < count ==> spec_stride_at(len, count, i) < spec_stride_at(len, count, j),
{
    let d = count - 1;
    assert((d * (len - 1)) / d == len - 1) by (nonlinear_arith)
        requires
            d > 0,
    ;
    assert forall|i: nat, j: nat| i < j < count implies spec_stride_at(len, count, i) < spec_stride_at(len, count, j) by {
        let a = i * (len - 1);
        let b = j * (len - 1);
        assert(b >= a + (len - 1)) by (nonlinear_arith)
            requires
                a == i * (len - 1),
                b == j * (len - 1),
                j >= i + 1,
                len >= 1,
        ;
        assert(a / d < b / d) by (nonlinear_arith)
            requires
                d > 0,
                len - 1 > d,
                b >= a + (len - 1),
                a >= 0,
        ;
    }
}

// ── How a run starts ─────────────────────────────────────────────────────────

/// Why a run without a clock declines.
pub const CLOCK_DECLINE_TEXT: &'static str = "This browser exposes no performance.now(), so Timing declined to run rather than report zeros.";

/// The note of a run without a clock.
pub const CLOCK_NOTE_TEXT: &'static str = "Timing needs performance.now(). Nothing was measured.";

/// The note's id for playlist rows that only the media sample plan asked for.
pub const NOTE_PLAYLIST_ROWS_INCIDENTAL: &'static str = "playlist_rows_incidental";

/// The note for playlist rows that only the media sample plan asked for.
pub const PLAYLIST_ROWS_INCIDENTAL_TEXT: &'static str = "Playlist timing was not selected. The playlist rows below are the single requests the media sample plan needed, not a repeat measurement.";

/// How a run starts: declined, with its reason and note, or run with the options clamped,
/// the number of media-playlist requests, how many requests it plans (one more, for the
/// first fetch), and its notes so far.
pub enum TimingStart {
    Declined { reason: String, notes: Vec<TimingNote> },
    Run { options: TimingOptions, playlist_requests: usize, planned: usize, notes: Vec<TimingNote> },
}

/// The options as a run clamps them.
pub open spec fn spec_clamped(o: TimingOptions) -> TimingOptions {
    TimingOptions {
        playlist_requests: spec_clamp(o.playlist_requests as int, MIN_PLAYLIST_REQUESTS as int, MAX_PLAYLIST_REQUESTS as int) as usize,
        media_pairs: spec_clamp(o.media_pairs as int, MIN_MEDIA_PAIRS as int, MAX_MEDIA_PAIRS as int) as usize,
        ..o
    }
}

/// Whether `r` is how a run with `requested` starts: without a clock it declines, saying
/// why, with the clock note; else it runs the clamped options, making the asked number of
/// media-playlist requests where playlist timing was selected and one otherwise (with a
/// note that says so), and plans one request more for the first fetch.
pub open spec fn spec_timing_start(r: TimingStart, clock_available: bool, requested: TimingOptions) -> bool {
    match r {
        TimingStart::Declined { reason, notes } => {
            &&& !clock_available
            &&& reason@ == CLOCK_DECLINE_TEXT@
            &&& notes@.len() == 1
            &&& notes@[0].id@ == NOTE_CLOCK_UNAVAILABLE@
            &&& notes@[0].text@ == CLOCK_NOTE_TEXT@
        },
        TimingStart::Run { options, playlist_requests, planned, notes } => {
            &&& clock_available
            &&& options == spec_clamped(requested)
            &&& playlist_requests == if options.playlist_timing { options.playlist_requests } else { 1 }
            &&& planned == playlist_requests + 1
            &&& notes@.len() == if options.playlist_timing { 0int } else { 1int }
            &&& !options.playlist_timing ==> notes@[0].id@ == NOTE_PLAYLIST_ROWS_INCIDENTAL@
                && notes@[0].text@ == PLAYLIST_ROWS_INCIDENTAL_TEXT@
        },
    }
}

/// Decides how a Timing run starts, as `spec_timing_start` says.
pub fn timing_start(clock_available: bool, requested: TimingOptions) -> (r: TimingStart)
    ensures
        spec_timing_start(r, clock_available, requested),
{
    if !clock_available {
        let mut notes: Vec<TimingNote> = Vec::new();
        notes.push(TimingNote::new(NOTE_CLOCK_UNAVAILABLE, String::from_str(CLOCK_NOTE_TEXT)));
        return TimingStart::Declined { reason: String::from_str(CLOCK_DECLINE_TEXT), notes };
    }
    let options = requested.clamped();
    let mut notes: Vec<TimingNote> = Vec::new();
    let playlist_requests = if options.playlist_timing {
        options.playlist_requests
    } else {
        notes.push(TimingNote::new(NOTE_PLAYLIST_ROWS_INCIDENTAL, String::from_str(PLAYLIST_ROWS_INCIDENTAL_TEXT)));
        1
    };
    assert(playlist_requests <= MAX_PLAYLIST_REQUESTS);
    TimingStart::Run { options, playlist_requests, planned: playlist_requests + 1, notes }
}

} // verus!
