use hls_inspect::timing::{timing_start, TimingStart, NOTE_CLOCK_UNAVAILABLE};
use hls_inspect::timing::{
    default_audio_rendition, live_on_vod_note, media_phase_kind, media_request_class,
    mid_bandwidth_variant, provenance_notes, sample_class_and_audio_group, vod_on_live_note,
    AudioSummary, MediaPhaseKind, RequestClass, TimingOptions, VariantSummary,
    MAX_PLAYLIST_REQUESTS, MIN_MEDIA_PAIRS, fetchable_target, plan_pairs, samplable_indices,
    stride_indices, PlannedPair, push_media_plan_notes, push_note, TimingNote, NOTE_BYTE_BUDGET,
    NOTE_LIVE_BLOCKING_RELOAD, NOTE_LIVE_NOT_MEASURED, NOTE_LIVE_OBSERVATION_BOUND, NOTE_LIVE_POLLED,
    NOTE_LIVE_WAIT_TIMEOUT, NOTE_MUXING_UNKNOWN, NOTE_NO_AUDIO_RENDITION,
};
use hls_inspect::live::{EdgePart, EdgeSegment};
use hls_inspect::network::RequestRange;

fn variant(uri: &str, bandwidth: u64, is_iframe: bool, has_audio_codec: bool) -> VariantSummary {
    VariantSummary {
        uri: uri.into(),
        label: uri.into(),
        bandwidth: Some(bandwidth),
        is_iframe,
        audio_group: Some("aud".into()),
        has_audio_codec,
    }
}

fn audio(name: &str, group: &str, uri: Option<&str>, is_default: bool) -> AudioSummary {
    AudioSummary {
        name: name.into(),
        group_id: group.into(),
        uri: uri.map(str::to_string),
        is_default,
    }
}

#[test]
fn counts_are_clamped_to_what_the_run_will_actually_do() {
    let clamped = TimingOptions {
        playlist_requests: 500,
        media_pairs: 0,
        playlist_timing: true,
        media_timing: true,
        live_timing: true,
    }
    .clamped();
    assert_eq!(clamped.playlist_requests, MAX_PLAYLIST_REQUESTS);
    assert_eq!(clamped.media_pairs, MIN_MEDIA_PAIRS);
    assert!(clamped.media_timing);
    assert!(clamped.live_timing);
    let defaults = TimingOptions::default();
    assert_eq!(defaults.playlist_requests, 4);
    assert_eq!(defaults.media_pairs, 4);
}

#[test]
fn neither_kind_of_media_sampling_is_on_by_default() {
    let defaults = TimingOptions::default();
    assert!(!defaults.media_timing);
    assert!(!defaults.live_timing);
    assert!(!defaults.wants_media_samples());
    assert!(TimingOptions { media_timing: true, ..Default::default() }.wants_media_samples());
    assert!(TimingOptions { live_timing: true, ..Default::default() }.wants_media_samples());
}

#[test]
fn a_vod_playlist_is_strided_only_when_vod_media_sampling_was_asked_for() {
    assert_eq!(media_phase_kind(false, true, false), MediaPhaseKind::Vod { live_declined: false });
    assert_eq!(media_phase_kind(false, true, true), MediaPhaseKind::Vod { live_declined: true });
}

#[test]
fn a_live_playlist_is_watched_only_when_live_edge_timing_was_asked_for() {
    assert_eq!(media_phase_kind(true, false, true), MediaPhaseKind::Live { vod_declined: false });
    assert_eq!(media_phase_kind(true, true, true), MediaPhaseKind::Live { vod_declined: true });
}

#[test]
fn vod_media_sampling_on_a_live_playlist_declines_instead_of_watching_the_edge() {
    assert_eq!(media_phase_kind(true, true, false), MediaPhaseKind::DeclineVodOnLive);
}

#[test]
fn live_edge_timing_on_a_vod_playlist_declines_instead_of_striding_the_asset() {
    assert_eq!(media_phase_kind(false, false, true), MediaPhaseKind::DeclineLiveOnVod);
}

#[test]
fn neither_media_check_leaves_the_run_at_its_playlist_rows() {
    assert_eq!(media_phase_kind(false, false, false), MediaPhaseKind::Skip);
    assert_eq!(media_phase_kind(true, false, false), MediaPhaseKind::Skip);
}

#[test]
fn a_declined_media_phase_explains_which_check_could_not_apply() {
    let declined = vod_on_live_note(false);
    assert!(declined.contains("Media sample timing"));
    assert!(declined.contains("EXT-X-ENDLIST"));
    assert!(declined.contains("No media bytes were taken"));
    assert!(!vod_on_live_note(true).contains("No media bytes were taken"));
    let live_declined = live_on_vod_note(false);
    assert!(live_declined.contains("Live edge timing"));
    assert!(live_declined.contains("EXT-X-ENDLIST"));
    assert!(live_declined.contains("No media bytes were taken"));
    assert!(!live_on_vod_note(true).contains("No media bytes were taken"));
}

#[test]
fn the_mid_bandwidth_rung_is_chosen_and_trick_play_is_not() {
    let variants = vec![
        variant("low.m3u8", 500_000, false, false),
        variant("iframe.m3u8", 9_000_000, true, false),
        variant("high.m3u8", 5_000_000, false, false),
        variant("mid.m3u8", 2_000_000, false, false),
    ];
    let chosen = mid_bandwidth_variant(&variants).expect("a rung");
    assert_eq!(chosen.uri, "mid.m3u8");
    assert!(mid_bandwidth_variant(&[]).is_none());
    let even = vec![
        variant("a.m3u8", 1_000, false, false),
        variant("b.m3u8", 2_000, false, false),
        variant("c.m3u8", 3_000, false, false),
        variant("d.m3u8", 4_000, false, false),
    ];
    assert_eq!(mid_bandwidth_variant(&even).expect("a rung").uri, "b.m3u8");
}

#[test]
fn only_trick_play_variants_leaves_nothing_to_time() {
    let variants = vec![variant("iframe.m3u8", 9_000_000, true, false)];
    assert!(mid_bandwidth_variant(&variants).is_none());
}

#[test]
fn equal_bandwidths_are_ranked_by_uri_then_by_position() {
    // Same bandwidth throughout: the URI decides, then the playlist order.
    let variants = vec![
        variant("c.m3u8", 1_000, false, false),
        variant("a.m3u8", 1_000, false, false),
        variant("b.m3u8", 1_000, false, false),
    ];
    assert_eq!(mid_bandwidth_variant(&variants).expect("a rung").uri, "b.m3u8");
    let mut twins = vec![
        variant("same.m3u8", 1_000, false, false),
        variant("same.m3u8", 1_000, false, false),
    ];
    twins[0].label = "first".into();
    twins[1].label = "second".into();
    assert_eq!(mid_bandwidth_variant(&twins).expect("a rung").label, "first");
}

#[test]
fn a_variant_without_bandwidth_ranks_as_zero() {
    let mut variants = vec![
        variant("b.m3u8", 10, false, false),
        variant("a.m3u8", 20, false, false),
        variant("z.m3u8", 0, false, false),
    ];
    variants[2].bandwidth = None;
    // Ladder: z (0), b (10), a (20); the middle is b.
    assert_eq!(mid_bandwidth_variant(&variants).expect("a rung").uri, "b.m3u8");
}

#[test]
fn the_default_audio_rendition_of_the_variants_own_group_is_chosen() {
    let renditions = vec![
        audio("Commentary", "aud", Some("commentary.m3u8"), false),
        audio("English", "aud", Some("en.m3u8"), true),
        audio("English HE", "other", Some("en-he.m3u8"), true),
    ];
    let chosen = default_audio_rendition(&renditions, Some("aud")).expect("a rendition");
    assert_eq!(chosen.uri.as_deref(), Some("en.m3u8"));
}

#[test]
fn a_group_with_no_default_falls_back_to_its_first_rendition_with_a_uri() {
    let renditions = vec![
        audio("Muxed", "aud", None, true),
        audio("English", "aud", Some("en.m3u8"), false),
    ];
    let chosen = default_audio_rendition(&renditions, Some("aud")).expect("a rendition");
    assert_eq!(chosen.uri.as_deref(), Some("en.m3u8"));
}

#[test]
fn a_rendition_with_no_uri_is_muxed_and_never_fetched_on_its_own() {
    let renditions = vec![audio("Muxed", "aud", None, true)];
    assert!(default_audio_rendition(&renditions, Some("aud")).is_none());
}

#[test]
fn a_variant_that_named_no_audio_group_is_paired_with_nothing() {
    let across_groups = vec![
        audio("English", "aud", Some("en.m3u8"), true),
        audio("English HE", "other", Some("en-he.m3u8"), true),
    ];
    assert!(default_audio_rendition(&across_groups, None).is_none());
    let one_group = vec![audio("English", "aud", Some("en.m3u8"), true)];
    assert!(default_audio_rendition(&one_group, None).is_none());
    assert!(default_audio_rendition(&[], None).is_none());
}

#[test]
fn muxing_is_only_claimed_where_codecs_said_so() {
    let muxed = variant("muxed.m3u8", 2_000_000, false, true);
    let demuxed = variant("video.m3u8", 2_000_000, false, false);
    assert_eq!(media_request_class(Some(&muxed)), RequestClass::MuxedSegment);
    assert_eq!(media_request_class(Some(&demuxed)), RequestClass::VideoSegment);
    assert_eq!(media_request_class(None), RequestClass::MediaSegment);
    assert_ne!(media_request_class(None), RequestClass::MuxedSegment);
}

#[test]
fn an_audio_group_is_only_offered_for_a_provably_demuxed_variant() {
    let muxed = variant("muxed.m3u8", 2_000_000, false, true);
    let demuxed = variant("video.m3u8", 2_000_000, false, false);
    assert_eq!(sample_class_and_audio_group(Some(&demuxed)), (RequestClass::VideoSegment, Some("aud")));
    assert_eq!(sample_class_and_audio_group(Some(&muxed)), (RequestClass::MuxedSegment, None));
    assert_eq!(sample_class_and_audio_group(None), (RequestClass::MediaSegment, None));
}

#[test]
fn the_provenance_list_says_what_the_observation_lag_is_not() {
    let notes = provenance_notes();
    assert!(notes.iter().any(|n| n.contains("upper bound")));
    assert!(notes.iter().any(|n| n.contains("a floor on the interval")));
    assert!(notes.iter().any(|n| n.contains("EXT-X-PROGRAM-DATE-TIME is an authoring clock")));
    assert!(notes.iter().any(|n| n.contains("blocking reload's playlist row")));
}

#[test]
fn media_classes_are_the_ones_that_download_bytes() {
    assert!(RequestClass::VideoSegment.is_media());
    assert!(RequestClass::AudioSegment.is_media());
    assert!(RequestClass::MuxedSegment.is_media());
    assert!(RequestClass::MediaSegment.is_media());
    assert!(!RequestClass::MediaPlaylist.is_media());
    assert!(!RequestClass::MultivariantPlaylist.is_media());
}

#[test]
fn a_class_of_unknown_muxing_names_itself_as_unknown() {
    assert_eq!(RequestClass::MediaSegment.label(), "Media segment (muxing unknown)");
}

// ── the sample plan ───────────────────────────────────────────────────────────

fn plan_segment(uri: &str) -> EdgeSegment {
    EdgeSegment { uri: uri.into(), byterange: None, msn: None, gap: false, parts: Vec::new() }
}

fn segments(prefix: &str, n: usize) -> Vec<EdgeSegment> {
    (0..n).map(|i| plan_segment(&format!("{prefix}{i}.m4s"))).collect()
}

fn video_uris<'a>(video: &'a [EdgeSegment], pairs: &[PlannedPair]) -> Vec<&'a str> {
    pairs.iter().map(|p| fetchable_target(&video[p.video]).expect("video half")).collect()
}

fn request_count(pair: &PlannedPair) -> usize {
    1 + usize::from(pair.audio.is_some())
}

#[test]
fn pairs_stride_across_the_asset_rather_than_its_opening_seconds() {
    let video = segments("v", 100);
    let audio = segments("a", 100);
    let pairs = plan_pairs(&video, Some(("English", &audio)), 4);
    assert_eq!(pairs.len(), 4);
    assert_eq!(video_uris(&video, &pairs), vec!["v0.m4s", "v33.m4s", "v66.m4s", "v99.m4s"]);
    // The audio half is sampled at the same position in its own list.
    assert_eq!(audio[pairs[1].audio.expect("audio half")].uri, "a33.m4s");
    assert_eq!(pairs[0].number, 1);
    assert_eq!(request_count(&pairs[0]), 2);
}

#[test]
fn a_muxed_rendition_makes_one_request_per_pair() {
    let video = (0..4).map(|i| plan_segment(&format!("v{i}.ts"))).collect::<Vec<_>>();
    let pairs = plan_pairs(&video, None, 4);
    assert_eq!(pairs.len(), 4);
    assert!(pairs.iter().all(|p| p.audio.is_none()));
    assert!(pairs.iter().all(|p| request_count(p) == 1));
}

#[test]
fn gap_segments_are_never_planned_as_samples() {
    let mut video = segments("v", 4);
    video[1].gap = true;
    video[2].gap = true;
    let pairs = plan_pairs(&video, None, 4);
    assert_eq!(video_uris(&video, &pairs), vec!["v0.m4s", "v3.m4s"]);
}

#[test]
fn a_playlist_of_nothing_but_gaps_plans_no_samples() {
    let mut video = segments("v", 3);
    for s in &mut video {
        s.gap = true;
    }
    assert!(plan_pairs(&video, None, 4).is_empty());
}

#[test]
fn a_short_audio_list_leaves_a_video_only_pair_that_says_why() {
    let video = segments("v", 10);
    let audio = vec![plan_segment("a0.m4s")];
    let pairs = plan_pairs(&video, Some(("English", &audio)), 4);
    assert_eq!(pairs.len(), 4);
    assert!(pairs[0].audio.is_some());
    assert!(pairs[1].audio.is_none());
    assert!(pairs[1].notes.iter().any(|n| n.contains("no audio half")));
    assert_eq!(
        pairs[1].notes,
        vec!["Audio rendition \"English\" has 1 samplable segment(s), so pair 2 has no audio half.".to_string()]
    );
}

#[test]
fn a_byterange_sample_asks_for_the_range_the_playlist_named() {
    let mut entry = plan_segment("v0.m4s");
    entry.byterange = Some(RequestRange::from_length_with_offset(1_000, 500));
    let video = vec![entry];
    let pairs = plan_pairs(&video, None, 1);
    assert_eq!(video[pairs[0].video].byterange, Some(RequestRange::from_length_with_offset(1_000, 500)));
}

#[test]
fn a_part_is_only_sampled_where_the_segment_has_no_uri_of_its_own() {
    let mut entry = EdgeSegment {
        uri: String::new(),
        byterange: None,
        msn: None,
        gap: false,
        parts: vec![EdgePart { uri: "v0.0.m4s".into(), byterange: None, gap: false }],
    };
    let parts_only = vec![entry.clone()];
    let pairs = plan_pairs(&parts_only, None, 1);
    assert_eq!(video_uris(&parts_only, &pairs), vec!["v0.0.m4s"]);
    entry.uri = "v0.m4s".into();
    let with_segment = vec![entry];
    let pairs = plan_pairs(&with_segment, None, 1);
    assert_eq!(video_uris(&with_segment, &pairs), vec!["v0.m4s"]);
}

#[test]
fn a_gap_part_is_not_sampled_either() {
    let entry = EdgeSegment {
        uri: String::new(),
        byterange: None,
        msn: None,
        gap: false,
        parts: vec![EdgePart { uri: "v0.0.m4s".into(), byterange: None, gap: true }],
    };
    let video = vec![entry];
    assert!(samplable_indices(&video).is_empty());
    assert!(plan_pairs(&video, None, 1).is_empty());
}

#[test]
fn strides_cover_first_to_last_and_never_repeat_a_short_list() {
    assert_eq!(stride_indices(100, 4), vec![0, 33, 66, 99]);
    assert_eq!(stride_indices(10, 4), vec![0, 3, 6, 9]);
    assert_eq!(stride_indices(2, 4), vec![0, 1]);
    assert_eq!(stride_indices(5, 1), vec![0]);
    assert!(stride_indices(5, 0).is_empty());
    assert!(stride_indices(0, 3).is_empty());
}

// ── report notes ──────────────────────────────────────────────────────────────

#[test]
fn notes_are_addressable_by_name_not_by_prose() {
    let mut notes: Vec<TimingNote> = Vec::new();
    push_note(&mut notes, NOTE_BYTE_BUDGET, "Stopped after pair 2 of 4.".to_string());
    push_note(&mut notes, NOTE_BYTE_BUDGET, "Stopped after pair 2 of 4.".to_string());
    assert!(notes.iter().any(|n| n.id == NOTE_BYTE_BUDGET));
    assert!(!notes.iter().any(|n| n.id == NOTE_LIVE_NOT_MEASURED));
    // The same note twice is one note.
    assert_eq!(notes.len(), 1);
}

#[test]
fn the_live_notes_say_which_live_story_a_run_told() {
    let ids = [
        NOTE_LIVE_NOT_MEASURED,
        NOTE_LIVE_OBSERVATION_BOUND,
        NOTE_LIVE_BLOCKING_RELOAD,
        NOTE_LIVE_POLLED,
        NOTE_LIVE_WAIT_TIMEOUT,
    ];
    let mut unique: Vec<&str> = ids.to_vec();
    unique.sort_unstable();
    unique.dedup();
    assert_eq!(unique.len(), ids.len());

    let mut notes: Vec<TimingNote> = Vec::new();
    push_note(&mut notes, NOTE_LIVE_OBSERVATION_BOUND, "an upper bound, not an add time".to_string());
    assert!(notes.iter().any(|n| n.id == NOTE_LIVE_OBSERVATION_BOUND));
    assert!(!notes.iter().any(|n| n.id == NOTE_LIVE_NOT_MEASURED));
}

#[test]
fn a_run_that_could_not_establish_muxing_says_so() {
    let mut notes: Vec<TimingNote> = Vec::new();
    push_media_plan_notes(&mut notes, RequestClass::MediaSegment, false);
    assert!(notes.iter().any(|n| n.id == NOTE_MUXING_UNKNOWN));
    assert!(!notes.iter().any(|n| n.id == NOTE_NO_AUDIO_RENDITION));
}

#[test]
fn a_demuxed_variant_that_found_no_audio_rendition_says_so() {
    let mut notes: Vec<TimingNote> = Vec::new();
    push_media_plan_notes(&mut notes, RequestClass::VideoSegment, false);
    assert!(notes.iter().any(|n| n.id == NOTE_NO_AUDIO_RENDITION));
    assert!(!notes.iter().any(|n| n.id == NOTE_MUXING_UNKNOWN));

    // The pairs it plans are one request each, and the note is why.
    let video = segments("v", 4);
    let pairs = plan_pairs(&video, None, 4);
    assert!(pairs.iter().all(|p| request_count(p) == 1));
}

#[test]
fn a_plan_with_both_halves_carries_neither_caveat() {
    let mut notes: Vec<TimingNote> = Vec::new();
    push_media_plan_notes(&mut notes, RequestClass::VideoSegment, true);
    push_media_plan_notes(&mut notes, RequestClass::MuxedSegment, false);
    assert!(notes.is_empty());
}

#[test]
fn a_plan_note_said_twice_is_one_note() {
    let mut notes: Vec<TimingNote> = Vec::new();
    push_media_plan_notes(&mut notes, RequestClass::MediaSegment, false);
    push_media_plan_notes(&mut notes, RequestClass::MediaSegment, true);
    assert_eq!(notes.len(), 1);
    assert!(notes[0].text.contains("unknown muxing"));
}

#[test]
fn timing_start_declines_without_a_clock() {
    match timing_start(false, TimingOptions::default()) {
        TimingStart::Declined { reason, notes } => {
            assert!(reason.contains("declined to run rather than report zeros"));
            assert_eq!(notes.len(), 1);
            assert_eq!(notes[0].id, NOTE_CLOCK_UNAVAILABLE);
        }
        TimingStart::Run { .. } => panic!("a run without a clock must decline"),
    }
}

#[test]
fn timing_start_counts_requests_and_notes_incidental_rows() {
    let asked = TimingOptions { playlist_requests: 500, playlist_timing: true, ..TimingOptions::default() };
    match timing_start(true, asked) {
        TimingStart::Run { options, playlist_requests, planned, notes } => {
            assert_eq!(options.playlist_requests, MAX_PLAYLIST_REQUESTS);
            assert_eq!(playlist_requests, MAX_PLAYLIST_REQUESTS);
            assert_eq!(planned, MAX_PLAYLIST_REQUESTS + 1);
            assert!(notes.is_empty());
        }
        TimingStart::Declined { .. } => panic!("a run with a clock must run"),
    }
    let incidental = TimingOptions { playlist_requests: 5, playlist_timing: false, ..TimingOptions::default() };
    match timing_start(true, incidental) {
        TimingStart::Run { playlist_requests, planned, notes, .. } => {
            assert_eq!(playlist_requests, 1);
            assert_eq!(planned, 2);
            assert_eq!(notes.len(), 1);
            assert_eq!(notes[0].id, "playlist_rows_incidental");
        }
        TimingStart::Declined { .. } => panic!("a run with a clock must run"),
    }
}
