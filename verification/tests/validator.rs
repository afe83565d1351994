use hls_inspect::validator::checks::{
    check_bandwidth_required, check_codecs_attribute, check_media_group_membership, check_discontinuity_sequence, check_encryption_consistency, check_extm3u_header,
    check_live_playlist_min_segments, check_media_sequence_continuity,
    check_media_sequence_duplicate_tags, check_pdt_coverage, check_playlist_type_endlist,
    check_segment_count, check_version_compatibility, extract_msn_from_uri, overlapping_segments, PlaylistFacts,
    SegmentFacts, VariantFacts,
};
use hls_inspect::validator::interstitials::check_interstitials;
use hls_inspect::validator::ll_hls::{check_ll_hls_compliance, LowLatencyFacts};
use hls_inspect::validator::parser::{parse_attributes, resolve_url};
use hls_inspect::validator::report::{
    categorize_issues, check_defs, report_totals, CheckDef, NOT_APPLICABLE, UNGROUPED_NAME,
};
use hls_inspect::validator::text_map::TextMap;
use hls_inspect::validator::types::{
    CheckGroup, CheckId, Confidence, DateRange, Issue, MediaRendition, RenditionReport, RunInputs, Severity,
};
use hls_inspect::validator::{
    absolute_fetch_uri, apply_master_definitions, audio_codec_of, classify_scte35_id,
    delta_response_issues, delta_update_url, derive_color_info, is_master_playlist, replace_hls_variables, resolve_imports,
};

fn defs(pairs: &[(&str, &str)]) -> TextMap {
    let mut m = TextMap::new();
    for (k, v) in pairs {
        m.insert(k.to_string(), v.to_string());
    }
    m
}

fn group<'a>(groups: &'a [CheckGroup], name: &str) -> &'a CheckGroup {
    groups
        .iter()
        .find(|g| g.name == name)
        .unwrap_or_else(|| panic!("no '{name}' group"))
}

// ── parse_attributes ──────────────────────────────────────────────────────────

#[test]
fn parse_attributes_unquoted_values() {
    let attrs = parse_attributes("BANDWIDTH=3000000,RESOLUTION=1920x1080");
    assert_eq!(attrs.get("BANDWIDTH"), Some(&"3000000".to_string()));
    assert_eq!(attrs.get("RESOLUTION"), Some(&"1920x1080".to_string()));
}

#[test]
fn parse_attributes_quoted_string() {
    let attrs = parse_attributes(r#"ID="break-1",START-DATE="2024-01-01T00:00:00Z""#);
    assert_eq!(attrs.get("ID"), Some(&"break-1".to_string()));
    assert_eq!(attrs.get("START-DATE"), Some(&"2024-01-01T00:00:00Z".to_string()));
}

#[test]
fn parse_attributes_mixed_quoted_and_unquoted() {
    let attrs = parse_attributes(r#"BANDWIDTH=5000000,CODECS="avc1.64001f,mp4a.40.2",RESOLUTION=1920x1080"#);
    assert_eq!(attrs.get("BANDWIDTH"), Some(&"5000000".to_string()));
    assert_eq!(attrs.get("CODECS"), Some(&"avc1.64001f,mp4a.40.2".to_string()));
    assert_eq!(attrs.get("RESOLUTION"), Some(&"1920x1080".to_string()));
}

#[test]
fn parse_attributes_empty_string() {
    let attrs = parse_attributes("");
    assert!(attrs.is_empty());
}

#[test]
fn parse_attributes_keys_are_uppercased() {
    let attrs = parse_attributes("bandwidth=1000");
    assert!(attrs.contains_key("BANDWIDTH"));
    assert!(!attrs.contains_key("bandwidth"));
}

#[test]
fn parse_attributes_quoted_value_with_commas() {
    let attrs = parse_attributes(r#"X-ASSET-LIST="https://example.com/ads.json?a=1&b=2",DURATION=30"#);
    assert_eq!(
        attrs.get("X-ASSET-LIST"),
        Some(&"https://example.com/ads.json?a=1&b=2".to_string())
    );
    assert_eq!(attrs.get("DURATION"), Some(&"30".to_string()));
}

#[test]
fn parse_attributes_later_values_replace_earlier_ones_and_space_is_trimmed() {
    let attrs = parse_attributes("  A = 1 , a=2,, B=\"x\" ,C  ");
    assert_eq!(attrs.get("A"), Some(&"2".to_string()));
    assert_eq!(attrs.get("B"), Some(&"x".to_string()));
    // A name with no `=` after it ends the list.
    assert!(!attrs.contains_key("C"));
    assert_eq!(attrs.entry_count(), 2);
}

#[test]
fn parse_attributes_unterminated_quote_runs_to_the_end() {
    let attrs = parse_attributes("URI=\"a,b");
    assert_eq!(attrs.get("URI"), Some(&"a,b".to_string()));
}

// ── resolve_url ───────────────────────────────────────────────────────────────

#[test]
fn resolve_url_absolute_returns_unchanged() {
    let base = "https://cdn.example.com/master.m3u8";
    let abs = "https://other.cdn.com/stream.m3u8";
    assert_eq!(resolve_url(base, abs), abs);
}

#[test]
fn resolve_url_relative_joined_to_base_directory() {
    let base = "https://cdn.example.com/hls/master.m3u8";
    assert_eq!(resolve_url(base, "video/1080p.m3u8"), "https://cdn.example.com/hls/video/1080p.m3u8");
}

#[test]
fn resolve_url_parent_directory_normalized() {
    let base = "https://ads.com/1234/main/mvp.m3u8";
    assert_eq!(resolve_url(base, "../media/3.m3u8"), "https://ads.com/1234/media/3.m3u8");
}

#[test]
fn resolve_url_root_relative() {
    let base = "https://cdn.example.com/hls/master.m3u8";
    assert_eq!(resolve_url(base, "/abs/path.m3u8"), "https://cdn.example.com/abs/path.m3u8");
}

#[test]
fn resolve_url_relative_no_slash_in_base_returns_relative() {
    assert_eq!(resolve_url("master.m3u8", "audio.m3u8"), "audio.m3u8");
}

#[test]
fn resolve_url_http_prefix_is_recognised_as_absolute() {
    let abs = "http://insecure.cdn.com/stream.m3u8";
    assert_eq!(resolve_url("https://other.com/master.m3u8", abs), abs);
}

#[test]
fn resolve_url_relative_base_joins_at_its_last_slash() {
    assert_eq!(resolve_url("hls/master.m3u8", "v.m3u8"), "hls/v.m3u8");
}

// ── is_master_playlist ────────────────────────────────────────────────────────

#[test]
fn is_master_detects_stream_inf() {
    assert!(is_master_playlist("#EXTM3U\n#EXT-X-STREAM-INF:BANDWIDTH=3000000\nvideo.m3u8\n"));
}

#[test]
fn is_master_detects_iframe_stream_inf() {
    assert!(is_master_playlist("#EXTM3U\n#EXT-X-I-FRAME-STREAM-INF:BANDWIDTH=1000000,URI=\"iframe.m3u8\"\n"));
}

#[test]
fn is_master_false_for_media_playlist() {
    assert!(!is_master_playlist("#EXTM3U\n#EXT-X-TARGETDURATION:6\n#EXTINF:4.0,\nseg0.mp4\n"));
}

// ── derive_color_info ─────────────────────────────────────────────────────────

#[test]
fn derive_color_info_hdr10_from_pq() {
    assert_eq!(derive_color_info(Some("PQ"), None), Some("HDR10".to_string()));
}

#[test]
fn derive_color_info_hlg() {
    assert_eq!(derive_color_info(Some("HLG"), None), Some("HLG".to_string()));
}

#[test]
fn derive_color_info_sdr() {
    assert_eq!(derive_color_info(Some("SDR"), None), Some("SDR".to_string()));
}

#[test]
fn derive_color_info_dolby_vision_hevc() {
    let result = derive_color_info(None, Some("dvh1.08.07,hvc1.2.4.L153.B0"));
    assert_eq!(result, Some("Dolby Vision (HEVC)".to_string()));
}

#[test]
fn derive_color_info_dolby_vision_av1() {
    let result = derive_color_info(None, Some("av01.0.08M.10,dav1.0.09M.10"));
    assert_eq!(result, Some("Dolby Vision (AV1)".to_string()));
}

#[test]
fn derive_color_info_no_range_no_dv_is_none() {
    assert_eq!(derive_color_info(None, Some("avc1.64001f,mp4a.40.2")), None);
}

#[test]
fn dolby_vision_wins_over_video_range() {
    assert_eq!(derive_color_info(Some("PQ"), Some("dvh1.05.06")), Some("Dolby Vision".to_string()));
    assert_eq!(derive_color_info(Some("pq"), None), None);
}

// ── classify_scte35_id ────────────────────────────────────────────────────────

#[test]
fn scte35_classify_ad_break() {
    assert_eq!(classify_scte35_id("0x30-1-12345678"), "ad_break");
    assert_eq!(classify_scte35_id("0x34-2-99999999"), "ad_break");
}

#[test]
fn scte35_classify_program() {
    assert_eq!(classify_scte35_id("0x10-1-12345678"), "program");
}

#[test]
fn scte35_classify_chapter() {
    assert_eq!(classify_scte35_id("0x20-1-12345678"), "chapter");
}

#[test]
fn scte35_classify_frame_ad() {
    assert_eq!(classify_scte35_id("0x38-1-12345678"), "frame_ad");
}

#[test]
fn scte35_classify_network() {
    assert_eq!(classify_scte35_id("0x50-1-12345678"), "network");
}

#[test]
fn scte35_classify_breakaway() {
    assert_eq!(classify_scte35_id("0x40-1-12345678"), "breakaway");
}

#[test]
fn scte35_classify_unknown_is_other() {
    assert_eq!(classify_scte35_id("unknown-id"), "other");
    assert_eq!(classify_scte35_id(""), "other");
}

#[test]
fn scte35_classify_reads_the_type_byte_in_either_case() {
    assert_eq!(classify_scte35_id("0X3F-1"), "frame_ad");
    assert_eq!(classify_scte35_id("0x5a"), "network");
    assert_eq!(classify_scte35_id("0x100-1"), "other");
    assert_eq!(classify_scte35_id("0xzz-1"), "other");
}

// ── extract_msn_from_uri ──────────────────────────────────────────────────────

#[test]
fn extract_msn_numeric_filename() {
    assert_eq!(extract_msn_from_uri("https://cdn.example.com/segs/151674692.mp4"), Some(151674692));
}

#[test]
fn extract_msn_hyphenated_cdn_pattern() {
    assert_eq!(
        extract_msn_from_uri("https://cdn.example.com/20260715T225158-151674692-03-ts.m4v"),
        Some(151674692)
    );
}

#[test]
fn extract_msn_short_field_not_matched() {
    assert_eq!(extract_msn_from_uri("https://cdn.example.com/seg-1234-abc.mp4"), None);
}

#[test]
fn extract_msn_of_a_number_too_large_is_none() {
    assert_eq!(extract_msn_from_uri("99999999999999999999.ts"), None);
    assert_eq!(extract_msn_from_uri("42"), Some(42));
}

// ── variables ─────────────────────────────────────────────────────────────────

#[test]
fn absolute_fetch_uri_with_absolute_define_value() {
    let d = defs(&[("HOST", "https://cdn.example/hls/")]);
    assert_eq!(
        absolute_fetch_uri("https://origin.example/master.m3u8", "{$HOST}v.m3u8", &d),
        "https://cdn.example/hls/v.m3u8"
    );
}

#[test]
fn absolute_fetch_uri_joins_relative_after_substitution() {
    let d = defs(&[("PATH", "a1")]);
    assert_eq!(
        absolute_fetch_uri("https://ex.com/hls/master.m3u8", "{$PATH}/prog.m3u8", &d),
        "https://ex.com/hls/a1/prog.m3u8"
    );
}

#[test]
fn undefined_variables_are_left_as_written() {
    let d = defs(&[("A", "x")]);
    assert_eq!(replace_hls_variables("{$A}-{$B}-{$A", &d), "x-{$B}-{$A");
}

#[test]
fn apply_master_definitions_copies_all_defs_as_fallback() {
    let master_defs = defs(&[("VAR_A", "valueA"), ("VAR_B", "valueB")]);
    let mut pl_defs = TextMap::new();
    apply_master_definitions("", &master_defs, &mut pl_defs);
    assert_eq!(pl_defs.get("VAR_A"), Some(&"valueA".to_string()));
    assert_eq!(pl_defs.get("VAR_B"), Some(&"valueB".to_string()));
}

#[test]
fn apply_master_definitions_does_not_overwrite_existing_pl_def() {
    let master_defs = defs(&[("VAR_A", "from_master")]);
    let mut pl_defs = defs(&[("VAR_A", "from_pl")]);
    apply_master_definitions("", &master_defs, &mut pl_defs);
    assert_eq!(pl_defs.get("VAR_A"), Some(&"from_pl".to_string()));
}

#[test]
fn resolve_imports_picks_up_explicit_import_tag() {
    let master_defs = defs(&[("TOKEN", "abc123"), ("OTHER", "ignored")]);
    let content = "#EXT-X-DEFINE:IMPORT=\"TOKEN\"\n";
    let mut pl_defs = TextMap::new();
    resolve_imports(content, &master_defs, &mut pl_defs);
    assert_eq!(pl_defs.get("TOKEN"), Some(&"abc123".to_string()));
    assert!(!pl_defs.contains_key("OTHER"), "OTHER was not imported");
}

#[test]
fn a_date_range_of_class_interstitial_is_one() {
    let attrs = parse_attributes(r#"ID="ad-1",CLASS="com.apple.hls.interstitial""#);
    let dr = DateRange { id: Some("ad-1".into()), attributes: attrs, raw_attributes: String::new() };
    assert!(dr.is_interstitial());
    let plain = DateRange { id: None, attributes: parse_attributes("ID=\"x\""), raw_attributes: String::new() };
    assert!(!plain.is_interstitial());
}

// ── grouping ──────────────────────────────────────────────────────────────────

#[test]
fn check_defs_cover_every_check_id() {
    let table: Vec<CheckDef> = check_defs();
    for id in CheckId::all() {
        let matches = table.iter().filter(|d| d.id == id).count();
        assert_eq!(matches, 1, "{id:?} must have exactly one row, found {matches}");
    }
    assert!(!table.iter().any(|d| d.id == CheckId::Unassigned));
}

#[test]
fn target_duration_groups_do_not_steal_each_others_findings() {
    let issues = vec![
        Issue::error("rfc8216bis §4.4.3.1: TARGETDURATION missing".into())
            .for_check(CheckId::TargetDurationCompliance),
        Issue::error("rfc8216bis §6.2.4: TARGETDURATION values differ".into())
            .for_check(CheckId::TargetDurationConsistency),
    ];
    let groups = categorize_issues(&issues, &RunInputs::everything());
    assert_eq!(group(&groups, "Target Duration Compliance").issues.len(), 1);
    assert_eq!(group(&groups, "Target Duration Consistency").issues.len(), 1);
}

#[test]
fn fetch_failures_reach_the_report() {
    let issues = vec![
        Issue::warn("rfc8216bis §6.2: Could not fetch media playlist 'x': 404".into())
            .for_check(CheckId::PlaylistFetch),
    ];
    let groups = categorize_issues(&issues, &RunInputs::everything());
    assert_eq!(group(&groups, "Playlist Retrieval").issues.len(), 1);
    assert_eq!(group(&groups, "Playlist Retrieval").status, "WARN");
}

#[test]
fn a_finding_makes_its_check_applicable_whatever_the_inputs_say() {
    let issues = vec![
        Issue::error("rfc8216bis §4.4.6.2: BANDWIDTH missing".into())
            .for_check(CheckId::BandwidthRequired),
    ];
    let groups = categorize_issues(&issues, &RunInputs::default());
    assert_eq!(group(&groups, "BANDWIDTH Required").status, "FAIL");
}

#[test]
fn a_finding_that_names_no_check_is_still_reported() {
    let issues = vec![Issue::error("something nothing claims".into())];
    let groups = categorize_issues(&issues, &RunInputs::everything());
    let other = group(&groups, UNGROUPED_NAME);
    assert_eq!(other.issues.len(), 1, "an unclaimed finding must not be dropped");
    assert_eq!(other.status, "FAIL");
}

#[test]
fn every_finding_is_grouped_exactly_once() {
    let issues: Vec<Issue> = CheckId::all()
        .into_iter()
        .map(|id| Issue::warn(format!("finding from {id:?}")).for_check(id))
        .collect();
    let groups = categorize_issues(&issues, &RunInputs::everything());
    let grouped: usize = groups.iter().map(|g| g.issues.len()).sum();
    assert_eq!(grouped, issues.len(), "every finding must appear in exactly one group");
    assert!(!groups.iter().any(|g| g.name == UNGROUPED_NAME));
}

#[test]
fn a_run_with_nothing_to_read_reports_its_checks_not_applicable() {
    let groups = categorize_issues(&[], &RunInputs::default());
    assert_eq!(group(&groups, "BANDWIDTH Required").status, NOT_APPLICABLE);
    assert_eq!(group(&groups, "LL-HLS Compliance").status, NOT_APPLICABLE);
    assert_eq!(group(&groups, "EXTM3U Header").status, "PASS");
    assert_eq!(groups.len(), check_defs().len());
    let info_only = vec![Issue::info("fyi".into()).for_check(CheckId::SegmentCount)];
    let groups = categorize_issues(&info_only, &RunInputs::default());
    assert_eq!(group(&groups, "Segment Count").status, "PASS");
}

// ── audio_codec_of ────────────────────────────────────────────────────────────

#[test]
fn audio_codec_is_found_whichever_order_codecs_are_listed_in() {
    assert_eq!(audio_codec_of("avc1.64001f,mp4a.40.2").as_deref(), Some("mp4a.40.2"));
    assert_eq!(audio_codec_of("mp4a.40.2,avc1.64001f").as_deref(), Some("mp4a.40.2"));
    assert_eq!(audio_codec_of("hvc1.2.4.L123.B0, ec-3").as_deref(), Some("ec-3"));
    assert_eq!(audio_codec_of("mp4a.40.2").as_deref(), Some("mp4a.40.2"));
}

#[test]
fn a_codecs_attribute_with_no_audio_value_yields_none() {
    assert_eq!(audio_codec_of("avc1.64001f").as_deref(), None);
    assert_eq!(audio_codec_of("hvc1.2.4.L123.B0,wvtt").as_deref(), None);
    assert_eq!(audio_codec_of("").as_deref(), None);
}

#[test]
fn an_unrecognised_codec_beside_a_video_one_is_taken_as_the_audio() {
    assert_eq!(audio_codec_of("avc1.64001f,xyz1.2").as_deref(), Some("xyz1.2"));
}

#[test]
fn codec_prefixes_match_in_any_case() {
    assert_eq!(audio_codec_of("AVC1.64001f,fLaC").as_deref(), Some("fLaC"));
}

// ── findings ──────────────────────────────────────────────────────────────────

#[test]
fn findings_are_measured_unless_a_check_says_otherwise() {
    assert_eq!(Issue::error("boom".to_string()).confidence, Confidence::Measured);
    assert_eq!(Issue::default().confidence, Confidence::Measured);
    assert_eq!(
        Issue::warn("hmm".to_string()).with_confidence(Confidence::Heuristic).confidence,
        Confidence::Heuristic
    );
}

#[test]
fn only_measured_evidence_can_carry_an_error() {
    assert_eq!(Confidence::Measured.cap(Severity::Error), Severity::Error);
    assert_eq!(Confidence::Sampled.cap(Severity::Error), Severity::Warn);
    assert_eq!(Confidence::Heuristic.cap(Severity::Error), Severity::Warn);
    assert_eq!(Confidence::Heuristic.cap(Severity::Info), Severity::Info);
}

#[test]
fn the_builders_fill_in_what_a_finding_names() {
    let issue = Issue::error("drift".to_string())
        .for_check(CheckId::DurationDrift)
        .between_renditions("v-hi", "v-lo")
        .between_uris("hi/s12.m4s", "lo/s12.m4s")
        .at_segment(12)
        .with_note("seen in 3 renditions");
    assert_eq!(issue.severity, Severity::Error);
    assert_eq!(issue.check_id, CheckId::DurationDrift);
    assert_eq!(issue.rendition_a.as_deref(), Some("v-hi"));
    assert_eq!(issue.rendition_b.as_deref(), Some("v-lo"));
    assert_eq!(issue.uri_a.as_deref(), Some("hi/s12.m4s"));
    assert_eq!(issue.uri_b.as_deref(), Some("lo/s12.m4s"));
    assert_eq!(issue.segment_index, 12);
    assert_eq!(issue.uri_note.as_deref(), Some("seen in 3 renditions"));

    let plain = Issue::warn("nothing else to say".to_string()).in_rendition("v").at_uri("v.m3u8");
    assert_eq!(plain.rendition_a.as_deref(), Some("v"));
    assert_eq!(plain.uri_a.as_deref(), Some("v.m3u8"));
    assert_eq!((plain.rendition_b, plain.uri_b, plain.uri_note), (None, None, None));
    assert_eq!((plain.segment_index, plain.count), (-1, 1));
}

#[test]
fn measured_findings_need_no_qualifier() {
    assert_eq!(Confidence::Measured.note(), None);
    assert!(Confidence::Sampled.note().is_some());
    assert!(Confidence::Heuristic.note().is_some());
}

#[test]
fn severities_print_as_the_report_names_them() {
    assert_eq!(Severity::Error.to_text(), "ERROR");
    assert_eq!(Confidence::Sampled.to_text(), "SAMPLED");
    assert_eq!(Severity::default(), Severity::Warn);
}

// ── playlist rules ────────────────────────────────────────────────────────────

fn make_playlist(name: &str, content: &str) -> PlaylistFacts {
    PlaylistFacts {
        name: name.to_string(),
        raw_content: content.to_string(),
        media_type: "VIDEO".to_string(),
        is_iframe: false,
        has_endlist: false,
        playlist_type: None,
        discontinuity_sequence: 0,
        media_sequence: 0,
        skipped_segments: 0,
        version: 1,
        segments: Vec::new(),
        encryption_methods: Vec::new(),
    }
}

fn make_segment(uri: &str) -> SegmentFacts {
    SegmentFacts { uri: uri.to_string(), has_pdt: false, fractional_duration: None }
}

fn make_segment_with_pdt(uri: &str) -> SegmentFacts {
    SegmentFacts { has_pdt: true, ..make_segment(uri) }
}

fn segments(n: usize) -> Vec<SegmentFacts> {
    (0..n).map(|i| make_segment(&format!("s{i}.mp4"))).collect()
}

#[test]
fn extm3u_header_passes_when_first_line_is_extm3u() {
    let pl = make_playlist("v", "#EXTM3U\n#EXT-X-TARGETDURATION:6\n");
    let issues = check_extm3u_header(&[pl]);
    assert!(issues.is_empty(), "expected no issues, got: {:?}", issues);
}

#[test]
fn extm3u_header_errors_when_first_line_is_missing() {
    let pl = make_playlist("v", "#EXT-X-TARGETDURATION:6\n#EXTM3U\n");
    let issues = check_extm3u_header(&[pl]);
    assert_eq!(issues.len(), 1);
    assert_eq!(issues[0].severity, Severity::Error);
    assert_eq!(
        issues[0].message,
        "RFC 8216bis §4.4.1.1: Playlist 'v' does not start with #EXTM3U. First line: '#EXT-X-TARGETDURATION:6'"
    );
    assert_eq!(issues[0].check_id, CheckId::ExtM3uHeader);
}

#[test]
fn a_crlf_first_line_is_still_extm3u() {
    assert!(check_extm3u_header(&[make_playlist("v", "#EXTM3U\r\n#EXT-X-VERSION:3\r\n")]).is_empty());
    assert!(check_extm3u_header(&[make_playlist("v", "  #EXTM3U  ")]).is_empty());
    assert_eq!(check_extm3u_header(&[make_playlist("v", "")]).len(), 1);
}

#[test]
fn live_playlist_with_two_segments_errors() {
    let mut pl = make_playlist("v", "#EXTM3U\n");
    pl.has_endlist = false;
    pl.segments = segments(2);
    let issues = check_live_playlist_min_segments(&[pl]);
    assert!(issues.iter().any(|i| i.severity == Severity::Error && i.message.contains("at least 3 segments")));
    assert!(issues[0].message.contains("contains only 2 segment(s)"));
}

#[test]
fn vod_playlist_with_two_segments_passes_min_segment_check() {
    let mut pl = make_playlist("v", "#EXTM3U\n#EXT-X-ENDLIST\n");
    pl.has_endlist = true;
    pl.segments = segments(2);
    let issues = check_live_playlist_min_segments(&[pl]);
    assert!(issues.is_empty(), "VOD playlist must not trigger live-segment count check");
}

#[test]
fn vod_without_endlist_errors() {
    let mut pl = make_playlist("v", "#EXTM3U\n#EXT-X-PLAYLIST-TYPE:VOD\n");
    pl.playlist_type = Some("VOD".to_string());
    pl.has_endlist = false;
    let issues = check_playlist_type_endlist(&[pl]);
    assert!(issues.iter().any(|i| i.severity == Severity::Error && i.message.contains("PLAYLIST-TYPE:VOD")));
}

#[test]
fn vod_with_endlist_passes() {
    let mut pl = make_playlist("v", "#EXTM3U\n#EXT-X-PLAYLIST-TYPE:VOD\n#EXT-X-ENDLIST\n");
    pl.playlist_type = Some("VOD".to_string());
    pl.has_endlist = true;
    let issues = check_playlist_type_endlist(&[pl]);
    assert!(issues.is_empty());
}

#[test]
fn event_without_endlist_passes() {
    let mut pl = make_playlist("v", "#EXTM3U\n#EXT-X-PLAYLIST-TYPE:EVENT\n");
    pl.playlist_type = Some("EVENT".to_string());
    pl.has_endlist = false;
    let issues = check_playlist_type_endlist(&[pl]);
    assert!(issues.is_empty());
}

#[test]
fn discontinuity_finding_lands_in_its_own_group() {
    let issues = check_discontinuity_sequence(&[
        {
            let mut pl = make_playlist("v0", "");
            pl.discontinuity_sequence = 0;
            pl
        },
        {
            let mut pl = make_playlist("v1", "");
            pl.discontinuity_sequence = 3;
            pl
        },
    ]);
    assert_eq!(issues.len(), 1, "expected one discontinuity finding: {issues:?}");
    assert_eq!(
        issues[0].message,
        "EXT-X-DISCONTINUITY-SEQUENCE values differ across renditions: v0=0, v1=3. They SHOULD be consistent for synchronized playback."
    );
    let groups = categorize_issues(&issues, &RunInputs::everything());
    assert_eq!(group(&groups, "Discontinuity Sequence").issues.len(), 1);
    assert_eq!(group(&groups, "Discontinuity Sequence").status, "FAIL");
    assert!(groups.iter().all(|g| g.name == "Discontinuity Sequence" || g.issues.is_empty()));
}

#[test]
fn segment_counts_are_compared_across_finished_video_only() {
    let mut a = make_playlist("hi", "");
    a.has_endlist = true;
    a.segments = segments(10);
    let mut b = make_playlist("lo", "");
    b.has_endlist = true;
    b.segments = segments(9);
    let mut audio = make_playlist("aud", "");
    audio.has_endlist = true;
    audio.media_type = "AUDIO".into();
    audio.segments = segments(4);
    let issues = check_segment_count(&[a.clone(), audio.clone(), b.clone()]);
    assert_eq!(issues.len(), 1);
    assert_eq!(
        issues[0].message,
        "Segment count mismatch across VIDEO renditions: hi=10, lo=9. All video renditions should have the same number of segments."
    );
    b.segments = segments(10);
    assert!(check_segment_count(&[a, audio, b]).is_empty());
}

// ── PDT coverage ──────────────────────────────────────────────────────────────

#[test]
fn pdt_coverage_all_present_no_issues() {
    let mut pl = make_playlist("v", "#EXTM3U\n");
    pl.segments = vec![make_segment_with_pdt("s0.mp4"), make_segment_with_pdt("s1.mp4")];
    let issues = check_pdt_coverage(&[pl]);
    assert!(issues.is_empty());
}

#[test]
fn pdt_coverage_partial_warns() {
    let mut pl = make_playlist("v", "#EXTM3U\n");
    pl.segments = vec![make_segment_with_pdt("s0.mp4"), make_segment("s1.mp4")];
    let issues = check_pdt_coverage(&[pl]);
    assert!(issues.iter().any(|i| i.severity == Severity::Warn && i.message.contains("partial PDT")));
    assert_eq!(
        issues[0].message,
        "RFC 8216bis §6.2.4: Playlist 'v' has partial PDT coverage: 1 of 2 segments lack EXT-X-PROGRAM-DATE-TIME."
    );
    assert_eq!(issues[0].check_id, CheckId::PdtCoverage);
}

#[test]
fn pdt_coverage_none_no_issues() {
    let mut pl = make_playlist("v", "#EXTM3U\n");
    pl.segments = vec![make_segment("s0.mp4"), make_segment("s1.mp4")];
    let issues = check_pdt_coverage(&[pl]);
    assert!(issues.is_empty());
}

// ── singleton tags ────────────────────────────────────────────────────────────

#[test]
fn duplicate_targetduration_errors() {
    let content = "#EXTM3U\n#EXT-X-TARGETDURATION:6\n#EXT-X-TARGETDURATION:4\n";
    let pl = make_playlist("v", content);
    let issues = check_media_sequence_duplicate_tags(&[pl]);
    assert!(issues.iter().any(|i| i.severity == Severity::Error && i.message.contains("EXT-X-TARGETDURATION")));
}

#[test]
fn single_targetduration_passes() {
    let content = "#EXTM3U\n#EXT-X-TARGETDURATION:6\n";
    let pl = make_playlist("v", content);
    let issues = check_media_sequence_duplicate_tags(&[pl]);
    assert!(issues.is_empty());
}

#[test]
fn singleton_findings_name_the_tag_count_and_playlist_in_tag_order() {
    let content = "#EXTM3U\n  #EXT-X-VERSION:3\r\n#EXT-X-TARGETDURATION:6\n#EXT-X-VERSION:4\n\
                   #EXT-X-INDEPENDENT-SEGMENTS\n#EXT-X-INDEPENDENT-SEGMENTS\n#EXT-X-INDEPENDENT-SEGMENTS";
    let issues = check_media_sequence_duplicate_tags(&[make_playlist("hi", content)]);
    assert_eq!(issues.len(), 2);
    assert_eq!(
        issues[0].message,
        "RFC 8216bis §4.4.3.2: Singleton tag '#EXT-X-VERSION' appears 2 times in 'hi'. It MUST appear at most once."
    );
    assert_eq!(
        issues[1].message,
        "RFC 8216bis §4.4.3.2: Singleton tag '#EXT-X-INDEPENDENT-SEGMENTS' appears 3 times in 'hi'. It MUST appear at most once."
    );
    assert_eq!(issues[0].check_id, CheckId::SingletonTags);
    assert_eq!(issues[0].rendition_a.as_deref(), Some("hi"));
}

// ── version compatibility ─────────────────────────────────────────────────────

#[test]
fn version_shortfalls_are_reported_in_order() {
    let mut pl = make_playlist(
        "v",
        "#EXTM3U\n#EXT-X-KEY:METHOD=AES-128,URI=\"k\",IV=0x1\n#EXT-X-BYTERANGE:100@0\n#EXT-X-MAP:URI=\"i.mp4\"\n",
    );
    pl.segments = vec![
        make_segment("a.ts"),
        SegmentFacts { fractional_duration: Some("5.005".into()), ..make_segment("b.ts") },
        SegmentFacts { fractional_duration: Some("4.500".into()), ..make_segment("c.ts") },
    ];
    let issues = check_version_compatibility(&[pl]);
    let messages: Vec<&str> = issues.iter().map(|i| i.message.as_str()).collect();
    assert_eq!(
        messages,
        vec![
            "RFC 8216bis §8: 'v' uses EXT-X-KEY with IV attribute which requires VERSION >= 2. Declared version: 1.",
            "RFC 8216bis §8: 'v' uses floating-point EXTINF (5.005s) which requires VERSION >= 3. Declared version: 1.",
            "RFC 8216bis §8: 'v' uses EXT-X-BYTERANGE which requires VERSION >= 4. Declared version: 1.",
            "RFC 8216bis §8: 'v' uses EXT-X-MAP without I-FRAMES-ONLY which requires VERSION >= 5. Declared version: 1.",
        ]
    );
    assert!(issues.iter().all(|i| i.check_id == CheckId::VersionCompatibility && i.severity == Severity::Error));
}

#[test]
fn a_high_enough_version_passes_and_iframe_maps_need_less() {
    let mut pl = make_playlist("v", "#EXTM3U\n#EXT-X-MAP:URI=\"i.mp4\"\n#EXT-X-SKIP:SKIPPED-SEGMENTS=3\n");
    pl.version = 9;
    assert!(check_version_compatibility(&[pl.clone()]).is_empty());
    pl.version = 8;
    let issues = check_version_compatibility(&[pl]);
    assert_eq!(issues.len(), 1);
    assert!(issues[0].message.contains("EXT-X-SKIP which requires VERSION >= 9. Declared version: 8."));
    let mut iframe = make_playlist("i", "#EXTM3U\n#EXT-X-I-FRAMES-ONLY\n#EXT-X-MAP:URI=\"i.mp4\"\n");
    iframe.version = 4;
    assert!(check_version_compatibility(&[iframe]).is_empty());
}

// ── BANDWIDTH ─────────────────────────────────────────────────────────────────

#[test]
fn a_variant_without_bandwidth_errors_at_its_uri() {
    let variants = vec![
        VariantFacts { uri: "hi.m3u8".into(), bandwidth: Some(5_000_000), codecs: None, audio_group: None },
        VariantFacts { uri: "lo.m3u8".into(), bandwidth: None, codecs: None, audio_group: None },
    ];
    let issues = check_bandwidth_required(&variants);
    assert_eq!(issues.len(), 1);
    assert_eq!(issues[0].uri_a.as_deref(), Some("lo.m3u8"));
    assert_eq!(issues[0].check_id, CheckId::BandwidthRequired);
    assert_eq!(
        issues[0].message,
        "RFC 8216bis §4.4.6.2: EXT-X-STREAM-INF for URI 'lo.m3u8' is missing the BANDWIDTH attribute, which is REQUIRED."
    );
}

// ── media sequence ────────────────────────────────────────────────────────────

#[test]
fn uri_sequence_numbers_must_follow_the_declared_base() {
    let mut pl = make_playlist("v", "#EXTM3U\n#EXT-X-MEDIA-SEQUENCE:100\n#EXTINF:4,\n100.ts\n");
    pl.media_sequence = 100;
    pl.has_endlist = true;
    pl.segments = vec![make_segment("https://cdn/100.ts"), make_segment("https://cdn/102.ts")];
    let issues = check_media_sequence_continuity(&[pl]);
    assert_eq!(issues.len(), 1);
    assert_eq!(issues[0].severity, Severity::Warn);
    assert_eq!(issues[0].segment_index, 1);
    assert_eq!(issues[0].uri_a.as_deref(), Some("https://cdn/102.ts"));
    assert_eq!(
        issues[0].message,
        "rfc8216bis §4.4.3.2: Segment MSN mismatch in 'v' at index 1: URI implies MSN=102 but expected MSN=101 (base=100, skipped=0, index=1)."
    );
    assert_eq!(issues[0].check_id, CheckId::MediaSequenceTags);
}

#[test]
fn a_missing_media_sequence_tag_is_reported_for_live_playlists() {
    let mut pl = make_playlist("v", "#EXTM3U\n#EXTINF:4,\n5.ts\n#EXTINF:4,\n6.ts\n");
    pl.segments = vec![make_segment("5.ts"), make_segment("6.ts")];
    let issues = check_media_sequence_continuity(&[pl]);
    let messages: Vec<&str> = issues.iter().map(|i| i.message.as_str()).collect();
    assert_eq!(messages.len(), 4, "{messages:?}");
    assert!(messages[0].contains("Live playlist 'v' does not declare EXT-X-MEDIA-SEQUENCE"));
    assert_eq!(
        messages[1],
        "rfc8216bis §4.4.3.2: EXT-X-MEDIA-SEQUENCE absent from 'v' but first segment URI implies MSN=5. Add EXT-X-MEDIA-SEQUENCE to declare the correct base MSN."
    );
    assert_eq!(issues[1].segment_index, 0);
    assert!(messages[2].contains("at index 0: URI implies MSN=5 but expected MSN=0"));
    assert!(messages[3].contains("at index 1: URI implies MSN=6 but expected MSN=1"));
}

#[test]
fn the_media_sequence_tag_must_come_before_the_first_segment() {
    let mut pl = make_playlist(
        "v",
        "#EXTM3U\n#EXTINF:4,\nseg.ts\n#EXT-X-MEDIA-SEQUENCE:7\n",
    );
    pl.media_sequence = 7;
    pl.has_endlist = true;
    pl.segments = vec![make_segment("seg.ts")];
    let issues = check_media_sequence_continuity(&[pl]);
    assert_eq!(issues.len(), 1);
    assert_eq!(
        issues[0].message,
        "rfc8216bis §4.4.3.2: EXT-X-MEDIA-SEQUENCE MUST appear before the first Media Segment URI in 'v' (tag at line 4, first segment at line 3)."
    );
}

#[test]
fn skipped_segments_move_the_expected_sequence_number() {
    let mut pl = make_playlist("v", "#EXTM3U\n#EXT-X-MEDIA-SEQUENCE:10\n");
    pl.media_sequence = 10;
    pl.skipped_segments = 4;
    pl.has_endlist = true;
    pl.segments = vec![make_segment("14.ts"), make_segment("15.ts")];
    assert!(check_media_sequence_continuity(&[pl]).is_empty());
}

// ── delta updates ─────────────────────────────────────────────────────────────

#[test]
fn a_delta_response_that_skipped_nothing_is_accepted() {
    let content = "#EXTM3U\n#EXT-X-VERSION:9\n#EXT-X-TARGETDURATION:4\n\
         #EXT-X-MEDIA-SEQUENCE:10\n#EXT-X-SKIP:SKIPPED-SEGMENTS=0\n\
         #EXTINF:4.0,\ns0.m4s\n";
    let issues = delta_response_issues("v", "https://ex.com/v.m3u8?_HLS_skip=YES", content, 9);
    assert!(issues.is_empty(), "{issues:#?}");
}

#[test]
fn a_delta_response_missing_ext_x_skip_errors() {
    let content = "#EXTM3U\n#EXT-X-VERSION:9\n#EXT-X-TARGETDURATION:4\n\
         #EXT-X-MEDIA-SEQUENCE:10\n#EXTINF:4.0,\ns0.m4s\n";
    let issues = delta_response_issues("v", "https://ex.com/v.m3u8?_HLS_skip=YES", content, 9);
    assert_eq!(issues.len(), 1, "{issues:#?}");
    assert_eq!(issues[0].severity, Severity::Error);
    assert_eq!(issues[0].check_id, CheckId::DeltaUpdates);
    assert!(issues[0].message.contains("EXT-X-SKIP"));
}

#[test]
fn a_delta_response_below_version_9_errors() {
    let content = "#EXTM3U\n#EXT-X-VERSION:6\n#EXT-X-TARGETDURATION:4\n\
         #EXT-X-MEDIA-SEQUENCE:10\n#EXT-X-SKIP:SKIPPED-SEGMENTS=4\n\
         #EXTINF:4.0,\ns0.m4s\n";
    let issues = delta_response_issues("v", "https://ex.com/v.m3u8?_HLS_skip=YES", content, 6);
    assert_eq!(issues.len(), 1, "{issues:#?}");
    assert_eq!(issues[0].check_id, CheckId::VersionCompatibility);
    assert_eq!(
        issues[0].message,
        "rfc8216bis §8: Delta update response for 'v' declares EXT-X-VERSION:6 but EXT-X-SKIP requires VERSION >= 9."
    );
    assert_eq!(issues[0].uri_a.as_deref(), Some("https://ex.com/v.m3u8?_HLS_skip=YES"));
    assert_eq!(issues[0].rendition_a.as_deref(), Some("v"));
}

#[test]
fn a_delta_response_missing_media_sequence_errors() {
    let issues = delta_response_issues("v", "u", "#EXTM3U\n#EXT-X-SKIP:SKIPPED-SEGMENTS=1\n", 9);
    assert_eq!(issues.len(), 1);
    assert!(issues[0].message.contains("is missing EXT-X-MEDIA-SEQUENCE"));
}

#[test]
fn the_delta_update_url_adds_the_skip_directive_to_the_query() {
    assert_eq!(delta_update_url("https://ex.com/v.m3u8"), "https://ex.com/v.m3u8?_HLS_skip=YES");
    assert_eq!(delta_update_url("https://ex.com/v.m3u8?a=1"), "https://ex.com/v.m3u8?a=1&_HLS_skip=YES");
}

// ── interstitials ─────────────────────────────────────────────────────────────

#[test]
fn interstitial_valid_with_asset_uri() {
    let content = &[
        "#EXTM3U\n",
        "#EXT-X-DATERANGE:",
        r#"ID="ad-1",START-DATE="2024-01-15T12:00:00Z","#,
        r#"CLASS="com.apple.hls.interstitial","#,
        "X-ASSET-URI=\"https://ads.example.com/ad.m3u8\"\n",
    ].concat();
    let pl = make_playlist("v", content);
    let (issues, interstitials) = check_interstitials(&[pl]);
    assert!(issues.is_empty(), "valid interstitial must produce no issues: {:?}", issues);
    assert_eq!(interstitials.len(), 1);
    assert_eq!(interstitials[0].id, "ad-1");
    assert!(interstitials[0].asset_uri.is_some());
}

#[test]
fn interstitial_missing_id_errors() {
    let content = &[
        "#EXTM3U\n",
        "#EXT-X-DATERANGE:",
        r#"START-DATE="2024-01-15T12:00:00Z","#,
        r#"CLASS="com.apple.hls.interstitial","#,
        "X-ASSET-URI=\"https://ads.example.com/ad.m3u8\"\n",
    ].concat();
    let pl = make_playlist("v", content);
    let (issues, _) = check_interstitials(&[pl]);
    assert!(issues.iter().any(|i| i.severity == Severity::Error && i.message.contains("missing ID")));
}

#[test]
fn interstitial_missing_asset_errors() {
    let content = &[
        "#EXTM3U\n",
        "#EXT-X-DATERANGE:",
        r#"ID="ad-1",START-DATE="2024-01-15T12:00:00Z","#,
        "CLASS=\"com.apple.hls.interstitial\"\n",
    ].concat();
    let pl = make_playlist("v", content);
    let (issues, _) = check_interstitials(&[pl]);
    assert!(issues.iter().any(|i| i.severity == Severity::Error && i.message.contains("X-ASSET-URI/X-ASSET-LIST")));
}

#[test]
fn interstitial_both_asset_uri_and_list_errors() {
    let content = &[
        "#EXTM3U\n",
        "#EXT-X-DATERANGE:",
        r#"ID="ad-1",START-DATE="2024-01-15T12:00:00Z","#,
        r#"CLASS="com.apple.hls.interstitial","#,
        "X-ASSET-URI=\"https://ads.example.com/ad.m3u8\",",
        "X-ASSET-LIST=\"https://ads.example.com/ads.json\"\n",
    ].concat();
    let pl = make_playlist("v", content);
    let (issues, _) = check_interstitials(&[pl]);
    assert!(issues.iter().any(|i| i.severity == Severity::Error && i.message.contains("both X-ASSET-URI and X-ASSET-LIST")));
}

#[test]
fn interstitial_invalid_snap_value_warns() {
    let content = &[
        "#EXTM3U\n",
        "#EXT-X-DATERANGE:",
        r#"ID="ad-1",START-DATE="2024-01-15T12:00:00Z","#,
        r#"CLASS="com.apple.hls.interstitial","#,
        "X-ASSET-URI=\"https://ads.example.com/ad.m3u8\",",
        "X-SNAP=\"BEFORE\"\n",
    ].concat();
    let pl = make_playlist("v", content);
    let (issues, _) = check_interstitials(&[pl]);
    assert!(issues.iter().any(|i| i.severity == Severity::Warn && i.message.contains("X-SNAP")));
}

#[test]
fn interstitial_update_tag_no_false_asset_error() {
    let content = &[
        "#EXTM3U\n",
        "#EXT-X-DATERANGE:",
        "ID=\"ad-sle-1\",",
        "START-DATE=\"2024-01-15T12:00:00Z\",",
        "CLASS=\"com.apple.hls.interstitial\",",
        "PLANNED-DURATION=30.0,",
        "X-ASSET-LIST=\"https://ads.example.com/assets.json\"\n",
        "#EXT-X-DATERANGE:",
        "ID=\"ad-sle-1\",",
        "START-DATE=\"2024-01-15T12:00:00Z\",",
        "CLASS=\"com.apple.hls.interstitial\",",
        "X-RESUME-OFFSET=0\n",
    ].concat();
    let pl = make_playlist("v1", content);
    let (issues, interstitials) = check_interstitials(&[pl]);
    let errors: Vec<_> = issues.iter().filter(|i| i.severity == Severity::Error).collect();
    assert!(errors.is_empty(), "update DATERANGE tag must not produce errors, got: {:?}", errors);
    assert_eq!(interstitials.len(), 1, "update tag must not create a second Interstitial");
    assert!(interstitials[0].asset_list.is_some());
    assert_eq!(interstitials[0].planned_duration.as_deref(), Some("30.0"));
}

#[test]
fn interstitial_problems_carry_exact_messages_and_errors() {
    let content = &[
        "#EXT-X-DATERANGE:",
        r#"ID="b",CLASS="com.apple.hls.interstitial",X-ASSET-URI="a.m3u8","#,
        r#"X-SNAP="OUT, IN,LATER",X-RESTRICT="SKIP",X-CONTENT-MAY-VARY="MAYBE","#,
        r#"X-TIMELINE-OCCUPIES="RANGE",X-TIMELINE-STYLE="BOLD",X-SKIP-CONTROL-LABEL-ID="ok_label-2""#,
    ].concat();
    let (issues, interstitials) = check_interstitials(&[make_playlist("main", content)]);
    let messages: Vec<&str> = issues.iter().map(|i| i.message.as_str()).collect();
    assert_eq!(messages.len(), 5, "{messages:?}");
    assert_eq!(messages[0], "Interstitial: [b] missing START-DATE in 'main'");
    assert_eq!(
        messages[1],
        "Interstitial: [b] X-SNAP='LATER' invalid in 'main' (rfc8216bis §D.2: values must be OUT and/or IN)."
    );
    assert_eq!(
        messages[2],
        "Interstitial: [b] X-CONTENT-MAY-VARY='MAYBE' invalid in 'main' (rfc8216bis §D.2: must be \"YES\" or \"NO\")."
    );
    assert_eq!(
        messages[3],
        "Interstitial: [b] X-TIMELINE-STYLE='BOLD' invalid in 'main' (rfc8216bis §D.2: must be \"HIGHLIGHT\" or \"PRIMARY\")."
    );
    assert_eq!(
        messages[4],
        "Interstitial: [b] X-SKIP-CONTROL-LABEL-ID='ok_label-2' contains invalid characters ['2'] in 'main' (rfc8216bis §D.3: MUST be [a-z][A-Z]'-''_' only)."
    );
    assert!(issues.iter().all(|i| i.check_id == CheckId::Interstitials && i.rendition_a.as_deref() == Some("main")));
    assert_eq!(
        interstitials[0].errors,
        vec![
            "Missing required START-DATE".to_string(),
            "X-SNAP value 'LATER' invalid (must be IN or OUT)".to_string(),
            "X-CONTENT-MAY-VARY='MAYBE' invalid (must be YES or NO)".to_string(),
            "X-TIMELINE-STYLE='BOLD' invalid (must be HIGHLIGHT or PRIMARY)".to_string(),
            "X-SKIP-CONTROL-LABEL-ID='ok_label-2' contains invalid chars ['2']".to_string(),
        ]
    );
}

#[test]
fn closing_date_ranges_give_the_first_interstitial_its_limits() {
    let content = &[
        "#EXT-X-DATERANGE:",
        r#"ID="x",START-DATE="2024-01-15T12:00:00Z",CLASS="com.apple.hls.interstitial",X-ASSET-URI="a.m3u8""#,
        "\n#EXT-X-DATERANGE:",
        r#"ID="x",START-DATE="2024-01-15T12:00:30Z",X-PLAYOUT-LIMIT=abc,X-RESUME-OFFSET=0"#,
        "\n#EXT-X-DATERANGE:",
        r#"ID="x",START-DATE="2024-01-15T12:00:30Z",X-PLAYOUT-LIMIT=15.5"#,
        "\n#EXT-X-DATERANGE:",
        r#"ID="y",START-DATE="2024-01-15T12:00:30Z",X-PLAYOUT-LIMIT=9"#,
        "\n",
    ].concat();
    let other = make_playlist("audio", content);
    let (issues, interstitials) = check_interstitials(&[make_playlist("video", content), other]);
    assert!(issues.is_empty(), "{issues:?}");
    assert_eq!(interstitials.len(), 2);
    assert_eq!(interstitials[0].playlist, 0);
    assert_eq!(interstitials[1].playlist, 1);
    assert_eq!(interstitials[1].rendition, "audio");
    assert_eq!(
        interstitials[0].playout_limits,
        vec!["abc".to_string(), "15.5".to_string(), "abc".to_string(), "15.5".to_string()]
    );
    assert_eq!(interstitials[0].resume_offsets, vec!["0".to_string(), "0".to_string()]);
    assert!(interstitials[1].playout_limits.is_empty(), "only the first interstitial with an ID takes them");
}

// ── low-latency structure ─────────────────────────────────────────────────────

fn ll_playlist(name: &str, content: &str) -> LowLatencyFacts {
    LowLatencyFacts {
        name: name.to_string(),
        raw_content: content.to_string(),
        has_parts: true,
        has_part_inf: true,
        has_server_control: true,
        can_block_reload: true,
        hold_back_secs: 6,
        part_hold_back_secs: 1,
        can_skip_until_secs: 24,
        preload_hint_uri: Some("next.mp4".to_string()),
        preload_hint_type: Some("PART".to_string()),
        rendition_reports: vec![RenditionReport { uri: "../b/pl.m3u8".to_string(), last_msn: 100 }],
    }
}

#[test]
fn a_conforming_low_latency_playlist_has_no_structural_findings() {
    let content = "#EXT-X-PART:DURATION=0.5,URI=\"p0.mp4\",INDEPENDENT=YES\n#EXT-X-PART:DURATION=0.5,URI=\"p1.mp4\"\n#EXTINF:1.0,\ns0.mp4\n";
    assert!(check_ll_hls_compliance(&[ll_playlist("v", content)]).is_empty());
}

#[test]
fn parts_need_part_inf_blocking_reload_a_hint_and_reports() {
    let mut pl = ll_playlist("v", "");
    pl.has_part_inf = false;
    pl.can_block_reload = false;
    pl.preload_hint_type = Some("MAP".to_string());
    pl.rendition_reports.clear();
    let issues = check_ll_hls_compliance(&[pl]);
    let messages: Vec<&str> = issues.iter().map(|i| i.message.as_str()).collect();
    assert_eq!(
        messages,
        vec![
            "LL-HLS §6.2.5.2: 'v' contains EXT-X-PART tags but no EXT-X-PART-INF. PART-TARGET is required.",
            "LL-HLS §4.4.3.8: 'v' has EXT-X-PART tags but EXT-X-SERVER-CONTROL CAN-BLOCK-RELOAD=YES is absent. This is REQUIRED for low-latency delivery.",
            "LL-HLS §4.4.5.3: 'v' is missing EXT-X-PRELOAD-HINT with TYPE=PART at the playlist tail. Clients cannot prefetch the next partial segment.",
            "LL-HLS §4.4.5.4: 'v' has no EXT-X-RENDITION-REPORT tags. Each media playlist should report the last MSN/Part of every other rendition so clients can switch without extra fetches.",
        ]
    );
    assert_eq!(issues[0].severity, Severity::Error);
    assert_eq!(issues[3].severity, Severity::Warn);
    assert!(issues.iter().all(|i| i.check_id == CheckId::LlHls));
}

#[test]
fn the_first_part_of_each_segment_must_be_independent() {
    let content = "#EXT-X-PART:DURATION=0.5,URI=\"a0.mp4\",INDEPENDENT=YES\n#EXTINF:1.0,\ns0.mp4\n\
                   #EXT-X-PART:DURATION=0.5,URI=\"b0.mp4\"\n#EXT-X-PART:DURATION=0.5,URI=\"b1.mp4\",INDEPENDENT=YES\n\
                   #EXTINF:1.0,\ns1.mp4\n#EXTINF:1.0,\ns2.mp4\n";
    let issues = check_ll_hls_compliance(&[ll_playlist("v", content)]);
    assert_eq!(issues.len(), 1, "{issues:?}");
    assert_eq!(
        issues[0].message,
        "LL-HLS §4.4.4.9: First EXT-X-PART before segment 1 in 'v' must carry INDEPENDENT=YES."
    );
    assert_eq!(issues[0].segment_index, 1);
}

#[test]
fn last_msn_reports_that_span_more_than_a_segment_are_warned_about() {
    let mut a = ll_playlist("a", "");
    a.rendition_reports = vec![
        RenditionReport { uri: "https://cdn/x/b.m3u8".to_string(), last_msn: 100 },
        RenditionReport { uri: "c.m3u8".to_string(), last_msn: 7 },
    ];
    let mut b = ll_playlist("b", "");
    b.rendition_reports = vec![
        RenditionReport { uri: "https://cdn/x/b.m3u8".to_string(), last_msn: 103 },
        RenditionReport { uri: "c.m3u8".to_string(), last_msn: 8 },
        RenditionReport { uri: "d.m3u8".to_string(), last_msn: -1 },
    ];
    let issues = check_ll_hls_compliance(&[a, b]);
    assert_eq!(issues.len(), 1, "{issues:?}");
    assert_eq!(
        issues[0].message,
        "LL-HLS §4.4.5.4: EXT-X-RENDITION-REPORT LAST-MSN skew of 3 segments for 'b.m3u8' (reported MSNs: 100–103). All renditions should report the same LAST-MSN ±1 segment."
    );
}

#[test]
fn renditions_with_parts_must_share_server_control() {
    let a = ll_playlist("a", "");
    let mut b = ll_playlist("b", "");
    b.hold_back_secs = 9;
    let mut c = ll_playlist("c", "");
    c.has_parts = false;
    c.hold_back_secs = 3;
    let issues = check_ll_hls_compliance(&[a.clone(), b, c.clone()]);
    assert_eq!(issues.len(), 1, "{issues:?}");
    assert_eq!(
        issues[0].message,
        "LL-HLS §6.2.4: EXT-X-SERVER-CONTROL attributes differ across renditions [a, b]. All Media Playlists MUST carry identical SERVER-CONTROL values."
    );
    assert!(check_ll_hls_compliance(&[a, c]).is_empty());
}

// ── encryption ────────────────────────────────────────────────────────────────

fn encrypted(name: &str, methods: &[&str]) -> PlaylistFacts {
    let mut pl = make_playlist(name, "#EXTM3U\n");
    pl.encryption_methods = methods.iter().map(|m| m.to_string()).collect();
    pl
}

#[test]
fn clear_and_encrypted_segments_of_one_method_are_an_expected_mix() {
    assert!(check_encryption_consistency(&[encrypted("v", &["AES-128", "NONE"])]).is_empty());
    assert!(check_encryption_consistency(&[encrypted("v", &["SAMPLE-AES", "NONE"]), make_playlist("w", "")]).is_empty());
}

#[test]
fn two_methods_in_one_playlist_warn_and_the_renditions_disagree() {
    let issues = check_encryption_consistency(&[encrypted("v", &["AES-128", "SAMPLE-AES"])]);
    let messages: Vec<&str> = issues.iter().map(|i| i.message.as_str()).collect();
    assert_eq!(
        messages,
        vec![
            "RFC 8216bis §4.4.4.4: Playlist 'v' uses multiple encryption methods: [\"AES-128\", \"SAMPLE-AES\"].",
            "RFC 8216bis §6.2.4: Renditions use inconsistent encryption methods: {\"AES-128\", \"SAMPLE-AES\"}. All renditions SHOULD use the same encryption method.",
        ]
    );
    assert_eq!(issues[0].severity, Severity::Warn);
    assert_eq!(issues[1].severity, Severity::Error);
    assert!(issues.iter().all(|i| i.check_id == CheckId::EncryptionConsistency));
}

#[test]
fn none_counts_as_a_method_only_where_it_is_the_only_one() {
    let issues = check_encryption_consistency(&[
        encrypted("hi", &["AES-128", "NONE"]),
        encrypted("lo", &["NONE"]),
    ]);
    assert_eq!(issues.len(), 1);
    assert_eq!(
        issues[0].message,
        "RFC 8216bis §6.2.4: Renditions use inconsistent encryption methods: {\"AES-128\", \"NONE\"}. All renditions SHOULD use the same encryption method."
    );
    let same = check_encryption_consistency(&[encrypted("hi", &["AES-128", "NONE"]), encrypted("lo", &["AES-128"])]);
    assert!(same.is_empty());
}

// ── STREAM-INF consistency ────────────────────────────────────────────────────

fn variant(uri: &str, bandwidth: Option<u64>, codecs: Option<&str>, audio: Option<&str>) -> VariantFacts {
    VariantFacts {
        uri: uri.to_string(),
        bandwidth,
        codecs: codecs.map(str::to_string),
        audio_group: audio.map(str::to_string),
    }
}

#[test]
fn variants_sharing_a_uri_and_audio_group_must_share_codecs() {
    let issues = check_codecs_attribute(&[
        variant("v.m3u8", Some(100), Some("avc1.4d401f,mp4a.40.2"), Some("aud")),
        variant("other.m3u8", Some(50), None, None),
        variant("v.m3u8", Some(100), Some("avc1.64001f,mp4a.40.2"), Some("aud")),
    ]);
    assert_eq!(issues.len(), 1, "{issues:?}");
    assert_eq!(
        issues[0].message,
        "RFC 8216bis §4.4.5.2: Multiple EXT-X-STREAM-INF tags share URI 'v.m3u8' and the same AUDIO group but have different CODECS values: CODECS=avc1.4d401f,mp4a.40.2, CODECS=avc1.64001f,mp4a.40.2. They MUST match."
    );
    assert_eq!(issues[0].uri_a.as_deref(), Some("v.m3u8"));
    assert_eq!(issues[0].check_id, CheckId::StreamInfConsistency);
}

#[test]
fn different_audio_groups_may_differ_in_audio_codec_but_not_video() {
    let same_video = check_codecs_attribute(&[
        variant("v.m3u8", Some(100), Some("avc1.4d401f,mp4a.40.2"), Some("aac")),
        variant("v.m3u8", Some(100), Some("avc1.4d401f, ec-3"), Some("ec3")),
    ]);
    assert!(same_video.is_empty(), "{same_video:?}");
    let issues = check_codecs_attribute(&[
        variant("v.m3u8", Some(100), Some("avc1.4d401f,mp4a.40.2"), Some("aac")),
        variant("v.m3u8", Some(100), Some("hvc1.2.4.L123,ec-3"), Some("ec3")),
        variant("v.m3u8", Some(100), None, None),
    ]);
    assert_eq!(issues.len(), 1, "{issues:?}");
    assert_eq!(
        issues[0].message,
        "RFC 8216bis §4.4.5.2: Multiple EXT-X-STREAM-INF tags share URI 'v.m3u8' with different AUDIO groups but also have mismatched video codecs: AUDIO=aac CODECS=avc1.4d401f,mp4a.40.2, AUDIO=ec3 CODECS=hvc1.2.4.L123,ec-3, AUDIO=(none) CODECS=(none)."
    );
}

#[test]
fn variants_sharing_a_uri_must_agree_on_bandwidth_within_an_audio_group() {
    let issues = check_codecs_attribute(&[
        variant("v.m3u8", Some(100), Some("avc1"), None),
        variant("v.m3u8", Some(200), Some("avc1"), None),
        variant("v.m3u8", None, Some("avc1"), None),
    ]);
    assert_eq!(issues.len(), 1, "{issues:?}");
    assert_eq!(
        issues[0].message,
        "RFC 8216bis §4.4.5.2: Multiple EXT-X-STREAM-INF tags share URI 'v.m3u8' (AUDIO=(none)) but have different BANDWIDTH values: BANDWIDTH=100, BANDWIDTH=200, BANDWIDTH=(none). They MUST match."
    );
    let per_group = check_codecs_attribute(&[
        variant("v.m3u8", Some(100), Some("avc1"), Some("a")),
        variant("v.m3u8", Some(300), Some("avc1"), Some("b")),
    ]);
    assert!(per_group.is_empty(), "{per_group:?}");
}

// ── media group membership ────────────────────────────────────────────────────

fn rendition(media_type: &str, group: &str, name: &str) -> MediaRendition {
    MediaRendition {
        media_type: media_type.to_string(),
        group_id: group.to_string(),
        name: name.to_string(),
        uri: None,
        language: None,
        autoselect: false,
        channels: None,
        characteristics: None,
        forced: false,
    }
}

#[test]
fn groups_of_one_type_must_have_the_same_members() {
    let issues = check_media_group_membership(&[
        rendition("AUDIO", "aac", "English"),
        rendition("AUDIO", "aac", "German"),
        rendition("AUDIO", "aac", "Danish"),
        rendition("AUDIO", "ac3", "English"),
        rendition("SUBTITLES", "subs", "English"),
    ]);
    assert_eq!(issues.len(), 1, "{issues:?}");
    assert_eq!(
        issues[0].message,
        "rfc8216bis §4.4.6.1.1: AUDIO Group 'ac3' is missing member(s) present in other groups of the same type: 'Danish', 'German'. All groups of the same TYPE MUST have the same set of members."
    );
    assert_eq!(issues[0].check_id, CheckId::MediaGroupMembership);
    assert_eq!(issues[0].severity, Severity::Error);
}

#[test]
fn matching_groups_and_single_groups_pass() {
    assert!(check_media_group_membership(&[
        rendition("AUDIO", "aac", "English"),
        rendition("AUDIO", "ac3", "English"),
        rendition("SUBTITLES", "subs", "English"),
        rendition("SUBTITLES", "subs", "French"),
    ])
    .is_empty());
}

// ── report totals ─────────────────────────────────────────────────────────────

#[test]
fn report_totals_count_by_severity_and_fail_on_any_error() {
    let issues = vec![
        Issue::warn("a".to_string()),
        Issue::info("b".to_string()),
        Issue::warn("c".to_string()),
    ];
    let totals = report_totals(&issues);
    assert_eq!((totals.total_errors, totals.total_warnings, totals.total_info), (0, 2, 1));
    assert_eq!(totals.result, "PASS");
    let mut with_error = issues.clone();
    with_error.push(Issue::error("d".to_string()));
    let totals = report_totals(&with_error);
    assert_eq!(totals.total_errors, 1);
    assert_eq!(totals.result, "FAIL");
}

#[test]
fn segments_are_paired_by_media_sequence_number_over_the_shared_window() {
    let mut a = make_playlist("a", "");
    a.media_sequence = 10;
    a.segments = segments(4); // 10..14
    let mut b = make_playlist("b", "");
    b.media_sequence = 8;
    b.skipped_segments = 4; // window starts at 12
    b.segments = segments(5); // 12..17
    assert_eq!(overlapping_segments(&a, &b), vec![(2, 0, 12), (3, 1, 13)]);
    let mut c = make_playlist("c", "");
    c.media_sequence = 20;
    c.segments = segments(2);
    assert!(overlapping_segments(&a, &c).is_empty());
}

// ── parse_iso8601 ─────────────────────────────────────────────────────────────

use hls_inspect::validator::timestamp::{days_from_epoch, iso8601_is_readable, parse_iso8601};

#[test]
fn parse_iso8601_unix_epoch() {
    let t = parse_iso8601("1970-01-01T00:00:00Z").expect("must parse");
    assert_eq!(t.epoch_seconds(), 0);
    assert_eq!(t.fraction, "");
}

#[test]
fn parse_iso8601_utc_suffix() {
    let expected: i128 = 19737 * 86400 + 12 * 3600 + 30 * 60 + 45;
    let t = parse_iso8601("2024-01-15T12:30:45Z").expect("must parse");
    assert_eq!(t.days, 19737);
    assert_eq!(t.epoch_seconds(), expected);
}

#[test]
fn parse_iso8601_fractional_seconds() {
    let base = parse_iso8601("2024-01-15T12:30:45Z").expect("must parse");
    let with_frac = parse_iso8601("2024-01-15T12:30:45.500Z").expect("must parse");
    assert_eq!(with_frac.epoch_seconds(), base.epoch_seconds());
    assert_eq!(with_frac.fraction, ".500");
    assert_eq!(with_frac.tz_offset, 0);
}

#[test]
fn parse_iso8601_positive_timezone_offset() {
    let utc = parse_iso8601("2024-01-15T12:30:45Z").expect("must parse");
    let offset = parse_iso8601("2024-01-15T13:30:45+01:00").expect("must parse");
    assert_eq!(offset.tz_offset, 3600);
    assert_eq!(utc.epoch_seconds(), offset.epoch_seconds());
}

#[test]
fn parse_iso8601_negative_timezone_offset() {
    let utc = parse_iso8601("2024-01-15T12:30:45Z").expect("must parse");
    let offset = parse_iso8601("2024-01-15T07:30:45-05:00").expect("must parse");
    assert_eq!(offset.tz_offset, -18000);
    assert_eq!(utc.epoch_seconds(), offset.epoch_seconds());
}

#[test]
fn parse_iso8601_too_short_returns_none() {
    assert!(parse_iso8601("2024-01-15").is_none());
    assert!(parse_iso8601("").is_none());
}

#[test]
fn iso8601_offset_without_colon_and_bad_fields() {
    let t = parse_iso8601("  2024-01-15T12:30:45+0130 ").expect("must parse");
    assert_eq!(t.tz_offset, 5400);
    assert!(parse_iso8601("2024-XX-15T12:30:45Z").is_none());
    let other = parse_iso8601("2024-01-15T12:30:45Q").expect("must parse");
    assert_eq!(other.tz_offset, 0);
}

#[test]
fn iso8601_unreadable_texts() {
    assert!(iso8601_is_readable("2024-01-15T12:30:45Z"));
    assert!(iso8601_is_readable("short"));
    assert!(!iso8601_is_readable("2024\u{e9}01-15T12:30:45Z"));
    assert!(!iso8601_is_readable("2024-01-15T12:30:45+99999999999999999:00"));
}

#[test]
fn days_from_epoch_known_dates() {
    assert_eq!(days_from_epoch(1970, 1, 1), 0);
    assert_eq!(days_from_epoch(2000, 3, 1), 11017);
    assert_eq!(days_from_epoch(1969, 12, 31), -1);
    assert_eq!(days_from_epoch(2024, 3, 1) - days_from_epoch(2024, 2, 1), 29);
}

#[test]
fn march_to_march_follows_leap_years() {
    assert_eq!(days_from_epoch(2024, 3, 1) - days_from_epoch(2023, 3, 1), 366);
    assert_eq!(days_from_epoch(2025, 3, 1) - days_from_epoch(2024, 3, 1), 365);
    assert_eq!(days_from_epoch(2000, 3, 1) - days_from_epoch(1999, 3, 1), 366);
    assert_eq!(days_from_epoch(1900, 3, 1) - days_from_epoch(1899, 3, 1), 365);
}

// ── collect_scte35_breaks ─────────────────────────────────────────────────────

use hls_inspect::validator::scte35::collect_scte35_breaks;

#[test]
fn scte35_breaks_skip_interstitials_and_merge_by_id() {
    let content = [
        "#EXTM3U",
        "#EXT-X-DATERANGE:ID=\"ad1\",CLASS=\"com.apple.hls.interstitial\",START-DATE=\"2024-01-01T00:00:10Z\",SCTE35-OUT=0xFC",
        "#EXT-X-DATERANGE:ID=\"ad1\",START-DATE=\"2024-01-01T00:00:10Z\",SCTE35-IN=0xFC",
        "#EXT-X-DATERANGE:ID=\"0x30-1-99\",START-DATE=\"2024-01-01T00:00:20Z\",PLANNED-DURATION=30,SCTE35-OUT=0xFC",
        "#EXT-X-DATERANGE:ID=\"0x22-1-5\",START-DATE=\"2024-01-01T00:00:05Z\",SCTE35-OUT=0xFC",
        "#EXT-X-DATERANGE:ID=\"0x30-1-99\",START-DATE=\"2024-01-01T00:00:20Z\",END-DATE=\"2024-01-01T00:00:50Z\",SCTE35-IN=0xFC",
        "seg1.ts",
    ]
    .join("\n");
    let mut audio = make_playlist("audio", &content);
    audio.media_type = "AUDIO".to_string();
    let breaks = collect_scte35_breaks(&[audio, make_playlist("video", &content)]);
    assert_eq!(breaks.len(), 2);
    assert_eq!(breaks[0].id, "0x22-1-5");
    assert_eq!(breaks[0].break_type, "chapter");
    assert_eq!(breaks[1].id, "0x30-1-99");
    assert_eq!(breaks[1].break_type, "ad_break");
    assert_eq!(breaks[1].playlist, 1);
    assert_eq!(breaks[1].rendition, "video");
    assert_eq!(breaks[1].planned_durations, vec!["30".to_string()]);
    assert_eq!(
        breaks[1].date_spans,
        vec![("2024-01-01T00:00:20Z".to_string(), "2024-01-01T00:00:50Z".to_string())]
    );
}

#[test]
fn scte35_breaks_fall_back_to_cue_out_tags() {
    let content = [
        "#EXTM3U",
        "#EXT-X-PROGRAM-DATE-TIME:2024-01-01T00:00:00Z",
        "#EXT-X-SCTE35:CUE-OUT=YES,TYPE=0x30,ID=1,DURATION=15",
        "seg1.ts",
        "#EXT-X-SCTE35:CUE-OUT=CONT,TYPE=0x30,ID=1",
        "seg2.ts",
        "#EXT-X-DATERANGE:ID=\"i1\",CLASS=\"com.apple.hls.interstitial\"",
        "#EXT-X-SCTE35:CUE-OUT=YES,TYPE=0x34,ID=2",
        "seg3.ts",
    ]
    .join("\n");
    let breaks = collect_scte35_breaks(&[make_playlist("video", &content)]);
    assert_eq!(breaks.len(), 1);
    assert_eq!(breaks[0].id, "scte35-0x30-1");
    assert_eq!(breaks[0].start_date, "2024-01-01T00:00:00Z");
    assert_eq!(breaks[0].planned_durations, vec!["15".to_string()]);
    assert_eq!(breaks[0].break_type, "ad_break");
    assert!(breaks[0].date_spans.is_empty());
}

#[test]
fn scte35_breaks_none_without_video() {
    let mut audio = make_playlist("audio", "#EXT-X-DATERANGE:ID=\"x\",SCTE35-OUT=0xFC");
    audio.media_type = "AUDIO".to_string();
    assert!(collect_scte35_breaks(&[audio]).is_empty());
}

// ── plan_stream_fetches ───────────────────────────────────────────────────────

use hls_inspect::validator::collect::{fetch_failure_issue, plan_stream_fetches, FetchJob, VariantSource};

fn audio_rendition(name: &str, group: &str, uri: Option<&str>, channels: Option<&str>) -> hls_inspect::validator::types::MediaRendition {
    hls_inspect::validator::types::MediaRendition {
        media_type: "AUDIO".to_string(),
        group_id: group.to_string(),
        name: name.to_string(),
        uri: uri.map(|u| u.to_string()),
        language: None,
        autoselect: false,
        channels: channels.map(|c| c.to_string()),
        characteristics: None,
        forced: false,
    }
}

#[test]
fn fetch_plan_names_and_dedups_renditions() {
    let variants = vec![
        VariantSource { uri: "v/1080.m3u8".to_string(), bandwidth: Some(5_000_000), resolution: Some("1920x1080".to_string()) },
        VariantSource { uri: "v/1080.m3u8".to_string(), bandwidth: Some(5_000_000), resolution: Some("1920x1080".to_string()) },
        VariantSource { uri: "v/low.m3u8".to_string(), bandwidth: Some(800_000), resolution: None },
        VariantSource { uri: "v/plain.m3u8".to_string(), bandwidth: None, resolution: None },
    ];
    let renditions = vec![
        audio_rendition("ENG", "aud", Some("a/en.m3u8"), Some("2/JOC")),
        audio_rendition("NONE", "aud", None, None),
        audio_rendition("FRA", "aud", Some("a/fr.m3u8"), None),
    ];
    let jobs = plan_stream_fetches("https://x.test/main.m3u8", &variants, &renditions, &TextMap::new());
    let names: Vec<&str> = jobs.iter().map(|j| j.name.as_str()).collect();
    assert_eq!(
        names,
        vec!["video/1920x1080 \u{b7} 5000k", "video/800k", "plain.m3u8", "audio/ENG (aud) \u{b7} 2ch", "audio/FRA (aud)"]
    );
    assert_eq!(jobs[0].uri, "https://x.test/v/1080.m3u8");
    assert_eq!(jobs[1].index, 2);
    assert!(jobs[3].audio);
    assert_eq!(jobs[4].index, 1);
}

#[test]
fn fetch_failure_names_the_playlist() {
    let job = FetchJob { audio: true, index: 0, uri: "https://x.test/a.m3u8".to_string(), name: "a".to_string() };
    let e = hls_inspect::network::FetchError { error: "HTTP 404".to_string(), extra_info: None };
    let issue = fetch_failure_issue(&job, &e);
    assert!(issue.message.starts_with("rfc8216bis \u{a7}6.2: Could not fetch audio rendition 'https://x.test/a.m3u8': HTTP 404"));
    assert!(issue.message.ends_with(". No check could be run against this rendition."));
}
