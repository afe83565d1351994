use hls_inspect::live::{
    blocking_reload_url, last_fetchable_part_index, new_edge_items, next_live_wait, EdgeAppearance,
    EdgePart, EdgeSegment, LiveWait, HLS_PART_PARAM,
};
use hls_inspect::network::RequestRange;

fn part(uri: &str) -> EdgePart {
    EdgePart { uri: uri.into(), byterange: None, gap: false }
}

fn gap(uri: &str) -> EdgePart {
    EdgePart { uri: uri.into(), byterange: None, gap: true }
}

fn segment(uri: &str, msn: u64) -> EdgeSegment {
    EdgeSegment { uri: uri.into(), byterange: None, msn: Some(msn), gap: false, parts: Vec::new() }
}

/// A parent segment the server is still appending: parts published, no URI yet.
fn appending(msn: u64, parts: Vec<EdgePart>) -> EdgeSegment {
    EdgeSegment { uri: String::new(), byterange: None, msn: Some(msn), gap: false, parts }
}

#[test]
fn a_blocking_reload_keeps_the_query_the_playlist_uri_already_carried() {
    let url = blocking_reload_url("https://example.com/hls/v/index.m3u8?token=abc&sid=7", 42, Some(3));
    assert_eq!(url, "https://example.com/hls/v/index.m3u8?token=abc&sid=7&_HLS_msn=42&_HLS_part=3");
}

#[test]
fn a_blocking_reload_replaces_directives_rather_than_repeating_them() {
    let url = blocking_reload_url("https://example.com/i.m3u8?_HLS_msn=10&keep=1&_HLS_part=4", 11, Some(0));
    assert_eq!(url, "https://example.com/i.m3u8?keep=1&_HLS_msn=11&_HLS_part=0");
}

#[test]
fn a_signed_query_is_moved_rather_than_re_escaped() {
    let url = blocking_reload_url("https://example.com/i.m3u8?hdnts=exp%3D123~hmac%3Dab%2Fcd&x=a+b", 5, None);
    assert_eq!(url, "https://example.com/i.m3u8?hdnts=exp%3D123~hmac%3Dab%2Fcd&x=a+b&_HLS_msn=5");
}

#[test]
fn a_wait_for_a_whole_segment_sends_no_part_directive() {
    let url = blocking_reload_url("https://example.com/i.m3u8", 9, None);
    assert_eq!(url, "https://example.com/i.m3u8?_HLS_msn=9");
    assert!(!url.contains(HLS_PART_PARAM));
}

#[test]
fn nothing_but_the_two_directives_is_ever_added() {
    let url = blocking_reload_url("https://example.com/i.m3u8", 9, Some(1));
    assert!(!url.contains("_HLS_skip"));
    let added = url.split('?').nth(1).expect("a query");
    assert_eq!(added, "_HLS_msn=9&_HLS_part=1");
}

#[test]
fn a_url_this_build_cannot_read_is_left_exactly_as_it_was() {
    assert_eq!(blocking_reload_url("not a url", 1, None), "not a url");
}

#[test]
fn empty_query_pairs_are_dropped() {
    let url = blocking_reload_url("https://example.com/i.m3u8?a=1&&b&", 2, None);
    assert_eq!(url, "https://example.com/i.m3u8?a=1&b&_HLS_msn=2");
}

#[test]
fn a_playlist_of_complete_segments_waits_for_the_next_segment() {
    let segments = vec![segment("a.m4s", 7), segment("b.m4s", 8)];
    assert_eq!(next_live_wait(&segments, false), Some(LiveWait { msn: 9, part: None }));
    assert!(!next_live_wait(&segments, false).expect("a wait").is_part());
}

#[test]
fn a_parent_segment_still_being_appended_waits_for_its_next_part() {
    let segments = vec![
        segment("a.m4s", 7),
        appending(8, vec![part("b.0.m4s"), part("b.1.m4s"), part("b.2.m4s")]),
    ];
    assert_eq!(next_live_wait(&segments, true), Some(LiveWait { msn: 8, part: Some(3) }));
    assert!(next_live_wait(&segments, true).expect("a wait").is_part());
}

#[test]
fn a_complete_last_segment_waits_for_part_zero_of_the_next_one() {
    let segments = vec![EdgeSegment {
        uri: "a.m4s".into(),
        byterange: None,
        msn: Some(7),
        gap: false,
        parts: vec![part("a.0.m4s"), part("a.1.m4s")],
    }];
    assert_eq!(next_live_wait(&segments, true), Some(LiveWait { msn: 8, part: Some(0) }));
}

#[test]
fn a_playlist_with_no_part_inf_never_asks_for_a_part() {
    let segments = vec![appending(8, vec![part("b.0.m4s")])];
    assert_eq!(next_live_wait(&segments, false).and_then(|w| w.part), None);
}

#[test]
fn a_playlist_that_numbers_no_media_has_nothing_to_wait_beyond() {
    assert_eq!(next_live_wait(&[], true), None);
    let unnumbered = vec![EdgeSegment { uri: "a.m4s".into(), byterange: None, msn: None, gap: false, parts: Vec::new() }];
    assert_eq!(next_live_wait(&unnumbered, true), None);
}

#[test]
fn a_trailing_gap_part_is_not_the_last_fetchable_part() {
    let parts = vec![part("b.0.m4s"), part("b.1.m4s"), gap("b.2.m4s")];
    let appending = appending(8, parts);
    assert_eq!(last_fetchable_part_index(&appending), Some(1));
    let segments = vec![appending];
    assert_eq!(next_live_wait(&segments, true).and_then(|w| w.part), Some(3));
}

#[test]
fn a_gap_at_the_awaited_index_moves_the_wait_on_rather_than_repeating_it() {
    let before = vec![appending(8, vec![part("b.0.m4s")])];
    let asked = next_live_wait(&before, true).expect("a wait");
    assert_eq!(asked, LiveWait { msn: 8, part: Some(1) });
    let mut after = before.clone();
    after[0].parts.push(gap("b.1.m4s"));
    let next = next_live_wait(&after, true).expect("a wait");
    assert_ne!(next, asked);
    assert_eq!(next, LiveWait { msn: 8, part: Some(2) });
}

#[test]
fn a_parent_of_nothing_but_gap_parts_has_no_fetchable_part() {
    assert_eq!(last_fetchable_part_index(&appending(8, vec![gap("b.0.m4s")])), None);
    assert_eq!(last_fetchable_part_index(&appending(8, vec![part("")])), None);
}

#[test]
fn the_last_numbered_segment_decides_the_wait() {
    let segments = vec![segment("a.m4s", 7), EdgeSegment { uri: "b.m4s".into(), byterange: None, msn: None, gap: false, parts: Vec::new() }];
    assert_eq!(next_live_wait(&segments, false), Some(LiveWait { msn: 8, part: None }));
}

// ── what appeared at the edge ─────────────────────────────────────────────────

fn appeared_uris(after: &[EdgeSegment], items: &[EdgeAppearance]) -> Vec<String> {
    items
        .iter()
        .map(|item| match item.part {
            Some(k) => after[item.segment].parts[k].uri.clone(),
            None => after[item.segment].uri.clone(),
        })
        .collect()
}

#[test]
fn a_newly_appended_segment_is_the_only_thing_that_appeared() {
    let before = vec![segment("a.m4s", 7), segment("b.m4s", 8)];
    let after = vec![segment("a.m4s", 7), segment("b.m4s", 8), segment("c.m4s", 9)];
    let items = new_edge_items(&before, &after, false);
    assert_eq!(items.len(), 1);
    assert_eq!(appeared_uris(&after, &items), vec!["c.m4s".to_string()]);
    assert_eq!(after[items[0].segment].msn, Some(9));
    assert_eq!(items[0].part, None);
}

#[test]
fn a_uri_that_slid_out_of_the_window_never_counts_as_an_appearance() {
    let before = vec![segment("a.m4s", 7), segment("b.m4s", 8)];
    let after = vec![segment("b.m4s", 8), segment("c.m4s", 9)];
    let items = new_edge_items(&before, &after, false);
    assert_eq!(appeared_uris(&after, &items), vec!["c.m4s".to_string()]);
}

#[test]
fn nothing_appeared_when_the_reload_returned_the_same_window() {
    let before = vec![segment("a.m4s", 7)];
    assert!(new_edge_items(&before, &before.clone(), false).is_empty());
}

#[test]
fn a_newly_appended_part_is_what_appeared_at_a_low_latency_edge() {
    let before = vec![appending(8, vec![part("b.0.m4s")])];
    let after = vec![appending(8, vec![part("b.0.m4s"), part("b.1.m4s")])];
    let items = new_edge_items(&before, &after, true);
    assert_eq!(items, vec![EdgeAppearance { segment: 0, part: Some(1) }]);
    assert_eq!(appeared_uris(&after, &items), vec!["b.1.m4s".to_string()]);
}

#[test]
fn a_gap_part_never_appears_because_it_carries_nothing_to_fetch() {
    let before = vec![appending(8, vec![part("b.0.m4s")])];
    let after = vec![appending(8, vec![part("b.0.m4s"), gap("b.1.m4s")])];
    assert!(new_edge_items(&before, &after, true).is_empty());
}

#[test]
fn a_parent_segment_completing_is_not_a_new_download() {
    let before = vec![appending(8, vec![part("b.0.m4s"), part("b.1.m4s")])];
    let after = vec![EdgeSegment {
        uri: "b.m4s".into(),
        byterange: None,
        msn: Some(8),
        gap: false,
        parts: vec![part("b.0.m4s"), part("b.1.m4s")],
    }];
    assert!(new_edge_items(&before, &after, true).is_empty());
}

#[test]
fn a_part_sharing_a_uri_at_a_new_byte_range_is_a_new_part() {
    let ranged = |offset: u64| EdgePart {
        uri: "seg267.m4s".into(),
        byterange: Some(RequestRange::from_length_with_offset(1_000, offset)),
        gap: false,
    };
    let before = vec![appending(8, vec![ranged(0)])];
    let after = vec![appending(8, vec![ranged(0), ranged(1_000)])];
    let items = new_edge_items(&before, &after, true);
    assert_eq!(items.len(), 1);
    let k = items[0].part.expect("a part appeared");
    assert_eq!(
        after[items[0].segment].parts[k].byterange,
        Some(RequestRange::from_length_with_offset(1_000, 1_000))
    );
}

#[test]
fn an_unparted_segment_in_a_low_latency_playlist_is_still_an_appearance() {
    let before = vec![segment("a.m4s", 7)];
    let after = vec![segment("a.m4s", 7), segment("b.m4s", 8)];
    let items = new_edge_items(&before, &after, true);
    assert_eq!(items.len(), 1);
    assert_eq!(items[0].part, None);
}

#[test]
fn a_segment_below_the_previous_edge_never_appears_even_with_a_new_uri() {
    let before = vec![segment("a.m4s", 7), segment("b.m4s", 8)];
    let after = vec![segment("renamed.m4s", 7), segment("b.m4s", 8), segment("c.m4s", 9)];
    let items = new_edge_items(&before, &after, false);
    assert_eq!(appeared_uris(&after, &items), vec!["c.m4s".to_string()]);
}

// ── wait_step ─────────────────────────────────────────────────────────────────

use hls_inspect::live::{wait_step, WaitAction, WaitEnd, WaitEvent, MAX_WAIT_ATTEMPTS};

fn ended(r: (u32, WaitAction)) -> Option<WaitEnd> {
    match r.1 {
        WaitAction::End(e) => Some(e),
        _ => None,
    }
}

#[test]
fn wait_reloads_until_media_appears() {
    let (n, a) = wait_step(0, WaitEvent::AttemptDue { aborted: false, time_left: true });
    assert_eq!(n, 1);
    assert!(matches!(a, WaitAction::Reload));
    let r = wait_step(n, WaitEvent::ReloadBody { appeared: false, next_wait: true });
    assert!(matches!(r.1, WaitAction::Sleep));
    assert!(matches!(wait_step(1, WaitEvent::PollDue { time_left: true }).1, WaitAction::Sleep));
    assert_eq!(ended(wait_step(2, WaitEvent::ReloadBody { appeared: true, next_wait: true })), Some(WaitEnd::Appeared));
}

#[test]
fn wait_ends_on_stop_time_and_errors() {
    assert_eq!(ended(wait_step(3, WaitEvent::AttemptDue { aborted: true, time_left: true })), Some(WaitEnd::Cancelled));
    assert_eq!(ended(wait_step(3, WaitEvent::AttemptDue { aborted: false, time_left: false })), Some(WaitEnd::TimedOut));
    assert_eq!(
        ended(wait_step(MAX_WAIT_ATTEMPTS, WaitEvent::AttemptDue { aborted: false, time_left: true })),
        Some(WaitEnd::TimedOut)
    );
    assert_eq!(
        ended(wait_step(1, WaitEvent::ReloadFailed { cancelled: true, run_aborted: false, error: String::new() })),
        Some(WaitEnd::TimedOut)
    );
    assert_eq!(
        ended(wait_step(1, WaitEvent::ReloadFailed { cancelled: true, run_aborted: true, error: String::new() })),
        Some(WaitEnd::Cancelled)
    );
    assert_eq!(
        ended(wait_step(1, WaitEvent::ReloadFailed { cancelled: false, run_aborted: false, error: "HTTP 500".to_string() })),
        Some(WaitEnd::Failed("HTTP 500".to_string()))
    );
    assert_eq!(ended(wait_step(1, WaitEvent::ReloadBody { appeared: false, next_wait: false })), Some(WaitEnd::NothingToWaitFor));
    assert_eq!(ended(wait_step(1, WaitEvent::PollDue { time_left: false })), Some(WaitEnd::TimedOut));
}
