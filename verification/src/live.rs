//! The live edge: what a reload should ask an origin to wait for, and how the reload's URL
//! carries it.

use vstd::prelude::*;
use vstd::string::StringExecFns;
use crate::text::{
    find_from, lemma_find_from_bounds, push_char, push_decimal, push_str, spec_decimal,
    spec_find_from, str_equals_text,
};
use crate::network::RequestRange;

verus! {

/// The Delivery Directive that asks for a Media Sequence Number (RFC 8216bis §6.2.5.2).
pub const HLS_MSN_PARAM: &'static str = "_HLS_msn";

/// The Delivery Directive that asks for a Part Index.
pub const HLS_PART_PARAM: &'static str = "_HLS_part";

/// What the next reload should ask the origin to wait for.
#[derive(Debug, Clone, Copy, PartialEq, Eq, Structural)]
pub struct LiveWait {
    /// `_HLS_msn`: the Media Sequence Number the response must contain.
    pub msn: u64,
    /// `_HLS_part`: the Part Index within that segment, numbered from zero. `None` waits
    /// for a complete segment instead.
    pub part: Option<u32>,
}

impl LiveWait {
    /// Whether this wait is for a Partial Segment.
    pub fn is_part(&self) -> (r: bool)
        ensures
            r == self.part is Some,
    {
        self.part.is_some()
    }
}

/// One EXT-X-PART at the edge, as the planner reads it.
#[derive(Debug, Clone)]
pub struct EdgePart {
    pub uri: String,
    /// The byte range of the URI the part is, where it is not the whole resource.
    pub byterange: Option<RequestRange>,
    pub gap: bool,
}

/// One segment at the edge, as the planner reads it: a parent segment the server is
/// still appending has parts and no URI of its own yet.
#[derive(Debug, Clone)]
pub struct EdgeSegment {
    pub uri: String,
    pub byterange: Option<RequestRange>,
    pub msn: Option<u64>,
    /// Whether the segment is marked EXT-X-GAP.
    pub gap: bool,
    pub parts: Vec<EdgePart>,
}

/// Whether a part carries media a client could fetch: it is no GAP and has a URI.
pub open spec fn spec_fetchable(p: EdgePart) -> bool {
    !p.gap && p.uri@.len() > 0
}

/// The index of the last fetchable part among the first `n` parts.
pub open spec fn spec_last_fetchable(parts: Seq<EdgePart>, n: int) -> Option<int>
    decreases n,
{
    if n <= 0 {
        None
    } else if spec_fetchable(parts[n - 1]) {
        Some(n - 1)
    } else {
        spec_last_fetchable(parts, n - 1)
    }
}

/// The Part Index of the last part of this parent segment that carries media. A GAP part
/// occupies a Part Index but has no bytes behind it, so a trailing GAP is not the last
/// thing a client could have fetched. `None` also where the index does not fit a `u32`.
pub fn last_fetchable_part_index(segment: &EdgeSegment) -> (r: Option<u32>)
    ensures
        match spec_last_fetchable(segment.parts@, segment.parts@.len() as int) {
            Some(i) => if i <= u32::MAX {
                r == Some(i as u32)
            } else {
                r is None
            },
            None => r is None,
        },
{
    let mut j = segment.parts.len();
    while j > 0
        invariant
            j <= segment.parts@.len(),
            spec_last_fetchable(segment.parts@, j as int) == spec_last_fetchable(segment.parts@, segment.parts@.len() as int),
        decreases j,
    {
        let p = &segment.parts[j - 1];
        if !p.gap && p.uri.as_str().unicode_len() > 0 {
            let index = j - 1;
            if index <= 0xFFFF_FFFF {
                return Some(index as u32);
            }
            return None;
        }
        j = j - 1;
    }
    None
}

/// The index of the last segment, among the first `n`, that carries a Media Sequence
/// Number.
pub open spec fn spec_last_numbered(segments: Seq<EdgeSegment>, n: int) -> Option<int>
    decreases n,
{
    if n <= 0 {
        None
    } else if segments[n - 1].msn is Some {
        Some(n - 1)
    } else {
        spec_last_numbered(segments, n - 1)
    }
}

/// What to wait for beyond what a playlist already carries. Without EXT-X-PART-INF the
/// next thing to appear is a segment. With it, a parent segment with no URI of its own is
/// still being appended, so the next part is its next Part Index (the count of parts it
/// lists, GAPs included); one that has a URI takes no more parts, so the wait moves to
/// Part Index 0 of the segment after it. `None` where no segment is numbered, or where
/// the part count does not fit a `u32`.
pub open spec fn spec_next_live_wait(segments: Seq<EdgeSegment>, has_part_target: bool) -> Option<LiveWait> {
    match spec_last_numbered(segments, segments.len() as int) {
        None => None,
        Some(i) => {
            let last = segments[i];
            let msn = last.msn->0;
            if !has_part_target {
                Some(LiveWait { msn: (msn + 1) as u64, part: None })
            } else if last.uri@.len() == 0 && last.parts@.len() > 0 {
                if last.parts@.len() <= u32::MAX {
                    Some(LiveWait { msn, part: Some(last.parts@.len() as u32) })
                } else {
                    None
                }
            } else {
                Some(LiveWait { msn: (msn + 1) as u64, part: Some(0) })
            }
        },
    }
}

/// What to wait for beyond what a playlist already carries; `has_part_target` says the
/// playlist declares EXT-X-PART-INF. The last numbered segment's number must leave room
/// for the next one.
pub fn next_live_wait(segments: &[EdgeSegment], has_part_target: bool) -> (r: Option<LiveWait>)
    requires
        spec_last_numbered(segments@, segments@.len() as int) matches Some(i) ==> segments@[i].msn->0 < u64::MAX,
    ensures
        r == spec_next_live_wait(segments@, has_part_target),
{
    let mut j = segments.len();
    while j > 0
        invariant
            j <= segments@.len(),
            spec_last_numbered(segments@, j as int) == spec_last_numbered(segments@, segments@.len() as int),
            spec_last_numbered(segments@, segments@.len() as int) matches Some(i) ==> segments@[i].msn->0 < u64::MAX,
        decreases j,
    {
        let last = &segments[j - 1];
        if let Some(msn) = last.msn {
            if !has_part_target {
                return Some(LiveWait { msn: msn + 1, part: None });
            }
            if last.uri.as_str().unicode_len() == 0 && last.parts.len() > 0 {
                if last.parts.len() <= 0xFFFF_FFFF {
                    return Some(LiveWait { msn, part: Some(last.parts.len() as u32) });
                }
                return None;
            }
            return Some(LiveWait { msn: msn + 1, part: Some(0) });
        }
        j = j - 1;
    }
    None
}

// ── Delivery directives ──────────────────────────────────────────────────────

/// What `url::Url::parse(url)` and then `Url::query()` give: `None` where the text is not
/// an absolute URL, else the URL's query as written, if it has one. Named rather than
/// stated, since URL parsing takes pages.
pub uninterp spec fn spec_url_query(url: Seq<char>) -> Option<Option<Seq<char>>>;

/// The query of a URL, by `url::Url::parse` and `Url::query`. The contract claims only
/// that the result is a function of the text, named `spec_url_query`.
#[verifier::external_body]
fn url_query(url: &str) -> (r: Option<Option<String>>)
    ensures
        match r {
            None => spec_url_query(url@) is None,
            Some(None) => spec_url_query(url@) == Some(None::<Seq<char>>),
            Some(Some(q)) => spec_url_query(url@) == Some(Some(q@)),
        },
{
    match url::Url::parse(url) {
        Ok(parsed) => Some(parsed.query().map(String::from)),
        Err(_) => None,
    }
}

/// What `url::Url::parse(url)`, `Url::set_query(Some(query))` and the serialisation of
/// the result give, for a text that parses. Named rather than stated.
pub uninterp spec fn spec_url_with_query(url: Seq<char>, query: Seq<char>) -> Seq<char>;

/// `url` with its query replaced by `query`, by `url::Url::parse`, `Url::set_query` and
/// `to_string`. The contract claims only that the result is a function of the two texts,
/// named `spec_url_with_query`; `url` must parse.
#[verifier::external_body]
fn url_with_query(url: &str, query: &str) -> (r: String)
    requires
        spec_url_query(url@) is Some,
    ensures
        r@ == spec_url_with_query(url@, query@),
{
    match url::Url::parse(url) {
        Ok(mut parsed) => {
            parsed.set_query(Some(query));
            parsed.to_string()
        },
        Err(_) => String::from(url),
    }
}

/// Whether a query pair is kept on a blocking reload: it is not empty and its name is
/// neither directive.
pub open spec fn spec_pair_kept(pair: Seq<char>) -> bool {
    let name = pair.subrange(0, spec_find_from(pair, '=', 0));
    pair.len() > 0 && name != HLS_MSN_PARAM@ && name != HLS_PART_PARAM@
}

/// The kept pairs of the query `q` from position `i` on, joined by `&`, each preceded by
/// `&` when `started` (something is already written before it).
pub open spec fn spec_kept_query(q: Seq<char>, i: int, started: bool) -> Seq<char>
    decreases q.len() + 1 - i,
{
    if i < 0 || i > q.len() {
        Seq::empty()
    } else {
        let j = spec_find_from(q, '&', i);
        proof {
            lemma_find_from_bounds(q, '&', i);
        }
        let pair = q.subrange(i, j);
        let (here, now_started) = if spec_pair_kept(pair) {
            (if started { seq!['&'] + pair } else { pair }, true)
        } else {
            (Seq::empty(), started)
        };
        here + if j < q.len() { spec_kept_query(q, j + 1, now_started) } else { Seq::empty() }
    }
}

/// The query of a blocking reload: the pairs the URL already carried, less any earlier
/// directive, then `_HLS_msn` and, for a part, `_HLS_part`.
pub open spec fn spec_reload_query(existing: Seq<char>, msn: u64, part: Option<u32>) -> Seq<char> {
    let kept = spec_kept_query(existing, 0, false);
    let lead = if kept.len() > 0 { kept + seq!['&'] } else { kept };
    let with_msn = lead + HLS_MSN_PARAM@ + seq!['='] + spec_decimal(msn as nat);
    match part {
        Some(p) => with_msn + seq!['&'] + HLS_PART_PARAM@ + seq!['='] + spec_decimal(p as nat),
        None => with_msn,
    }
}

/// The playlist URL of a blocking reload: the original URL where it does not parse, else
/// the URL with its reload query.
pub open spec fn spec_blocking_reload_url(playlist_uri: Seq<char>, msn: u64, part: Option<u32>) -> Seq<char> {
    match spec_url_query(playlist_uri) {
        None => playlist_uri,
        Some(q) => spec_url_with_query(
            playlist_uri,
            spec_reload_query(
                match q {
                    Some(t) => t,
                    None => Seq::empty(),
                },
                msn,
                part,
            ),
        ),
    }
}

fn pair_kept(pair: &str) -> (r: bool)
    ensures
        r == spec_pair_kept(pair@),
{
    let e = find_from(pair, '=', 0);
    proof {
        lemma_find_from_bounds(pair@, '=', 0);
    }
    let name = pair.substring_char(0, e);
    pair.unicode_len() > 0 && !crate::text::str_equals_text(name, HLS_MSN_PARAM)
        && !crate::text::str_equals_text(name, HLS_PART_PARAM)
}

/// The playlist URL for a blocking reload that waits for `msn` (and `part`, if given).
///
/// Every other query parameter the playlist URI carried is kept exactly as it was written,
/// since an origin that signs its URLs rejects one whose parameters were dropped or
/// re-escaped. Any directive already on the URL is replaced rather than repeated. A URL
/// that does not parse is returned as it was.
pub fn blocking_reload_url(playlist_uri: &str, msn: u64, part: Option<u32>) -> (r: String)
    ensures
        r@ == spec_blocking_reload_url(playlist_uri@, msn, part),
{
    let existing = match url_query(playlist_uri) {
        None => {
            return String::from_str(playlist_uri);
        },
        Some(q) => match q {
            Some(t) => t,
            None => String::new(),
        },
    };
    let q = existing.as_str();
    let n = q.unicode_len();
    let mut query = String::new();
    let mut started = false;
    let mut i: usize = 0;
    while i <= n
        invariant_except_break
            query@ + spec_kept_query(q@, i as int, started) == spec_kept_query(q@, 0, false),
        invariant
            n == q@.len(),
            started == (query@.len() > 0),
        ensures
            query@ == spec_kept_query(q@, 0, false),
        decreases n + 1 - i,
    {
        let j = find_from(q, '&', i);
        proof {
            lemma_find_from_bounds(q@, '&', i as int);
        }
        let pair = q.substring_char(i, j);
        let ghost before = query@;
        let ghost was_started = started;
        if pair_kept(pair) {
            if started {
                push_char(&mut query, '&');
            }
            push_str(&mut query, pair);
            started = true;
        }
        proof {
            let here = query@.subrange(before.len() as int, query@.len() as int);
            assert(query@ =~= before + here);
            assert(spec_kept_query(q@, i as int, was_started) =~= here + if j < n {
                spec_kept_query(q@, j + 1, started)
            } else {
                Seq::empty()
            });
        }
        if j >= n {
            assert(query@ =~= spec_kept_query(q@, 0, false));
            break;
        }
        assert(query@ + spec_kept_query(q@, j + 1, started) =~= spec_kept_query(q@, 0, false));
        i = j + 1;
    }
    if query.as_str().unicode_len() > 0 {
        push_char(&mut query, '&');
    }
    push_str(&mut query, HLS_MSN_PARAM);
    push_char(&mut query, '=');
    push_decimal(&mut query, msn);
    if let Some(p) = part {
        push_char(&mut query, '&');
        push_str(&mut query, HLS_PART_PARAM);
        push_char(&mut query, '=');
        push_decimal(&mut query, p as u64);
    }
    proof {
        let e = match spec_url_query(playlist_uri@) {
            Some(Some(t)) => t,
            _ => Seq::empty(),
        };
        assert(q@ == e);
        assert(query@ =~= spec_reload_query(e, msn, part));
    }
    url_with_query(playlist_uri, query.as_str())
}


/// Whether a playlist body carried the fetchable item `uri` at `range`: some segment or
/// part of it has that URI and that range. An empty URI is never carried.
pub open spec fn spec_known(segments: Seq<EdgeSegment>, uri: Seq<char>, range: Option<RequestRange>) -> bool {
    uri.len() > 0 && exists|i: int|
        0 <= i < segments.len() && ((segments[i].uri@ == uri && segments[i].byterange == range) || exists|k: int|
            0 <= k < segments[i].parts@.len() && #[trigger] segments[i].parts@[k].uri@ == uri
                && segments[i].parts@[k].byterange == range)
}

/// The highest Media Sequence Number among the first `n` segments, where any is numbered.
pub open spec fn spec_highest_msn(segments: Seq<EdgeSegment>, n: int) -> Option<u64>
    decreases n,
{
    if n <= 0 {
        None
    } else {
        let rest = spec_highest_msn(segments, n - 1);
        match (segments[n - 1].msn, rest) {
            (Some(m), Some(r)) => Some(if m > r { m } else { r }),
            (Some(m), None) => Some(m),
            (None, r) => r,
        }
    }
}

/// Something that appeared at the live edge: a segment of the new playlist body, or one
/// of its parts.
#[derive(Debug, Clone, Copy, PartialEq, Eq, Structural)]
pub struct EdgeAppearance {
    /// The index of the segment in the new body.
    pub segment: usize,
    /// The index of the part within that segment, where a part is what appeared.
    pub part: Option<usize>,
}

/// The parts of `seg` among its first `n` that appeared: fetchable and not carried by the
/// previous body.
pub open spec fn spec_new_parts(before: Seq<EdgeSegment>, seg: EdgeSegment, i: int, n: int) -> Seq<EdgeAppearance>
    decreases n,
{
    if n <= 0 {
        Seq::empty()
    } else {
        let p = seg.parts@[n - 1];
        let rest = spec_new_parts(before, seg, i, n - 1);
        if !p.gap && p.uri@.len() > 0 && !spec_known(before, p.uri@, p.byterange) {
            rest.push(EdgeAppearance { segment: i as usize, part: Some((n - 1) as usize) })
        } else {
            rest
        }
    }
}

/// What appeared in segment `i` of the new body `after`: nothing below the highest
/// sequence number the previous body carried; otherwise its new parts, or, where it has
/// none, the segment itself if it is new, fetchable, and not a parent whose parts a
/// low-latency playlist already listed.
pub open spec fn spec_segment_appearances(before: Seq<EdgeSegment>, after: Seq<EdgeSegment>, has_part_target: bool, i: int) -> Seq<EdgeAppearance> {
    let seg = after[i];
    let below = match (spec_highest_msn(before, before.len() as int), seg.msn) {
        (Some(f), Some(m)) => m < f,
        _ => false,
    };
    let parts = spec_new_parts(before, seg, i, seg.parts@.len() as int);
    if below {
        Seq::empty()
    } else if parts.len() > 0 {
        parts
    } else if has_part_target && seg.parts@.len() > 0 {
        Seq::empty()
    } else if !seg.gap && seg.uri@.len() > 0 && !spec_known(before, seg.uri@, seg.byterange) {
        seq![EdgeAppearance { segment: i as usize, part: None }]
    } else {
        Seq::empty()
    }
}

/// What appeared in the first `n` segments of `after`.
pub open spec fn spec_new_edge_items(before: Seq<EdgeSegment>, after: Seq<EdgeSegment>, has_part_target: bool, n: int) -> Seq<EdgeAppearance>
    decreases n,
{
    if n <= 0 {
        Seq::empty()
    } else {
        spec_new_edge_items(before, after, has_part_target, n - 1) + spec_segment_appearances(before, after, has_part_target, n - 1)
    }
}

fn known(segments: &[EdgeSegment], uri: &str, range: Option<RequestRange>) -> (r: bool)
    ensures
        r == spec_known(segments@, uri@, range),
{
    if uri.unicode_len() == 0 {
        return false;
    }
    let mut i: usize = 0;
    while i < segments.len()
        invariant
            i <= segments@.len(),
            uri@.len() > 0,
            forall|j: int| 0 <= j < i ==> !((segments@[j].uri@ == uri@ && segments@[j].byterange == range) || exists|k: int|
                0 <= k < segments@[j].parts@.len() && #[trigger] segments@[j].parts@[k].uri@ == uri@
                    && segments@[j].parts@[k].byterange == range),
        decreases segments.len() - i,
    {
        let s = &segments[i];
        if str_equals_text(s.uri.as_str(), uri) && s.byterange == range {
            return true;
        }
        let mut k: usize = 0;
        while k < s.parts.len()
            invariant
                k <= s.parts@.len(),
                i < segments@.len(),
                *s == segments@[i as int],
                uri@.len() > 0,
                forall|x: int| 0 <= x < k ==> !(#[trigger] s.parts@[x].uri@ == uri@ && s.parts@[x].byterange == range),
            decreases s.parts.len() - k,
        {
            if str_equals_text(s.parts[k].uri.as_str(), uri) && s.parts[k].byterange == range {
                proof {
                    assert(segments@[i as int].parts@[k as int].uri@ == uri@);
                }
                return true;
            }
            k = k + 1;
        }
        i = i + 1;
    }
    false
}

fn highest_msn(segments: &[EdgeSegment]) -> (r: Option<u64>)
    ensures
        r == spec_highest_msn(segments@, segments@.len() as int),
{
    let mut best: Option<u64> = None;
    let mut i: usize = 0;
    while i < segments.len()
        invariant
            i <= segments@.len(),
            best == spec_highest_msn(segments@, i as int),
        decreases segments.len() - i,
    {
        match (segments[i].msn, best) {
            (Some(m), Some(r)) => {
                if m > r {
                    best = Some(m);
                }
            },
            (Some(m), None) => {
                best = Some(m);
            },
            (None, _) => {},
        }
        i = i + 1;
    }
    best
}

/// What appeared at the live edge between two bodies of a playlist: the fetchable media
/// of `after` that `before` did not carry (keyed by URI and byte range), at or beyond the
/// highest sequence number `before` carried, never a GAP. A survivor of a sliding window
/// did not appear. Where `after` is a low-latency playlist (`has_part_target`), a parent
/// segment whose parts were already listed is not a new download even when its own URI
/// is new: its media could already have been had part by part.
pub fn new_edge_items(before: &[EdgeSegment], after: &[EdgeSegment], has_part_target: bool) -> (r: Vec<EdgeAppearance>)
    ensures
        r@ == spec_new_edge_items(before@, after@, has_part_target, after@.len() as int),
{
    let floor = highest_msn(before);
    let mut items: Vec<EdgeAppearance> = Vec::new();
    let mut i: usize = 0;
    while i < after.len()
        invariant
            i <= after@.len(),
            floor == spec_highest_msn(before@, before@.len() as int),
            items@ == spec_new_edge_items(before@, after@, has_part_target, i as int),
        decreases after.len() - i,
    {
        let seg = &after[i];
        let below = match (floor, seg.msn) {
            (Some(f), Some(m)) => m < f,
            _ => false,
        };
        let ghost start = items@;
        if !below {
            let mut parts: Vec<EdgeAppearance> = Vec::new();
            let mut k: usize = 0;
            while k < seg.parts.len()
                invariant
                    k <= seg.parts@.len(),
                    *seg == after@[i as int],
                    i < after@.len(),
                    parts@ == spec_new_parts(before@, *seg, i as int, k as int),
                decreases seg.parts.len() - k,
            {
                let p = &seg.parts[k];
                if !p.gap && p.uri.unicode_len() > 0 && !known(before, p.uri.as_str(), p.byterange) {
                    parts.push(EdgeAppearance { segment: i, part: Some(k) });
                }
                k = k + 1;
            }
            if parts.len() > 0 {
                items.append(&mut parts);
            } else if has_part_target && seg.parts.len() > 0 {
            } else if !seg.gap && seg.uri.unicode_len() > 0 && !known(before, seg.uri.as_str(), seg.byterange) {
                items.push(EdgeAppearance { segment: i, part: None });
                proof {
                    assert(items@ =~= start + seq![EdgeAppearance { segment: i, part: None }]);
                }
            }
        }
        proof {
            assert(items@ =~= start + spec_segment_appearances(before@, after@, has_part_target, i as int));
        }
        i = i + 1;
    }
    items
}


proof fn lemma_same_window_parts(w: Seq<EdgeSegment>, i: int, n: int)
    requires
        0 <= i < w.len(),
        0 <= n <= w[i].parts@.len(),
    ensures
        spec_new_parts(w, w[i], i, n) == Seq::<EdgeAppearance>::empty(),
    decreases n,
{
    if n > 0 {
        lemma_same_window_parts(w, i, n - 1);
        let p = w[i].parts@[n - 1];
        if !p.gap && p.uri@.len() > 0 {
            assert(w[i].parts@[n - 1].uri@ == p.uri@);
            assert(spec_known(w, p.uri@, p.byterange));
        }
    }
}

/// A reload that returns the window it replaced brings nothing new: whatever the window,
/// nothing appeared.
pub proof fn lemma_nothing_appears_in_the_same_window(w: Seq<EdgeSegment>, has_part_target: bool, n: int)
    requires
        0 <= n <= w.len(),
    ensures
        spec_new_edge_items(w, w, has_part_target, n) == Seq::<EdgeAppearance>::empty(),
    decreases n,
{
    if n > 0 {
        lemma_nothing_appears_in_the_same_window(w, has_part_target, n - 1);
        let i = n - 1;
        lemma_same_window_parts(w, i, w[i].parts@.len() as int);
        let seg = w[i];
        if !seg.gap && seg.uri@.len() > 0 {
            assert(spec_known(w, seg.uri@, seg.byterange));
        }
        assert(spec_segment_appearances(w, w, has_part_target, i) =~= Seq::<EdgeAppearance>::empty());
    }
}

/// Whether appearance `a` names a fetchable item of `after` that `before` did not carry.
pub open spec fn spec_appearance_is_new(before: Seq<EdgeSegment>, after: Seq<EdgeSegment>, a: EdgeAppearance) -> bool {
    &&& a.segment < after.len()
    &&& match a.part {
        Some(k) => {
            let p = after[a.segment as int].parts@[k as int];
            &&& k < after[a.segment as int].parts@.len()
            &&& !p.gap && p.uri@.len() > 0
            &&& !spec_known(before, p.uri@, p.byterange)
        },
        None => {
            let s = after[a.segment as int];
            &&& !s.gap && s.uri@.len() > 0
            &&& !spec_known(before, s.uri@, s.byterange)
        },
    }
}

proof fn lemma_new_parts_are_new(before: Seq<EdgeSegment>, after: Seq<EdgeSegment>, i: int, n: int)
    requires
        0 <= i < after.len(),
        i <= usize::MAX,
        0 <= n <= after[i].parts@.len(),
        after[i].parts@.len() <= usize::MAX,
    ensures
        forall|k: int| 0 <= k < spec_new_parts(before, after[i], i, n).len() ==> spec_appearance_is_new(
            before,
            after,
            #[trigger] spec_new_parts(before, after[i], i, n)[k],
        ),
    decreases n,
{
    if n > 0 {
        lemma_new_parts_are_new(before, after, i, n - 1);
        let rest = spec_new_parts(before, after[i], i, n - 1);
        let all = spec_new_parts(before, after[i], i, n);
        assert forall|k: int| 0 <= k < all.len() implies spec_appearance_is_new(before, after, #[trigger] all[k]) by {
            if k < rest.len() {
                assert(all[k] == rest[k]);
            } else {
                let a = EdgeAppearance { segment: i as usize, part: Some((n - 1) as usize) };
                assert(all[k] == a);
                assert(a.segment as int == i);
                assert(a.part->0 as int == n - 1);
            }
        }
    }
}

/// Everything reported as having appeared is fetchable media of the new body, neither a
/// GAP nor without a URI, that the previous body did not carry.
pub proof fn lemma_appearances_are_new(before: Seq<EdgeSegment>, after: Seq<EdgeSegment>, has_part_target: bool, n: int)
    requires
        0 <= n <= after.len(),
        after.len() <= usize::MAX,
        forall|i: int| 0 <= i < after.len() ==> (#[trigger] after[i]).parts@.len() <= usize::MAX,
    ensures
        forall|k: int| 0 <= k < spec_new_edge_items(before, after, has_part_target, n).len() ==> spec_appearance_is_new(
            before,
            after,
            #[trigger] spec_new_edge_items(before, after, has_part_target, n)[k],
        ),
    decreases n,
{
    if n > 0 {
        lemma_appearances_are_new(before, after, has_part_target, n - 1);
        let i = n - 1;
        lemma_new_parts_are_new(before, after, i, after[i].parts@.len() as int);
        let rest = spec_new_edge_items(before, after, has_part_target, n - 1);
        let here = spec_segment_appearances(before, after, has_part_target, i);
        assert forall|k: int| 0 <= k < (rest + here).len() implies spec_appearance_is_new(before, after, #[trigger] (rest + here)[k]) by {
            if k >= rest.len() {
                assert((rest + here)[k] == here[k - rest.len()]);
            } else {
                assert((rest + here)[k] == rest[k]);
            }
        }
    }
}

// ── The wait for the live edge ──────────────────────────────────────────────────

/// How many playlist reloads one wait for the live edge makes at most.
pub const MAX_WAIT_ATTEMPTS: u32 = 24;

/// How a wait for the live edge ended.
#[derive(PartialEq, Eq, Debug)]
pub enum WaitEnd {
    /// New fetchable media appeared on a body this wait read.
    Appeared,
    /// The wait ran out of time, or of attempts, with nothing new on the playlist.
    TimedOut,
    /// A playlist request did not complete; what it said.
    Failed(String),
    /// The run was stopped.
    Cancelled,
    /// There is no numbered media to wait beyond.
    NothingToWaitFor,
}

/// What happened since the wait last decided.
pub enum WaitEvent {
    /// An attempt is due: whether the run was stopped, and whether any of the wait's time
    /// is left.
    AttemptDue { aborted: bool, time_left: bool },
    /// The reload did not complete: cancelled (by this wait's own time limit where the
    /// run was not stopped), or failed with an error.
    ReloadFailed { cancelled: bool, run_aborted: bool, error: String },
    /// The reload gave a body: whether new media appeared on it since the wait began, and
    /// whether it leaves something to wait for next.
    ReloadBody { appeared: bool, next_wait: bool },
    /// After a body with nothing new: whether time is left for the next attempt.
    PollDue { time_left: bool },
}

/// What to do next.
pub enum WaitAction {
    /// Reload the playlist.
    Reload,
    /// Sleep the poll interval (or what is left of the wait, if less), then attempt again.
    Sleep,
    /// End the wait.
    End(WaitEnd),
}

/// The decision on an event, given how many attempts have begun: each attempt is checked
/// for a stop and for time left before its reload; a cancelled reload is the wait's own
/// time limit unless the run was stopped; a body ends the wait where new media appeared or
/// nothing is left to wait for; and after the last attempt the wait has timed out.
pub open spec fn spec_wait_step(attempts: u32, event: WaitEvent) -> (u32, WaitAction) {
    match event {
        WaitEvent::AttemptDue { aborted, time_left } => if attempts >= MAX_WAIT_ATTEMPTS {
            (attempts, WaitAction::End(WaitEnd::TimedOut))
        } else if aborted {
            (attempts, WaitAction::End(WaitEnd::Cancelled))
        } else if !time_left {
            (attempts, WaitAction::End(WaitEnd::TimedOut))
        } else {
            ((attempts + 1) as u32, WaitAction::Reload)
        },
        WaitEvent::ReloadFailed { cancelled, run_aborted, error } => if cancelled && !run_aborted {
            (attempts, WaitAction::End(WaitEnd::TimedOut))
        } else if cancelled {
            (attempts, WaitAction::End(WaitEnd::Cancelled))
        } else {
            (attempts, WaitAction::End(WaitEnd::Failed(error)))
        },
        WaitEvent::ReloadBody { appeared, next_wait } => if appeared {
            (attempts, WaitAction::End(WaitEnd::Appeared))
        } else if !next_wait {
            (attempts, WaitAction::End(WaitEnd::NothingToWaitFor))
        } else {
            (attempts, WaitAction::Sleep)
        },
        WaitEvent::PollDue { time_left } => if time_left {
            (attempts, WaitAction::Sleep)
        } else {
            (attempts, WaitAction::End(WaitEnd::TimedOut))
        },
    }
}

/// Decides the next step of a wait for the live edge, as `spec_wait_step` says; the
/// caller performs the reload or the sleep and hands back what came of it.
pub fn wait_step(attempts: u32, event: WaitEvent) -> (r: (u32, WaitAction))
    ensures
        r == spec_wait_step(attempts, event),
{
    match event {
        WaitEvent::AttemptDue { aborted, time_left } => if attempts >= MAX_WAIT_ATTEMPTS {
            (attempts, WaitAction::End(WaitEnd::TimedOut))
        } else if aborted {
            (attempts, WaitAction::End(WaitEnd::Cancelled))
        } else if !time_left {
            (attempts, WaitAction::End(WaitEnd::TimedOut))
        } else {
            (attempts + 1, WaitAction::Reload)
        },
        WaitEvent::ReloadFailed { cancelled, run_aborted, error } => if cancelled && !run_aborted {
            (attempts, WaitAction::End(WaitEnd::TimedOut))
        } else if cancelled {
            (attempts, WaitAction::End(WaitEnd::Cancelled))
        } else {
            (attempts, WaitAction::End(WaitEnd::Failed(error)))
        },
        WaitEvent::ReloadBody { appeared, next_wait } => if appeared {
            (attempts, WaitAction::End(WaitEnd::Appeared))
        } else if !next_wait {
            (attempts, WaitAction::End(WaitEnd::NothingToWaitFor))
        } else {
            (attempts, WaitAction::Sleep)
        },
        WaitEvent::PollDue { time_left } => if time_left {
            (attempts, WaitAction::Sleep)
        } else {
            (attempts, WaitAction::End(WaitEnd::TimedOut))
        },
    }
}

/// A wait reloads at most `MAX_WAIT_ATTEMPTS` times: no event takes the count of attempts
/// past it, and at the limit a due attempt ends the wait.
pub proof fn lemma_wait_attempts_bounded(attempts: u32, event: WaitEvent)
    requires
        attempts <= MAX_WAIT_ATTEMPTS,
    ensures
        spec_wait_step(attempts, event).0 <= MAX_WAIT_ATTEMPTS,
        attempts == MAX_WAIT_ATTEMPTS ==> !(spec_wait_step(attempts, event).1 is Reload),
{
}

} // verus!
