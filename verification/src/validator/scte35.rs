//! SCTE-35 ad breaks of the VIDEO renditions: the EXT-X-DATERANGE tags that carry an
//! SCTE35-OUT or SCTE35-IN payload, one break per ID, leaving out the IDs of HLS
//! Interstitials; where no such tag exists, the EXT-X-SCTE35 `CUE-OUT=YES` tags paired
//! with the segment that follows them.
//!
//! Durations and dates are kept as written: reading them as seconds takes floating point.

use vstd::prelude::*;
use vstd::string::StringExecFns;
use crate::text::{
    find_from, lemma_find_from_bounds, lemma_lex_irreflexive, lemma_lex_transitive, push_str,
    spec_find_from, spec_lex_lt, spec_starts_with,
    spec_trim, starts_with, str_equals_text, str_lex_lt, trim,
};
use crate::validator::checks::PlaylistFacts;
use crate::validator::interstitials::{
    attr_or_empty, daterange_attrs, is_interstitial, spec_attr, spec_attr_or_empty,
    spec_daterange_attrs, spec_is_interstitial, spec_texts, Attrs,
};
use crate::validator::parser::{parse_attributes, spec_attr_pairs};
use crate::validator::text_map::{spec_pairs_map, TextMap};
use crate::validator::{classify_scte35_id, spec_classify_scte35};

verus! {

// ---------------------------------------------------------------------------------------
// The lines of the VIDEO renditions

/// The trimmed lines of `c` from position `i` on.
pub open spec fn spec_lines_from(c: Seq<char>, i: int) -> Seq<Seq<char>>
    decreases c.len() + 1 - i,
{
    if i < 0 || i > c.len() {
        Seq::empty()
    } else {
        let j = spec_find_from(c, '\n', i);
        proof {
            lemma_find_from_bounds(c, '\n', i);
        }
        seq![spec_trim(c.subrange(i, j))] + if j < c.len() {
            spec_lines_from(c, j + 1)
        } else {
            Seq::empty()
        }
    }
}

/// Whether a playlist is a VIDEO rendition.
pub open spec fn spec_is_video(pl: PlaylistFacts) -> bool {
    pl.media_type@ == "VIDEO"@
}

/// Every trimmed line of the VIDEO renditions among `pls`, in order, each with the index of
/// its playlist.
pub open spec fn spec_video_lines(pls: Seq<PlaylistFacts>) -> Seq<(int, Seq<char>)>
    decreases pls.len(),
{
    if pls.len() == 0 {
        Seq::empty()
    } else {
        let k = pls.len() - 1;
        spec_video_lines(pls.drop_last()) + if spec_is_video(pls[k]) {
            spec_lines_from(pls[k].raw_content@, 0).map_values(|l: Seq<char>| (k, l))
        } else {
            Seq::empty()
        }
    }
}

pub open spec fn spec_strs(v: Seq<&str>) -> Seq<Seq<char>> {
    v.map_values(|s: &str| s@)
}

/// The trimmed lines of `content`.
fn trimmed_lines(content: &str) -> (r: Vec<&str>)
    ensures
        spec_strs(r@) == spec_lines_from(content@, 0),
{
    let n = content.unicode_len();
    let mut out: Vec<&str> = Vec::new();
    let mut i: usize = 0;
    while i <= n
        invariant
            n == content@.len(),
            i <= n,
            spec_strs(out@) + spec_lines_from(content@, i as int) == spec_lines_from(content@, 0),
        decreases n + 1 - i,
    {
        let j = find_from(content, '\n', i);
        proof {
            lemma_find_from_bounds(content@, '\n', i as int);
        }
        let line = trim(content.substring_char(i, j));
        let ghost before = spec_strs(out@);
        out.push(line);
        proof {
            assert(spec_strs(out@) =~= before.push(line@));
        }
        if j >= n {
            proof {
                assert(spec_lines_from(content@, i as int) =~= seq![line@]);
                assert(spec_strs(out@) =~= before + seq![line@]);
            }
            return out;
        }
        proof {
            assert(spec_lines_from(content@, i as int) =~= seq![line@] + spec_lines_from(content@, j + 1));
            assert(spec_strs(out@) + spec_lines_from(content@, j + 1) =~= before + spec_lines_from(content@, i as int));
        }
        i = j + 1;
    }
    out
}

pub open spec fn spec_flat(v: Seq<(usize, &str)>) -> Seq<(int, Seq<char>)> {
    v.map_values(|p: (usize, &str)| (p.0 as int, p.1@))
}

fn video_lines<'a>(pls: &'a [PlaylistFacts]) -> (r: Vec<(usize, &'a str)>)
    ensures
        spec_flat(r@) == spec_video_lines(pls@),
{
    let mut out: Vec<(usize, &'a str)> = Vec::new();
    let mut k: usize = 0;
    while k < pls.len()
        invariant
            k <= pls@.len(),
            spec_flat(out@) == spec_video_lines(pls@.take(k as int)),
        decreases pls.len() - k,
    {
        assert(pls@.take(k as int + 1).drop_last() =~= pls@.take(k as int));
        if str_equals_text(pls[k].media_type.as_str(), "VIDEO") {
            let lines = trimmed_lines(pls[k].raw_content.as_str());
            let ghost before = spec_flat(out@);
            let mut m: usize = 0;
            while m < lines.len()
                invariant
                    m <= lines@.len(),
                    k < pls@.len(),
                    spec_strs(lines@) == spec_lines_from(pls@[k as int].raw_content@, 0),
                    spec_flat(out@) == before + spec_strs(lines@).take(m as int).map_values(|l: Seq<char>| (k as int, l)),
                decreases lines.len() - m,
            {
                let ghost b2 = spec_flat(out@);
                out.push((k, lines[m]));
                proof {
                    assert(spec_flat(out@) =~= b2.push((k as int, lines@[m as int]@)));
                    assert(spec_strs(lines@).take(m as int + 1).map_values(|l: Seq<char>| (k as int, l)) =~= spec_strs(
                        lines@,
                    ).take(m as int).map_values(|l: Seq<char>| (k as int, l)).push((k as int, lines@[m as int]@)));
                }
                m = m + 1;
            }
            proof {
                assert(spec_strs(lines@).take(m as int) =~= spec_strs(lines@));
            }
        } else {
            proof {
                assert(spec_flat(out@) =~= spec_flat(out@) + Seq::<(int, Seq<char>)>::empty());
            }
        }
        k = k + 1;
    }
    assert(pls@.take(k as int) =~= pls@);
    out
}

// ---------------------------------------------------------------------------------------
// Breaks

/// One SCTE-35 ad break, as written: where it was first found, its ID, its start date,
/// and the texts that its durations are read from.
pub struct AdBreakFacts {
    /// The index, among the playlists, of the one it was first found in.
    pub playlist: usize,
    pub rendition: String,
    pub id: String,
    pub start_date: String,
    /// Every planned duration given for it, in the order of its tags: PLANNED-DURATION of
    /// its Date Ranges, or DURATION of its EXT-X-SCTE35 tag. Its planned duration is the
    /// first of them that reads as a number.
    pub planned_durations: Vec<String>,
    /// The START-DATE (empty where absent) and END-DATE of each of its Date Ranges that has
    /// an END-DATE, in order. Its actual duration is that of the first pair whose dates
    /// both read.
    pub date_spans: Vec<(String, String)>,
    pub break_type: String,
}

/// An ad break as plain values.
pub struct AdBreakView {
    pub playlist: int,
    pub rendition: Seq<char>,
    pub id: Seq<char>,
    pub start_date: Seq<char>,
    pub planned: Seq<Seq<char>>,
    pub spans: Seq<(Seq<char>, Seq<char>)>,
    pub break_type: Seq<char>,
}

pub open spec fn spec_span_texts(v: Seq<(String, String)>) -> Seq<(Seq<char>, Seq<char>)> {
    v.map_values(|p: (String, String)| (p.0@, p.1@))
}

impl View for AdBreakFacts {
    type V = AdBreakView;

    open spec fn view(&self) -> AdBreakView {
        AdBreakView {
            playlist: self.playlist as int,
            rendition: self.rendition@,
            id: self.id@,
            start_date: self.start_date@,
            planned: spec_texts(self.planned_durations@),
            spans: spec_span_texts(self.date_spans@),
            break_type: self.break_type@,
        }
    }
}

pub open spec fn spec_breaks(v: Seq<AdBreakFacts>) -> Seq<AdBreakView> {
    v.map_values(|b: AdBreakFacts| b@)
}

/// The value of attribute `k` as a one-element sequence, or nothing where it is absent.
pub open spec fn spec_attr_seq(m: Attrs, k: Seq<char>) -> Seq<Seq<char>> {
    if m.contains_key(k) {
        seq![m[k]]
    } else {
        Seq::empty()
    }
}

/// The START-DATE and END-DATE of a Date Range, where it has an END-DATE.
pub open spec fn spec_span_seq(m: Attrs) -> Seq<(Seq<char>, Seq<char>)> {
    if m.contains_key("END-DATE"@) {
        seq![(spec_attr_or_empty(m, "START-DATE"@), m["END-DATE"@])]
    } else {
        Seq::empty()
    }
}

/// The IDs of the interstitial Date Ranges among the lines, in order.
pub open spec fn spec_interstitial_ids(flat: Seq<(int, Seq<char>)>) -> Seq<Seq<char>>
    decreases flat.len(),
{
    if flat.len() == 0 {
        Seq::empty()
    } else {
        let prev = spec_interstitial_ids(flat.drop_last());
        match spec_daterange_attrs(flat.last().1) {
            Some(m) => if spec_is_interstitial(m) && m.contains_key("ID"@) {
                prev.push(m["ID"@])
            } else {
                prev
            },
            None => prev,
        }
    }
}

/// The position of the first break with ID `id` at or after `k`, or the length.
pub open spec fn spec_break_index(bs: Seq<AdBreakView>, id: Seq<char>, k: int) -> int
    decreases bs.len() - k,
{
    if k >= bs.len() || bs[k].id == id {
        k
    } else {
        spec_break_index(bs, id, k + 1)
    }
}

proof fn lemma_break_index_bounds(bs: Seq<AdBreakView>, id: Seq<char>, k: int)
    requires
        0 <= k <= bs.len(),
    ensures
        k <= spec_break_index(bs, id, k) <= bs.len(),
        spec_break_index(bs, id, k) < bs.len() ==> bs[spec_break_index(bs, id, k)].id == id,
        forall|j: int| k <= j < spec_break_index(bs, id, k) ==> bs[j].id != id,
    decreases bs.len() - k,
{
    if k < bs.len() && bs[k].id != id {
        lemma_break_index_bounds(bs, id, k + 1);
    }
}

/// The breaks after one more SCTE-35 Date Range `m` of playlist `p`: a new break for an ID
/// not seen before, else the planned duration and dates added to the break with that ID.
pub open spec fn spec_add_daterange(bs: Seq<AdBreakView>, p: int, m: Attrs, pls: Seq<PlaylistFacts>) -> Seq<AdBreakView> {
    let id = spec_attr_or_empty(m, "ID"@);
    let k = spec_break_index(bs, id, 0);
    if k < bs.len() {
        bs.update(k, AdBreakView {
            planned: bs[k].planned + spec_attr_seq(m, "PLANNED-DURATION"@),
            spans: bs[k].spans + spec_span_seq(m),
            ..bs[k]
        })
    } else {
        bs.push(AdBreakView {
            playlist: p,
            rendition: pls[p].name@,
            id,
            start_date: spec_attr_or_empty(m, "START-DATE"@),
            planned: spec_attr_seq(m, "PLANNED-DURATION"@),
            spans: spec_span_seq(m),
            break_type: spec_classify_scte35(id),
        })
    }
}

/// Whether a Date Range is an SCTE-35 break of its own: it carries an SCTE35-OUT or
/// SCTE35-IN payload and its ID (empty where absent) is no interstitial's.
pub open spec fn spec_is_scte35_range(m: Attrs, ids: Seq<Seq<char>>) -> bool {
    (m.contains_key("SCTE35-OUT"@) || m.contains_key("SCTE35-IN"@)) && !ids.contains(spec_attr_or_empty(m, "ID"@))
}

/// The breaks that the SCTE-35 Date Ranges among the lines make, in the order their IDs
/// first appear.
pub open spec fn spec_daterange_breaks(flat: Seq<(int, Seq<char>)>, ids: Seq<Seq<char>>, pls: Seq<PlaylistFacts>) -> Seq<AdBreakView>
    decreases flat.len(),
{
    if flat.len() == 0 {
        Seq::empty()
    } else {
        let prev = spec_daterange_breaks(flat.drop_last(), ids, pls);
        match spec_daterange_attrs(flat.last().1) {
            Some(m) => if spec_is_scte35_range(m, ids) {
                spec_add_daterange(prev, flat.last().0, m, pls)
            } else {
                prev
            },
            None => prev,
        }
    }
}

fn ids_contains(ids: &Vec<String>, id: &str) -> (r: bool)
    ensures
        r == spec_texts(ids@).contains(id@),
{
    let mut k: usize = 0;
    while k < ids.len()
        invariant
            k <= ids@.len(),
            forall|j: int| 0 <= j < k ==> ids@[j]@ != id@,
        decreases ids.len() - k,
    {
        if str_equals_text(ids[k].as_str(), id) {
            proof {
                assert(spec_texts(ids@)[k as int] == id@);
            }
            return true;
        }
        k = k + 1;
    }
    proof {
        if spec_texts(ids@).contains(id@) {
            let j = choose|j: int| 0 <= j < spec_texts(ids@).len() && spec_texts(ids@)[j] == id@;
            assert(ids@[j]@ == id@);
        }
    }
    false
}

fn interstitial_ids(flat: &Vec<(usize, &str)>) -> (r: Vec<String>)
    ensures
        spec_texts(r@) == spec_interstitial_ids(spec_flat(flat@)),
{
    let mut ids: Vec<String> = Vec::new();
    let mut k: usize = 0;
    while k < flat.len()
        invariant
            k <= flat@.len(),
            spec_texts(ids@) == spec_interstitial_ids(spec_flat(flat@).take(k as int)),
        decreases flat.len() - k,
    {
        let ghost f = spec_flat(flat@).take(k as int + 1);
        assert(f.drop_last() =~= spec_flat(flat@).take(k as int));
        assert(f.last() == spec_flat(flat@)[k as int]);
        let ghost before = spec_texts(ids@);
        match daterange_attrs(flat[k].1) {
            Some(m) => {
                if is_interstitial(&m) {
                    match m.get("ID") {
                        Some(v) => {
                            ids.push(v.clone());
                            proof {
                                assert(spec_texts(ids@) =~= before.push(m@["ID"@]));
                            }
                        },
                        None => {},
                    }
                }
            },
            None => {},
        }
        k = k + 1;
    }
    assert(spec_flat(flat@).take(k as int) =~= spec_flat(flat@));
    ids
}

/// The planned durations of a Date Range, as `spec_attr_seq` has them.
fn attr_vec(m: &TextMap, key: &str) -> (r: Vec<String>)
    ensures
        spec_texts(r@) == spec_attr_seq(m@, key@),
{
    let mut v: Vec<String> = Vec::new();
    match m.get(key) {
        Some(x) => {
            v.push(x.clone());
            assert(spec_texts(v@) =~= seq![x@]);
        },
        None => {
            assert(spec_texts(v@) =~= Seq::<Seq<char>>::empty());
        },
    }
    v
}

fn span_vec(m: &TextMap) -> (r: Vec<(String, String)>)
    ensures
        spec_span_texts(r@) == spec_span_seq(m@),
{
    let mut v: Vec<(String, String)> = Vec::new();
    match m.get("END-DATE") {
        Some(e) => {
            let s = attr_or_empty(m, "START-DATE");
            v.push((s, e.clone()));
            assert(spec_span_texts(v@) =~= seq![(spec_attr_or_empty(m@, "START-DATE"@), e@)]);
        },
        None => {
            assert(spec_span_texts(v@) =~= Seq::<(Seq<char>, Seq<char>)>::empty());
        },
    }
    v
}

fn break_index(bs: &Vec<AdBreakFacts>, id: &str) -> (r: usize)
    ensures
        r == spec_break_index(spec_breaks(bs@), id@, 0),
{
    let ghost v = spec_breaks(bs@);
    proof {
        lemma_break_index_bounds(v, id@, 0);
    }
    let mut k: usize = 0;
    while k < bs.len()
        invariant
            k <= bs@.len(),
            v == spec_breaks(bs@),
            spec_break_index(v, id@, k as int) == spec_break_index(v, id@, 0),
        decreases bs.len() - k,
    {
        if str_equals_text(bs[k].id.as_str(), id) {
            return k;
        }
        k = k + 1;
    }
    k
}

fn add_daterange(bs: &mut Vec<AdBreakFacts>, p: usize, m: &TextMap, pls: &[PlaylistFacts])
    requires
        p < pls@.len(),
    ensures
        spec_breaks(final(bs)@) == spec_add_daterange(spec_breaks(old(bs)@), p as int, m@, pls@),
{
    let ghost v = spec_breaks(bs@);
    let id = attr_or_empty(m, "ID");
    let k = break_index(bs, id.as_str());
    proof {
        lemma_break_index_bounds(v, id@, 0);
    }
    if k < bs.len() {
        let mut b = bs.remove(k);
        let mut more = attr_vec(m, "PLANNED-DURATION");
        let ghost planned0 = spec_texts(b.planned_durations@);
        b.planned_durations.append(&mut more);
        proof {
            assert(spec_texts(b.planned_durations@) =~= planned0 + spec_attr_seq(m@, "PLANNED-DURATION"@));
        }
        let mut spans = span_vec(m);
        let ghost spans0 = spec_span_texts(b.date_spans@);
        b.date_spans.append(&mut spans);
        proof {
            assert(spec_span_texts(b.date_spans@) =~= spans0 + spec_span_seq(m@));
        }
        bs.insert(k, b);
        proof {
            assert(spec_breaks(bs@) =~= spec_add_daterange(v, p as int, m@, pls@));
        }
    } else {
        let start_date = attr_or_empty(m, "START-DATE");
        let planned_durations = attr_vec(m, "PLANNED-DURATION");
        let date_spans = span_vec(m);
        let break_type = classify_scte35_id(id.as_str());
        let b = AdBreakFacts {
            playlist: p,
            rendition: pls[p].name.clone(),
            id,
            start_date,
            planned_durations,
            date_spans,
            break_type,
        };
        bs.push(b);
        proof {
            assert(spec_breaks(bs@) =~= spec_add_daterange(v, p as int, m@, pls@));
        }
    }
}

fn daterange_breaks(flat: &Vec<(usize, &str)>, ids: &Vec<String>, pls: &[PlaylistFacts]) -> (r: Vec<AdBreakFacts>)
    requires
        forall|k: int| 0 <= k < flat@.len() ==> (#[trigger] flat@[k]).0 < pls@.len(),
    ensures
        spec_breaks(r@) == spec_daterange_breaks(spec_flat(flat@), spec_texts(ids@), pls@),
{
    let mut bs: Vec<AdBreakFacts> = Vec::new();
    let ghost idv = spec_texts(ids@);
    assert(spec_breaks(bs@) =~= Seq::<AdBreakView>::empty());
    let mut k: usize = 0;
    while k < flat.len()
        invariant
            k <= flat@.len(),
            idv == spec_texts(ids@),
            forall|j: int| 0 <= j < flat@.len() ==> (#[trigger] flat@[j]).0 < pls@.len(),
            spec_breaks(bs@) == spec_daterange_breaks(spec_flat(flat@).take(k as int), idv, pls@),
        decreases flat.len() - k,
    {
        let ghost f = spec_flat(flat@).take(k as int + 1);
        assert(f.drop_last() =~= spec_flat(flat@).take(k as int));
        assert(f.last() == spec_flat(flat@)[k as int]);
        let p = flat[k].0;
        assert(p < pls@.len());
        match daterange_attrs(flat[k].1) {
            Some(m) => {
                let has = m.contains_key("SCTE35-OUT") || m.contains_key("SCTE35-IN");
                if has {
                    let id = attr_or_empty(&m, "ID");
                    if !ids_contains(ids, id.as_str()) {
                        add_daterange(&mut bs, p, &m, pls);
                    }
                }
            },
            None => {},
        }
        k = k + 1;
    }
    assert(spec_flat(flat@).take(k as int) =~= spec_flat(flat@));
    bs
}

// ---------------------------------------------------------------------------------------
// The EXT-X-SCTE35 fallback

/// Where the fallback reading of the lines stands: the playlist it reads, the last
/// EXT-X-PROGRAM-DATE-TIME of it, whether the lines are within an interstitial's span, the
/// `CUE-OUT=YES` tag waiting for its segment, and the breaks found so far.
pub struct CueState {
    pub playlist: int,
    pub last_pdt: Option<Seq<char>>,
    pub in_interstitial: bool,
    pub pending: Option<Attrs>,
    pub breaks: Seq<AdBreakView>,
}

/// The ID that a `CUE-OUT=YES` tag gives its break: `scte35-`, its TYPE, `-` and its ID.
pub open spec fn spec_cue_id(a: Attrs) -> Seq<char> {
    "scte35-"@ + spec_attr_or_empty(a, "TYPE"@) + "-"@ + spec_attr_or_empty(a, "ID"@)
}

/// The fallback reading after one more line `line` of playlist `p`: a new playlist starts
/// afresh; a date-time is kept; a Date Range sets whether an interstitial's span is open
/// (dropping a waiting tag where it is); an EXT-X-SCTE35 tag outside such a span with
/// `CUE-OUT=YES` waits for its segment; and a segment URI makes the waiting tag a break,
/// unless a break with its ID exists.
pub open spec fn spec_cue_step(st: CueState, p: int, line: Seq<char>, ids: Seq<Seq<char>>, pls: Seq<PlaylistFacts>) -> CueState {
    let s0 = if st.playlist != p {
        CueState { playlist: p, last_pdt: None, in_interstitial: false, pending: None, breaks: st.breaks }
    } else {
        st
    };
    if spec_starts_with(line, "#EXT-X-PROGRAM-DATE-TIME:"@) {
        CueState { last_pdt: Some(line.subrange(25, line.len() as int)), ..s0 }
    } else if spec_starts_with(line, "#EXT-X-DATERANGE:"@) {
        let m = spec_pairs_map(spec_attr_pairs(line.subrange(17, line.len() as int)));
        let ctx = spec_is_interstitial(m) || ids.contains(spec_attr_or_empty(m, "ID"@));
        CueState { in_interstitial: ctx, pending: if ctx { None } else { s0.pending }, ..s0 }
    } else if spec_starts_with(line, "#EXT-X-SCTE35:"@) {
        if s0.in_interstitial {
            s0
        } else {
            let a = spec_pairs_map(spec_attr_pairs(line.subrange(14, line.len() as int)));
            if spec_attr(a, "CUE-OUT"@) == Some("YES"@) {
                CueState { pending: Some(a), ..s0 }
            } else {
                s0
            }
        }
    } else if line.len() > 0 && line[0] != '#' {
        match s0.pending {
            Some(a) => {
                let id = spec_cue_id(a);
                let s1 = CueState { pending: None, ..s0 };
                if spec_break_index(s0.breaks, id, 0) < s0.breaks.len() {
                    s1
                } else {
                    CueState {
                        breaks: s0.breaks.push(AdBreakView {
                            playlist: p,
                            rendition: pls[p].name@,
                            id,
                            start_date: match s0.last_pdt {
                                Some(d) => d,
                                None => Seq::empty(),
                            },
                            planned: spec_attr_seq(a, "DURATION"@),
                            spans: Seq::empty(),
                            break_type: spec_classify_scte35(spec_attr_or_empty(a, "TYPE"@) + "-dummy"@),
                        }),
                        ..s1
                    }
                }
            },
            None => s0,
        }
    } else {
        s0
    }
}

/// The fallback reading of the lines, from before the first playlist.
pub open spec fn spec_cue_run(flat: Seq<(int, Seq<char>)>, ids: Seq<Seq<char>>, pls: Seq<PlaylistFacts>) -> CueState
    decreases flat.len(),
{
    if flat.len() == 0 {
        CueState { playlist: -1, last_pdt: None, in_interstitial: false, pending: None, breaks: Seq::empty() }
    } else {
        spec_cue_step(spec_cue_run(flat.drop_last(), ids, pls), flat.last().0, flat.last().1, ids, pls)
    }
}

fn opt_map_view(o: &Option<TextMap>) -> (r: bool)
    ensures
        r == o.is_some(),
{
    o.is_some()
}

fn cue_breaks(flat: &Vec<(usize, &str)>, ids: &Vec<String>, pls: &[PlaylistFacts]) -> (r: Vec<AdBreakFacts>)
    requires
        forall|k: int| 0 <= k < flat@.len() ==> (#[trigger] flat@[k]).0 < pls@.len(),
    ensures
        spec_breaks(r@) == spec_cue_run(spec_flat(flat@), spec_texts(ids@), pls@).breaks,
{
    let ghost idv = spec_texts(ids@);
    let mut bs: Vec<AdBreakFacts> = Vec::new();
    let mut cur: usize = 0;
    let mut started = false;
    let mut last_pdt: Option<String> = None;
    let mut ctx = false;
    let mut pending: Option<TextMap> = None;
    assert(spec_breaks(bs@) =~= Seq::<AdBreakView>::empty());
    let mut k: usize = 0;
    while k < flat.len()
        invariant
            k <= flat@.len(),
            idv == spec_texts(ids@),
            forall|j: int| 0 <= j < flat@.len() ==> (#[trigger] flat@[j]).0 < pls@.len(),
            ({
                let st = spec_cue_run(spec_flat(flat@).take(k as int), idv, pls@);
                &&& st.playlist == if started { cur as int } else { -1 }
                &&& st.last_pdt == match last_pdt { Some(d) => Some(d@), None => None }
                &&& st.in_interstitial == ctx
                &&& st.pending == match pending { Some(a) => Some(a@), None => None::<Attrs> }
                &&& st.breaks == spec_breaks(bs@)
            }),
        decreases flat.len() - k,
    {
        let ghost f = spec_flat(flat@).take(k as int + 1);
        assert(f.drop_last() =~= spec_flat(flat@).take(k as int));
        assert(f.last() == spec_flat(flat@)[k as int]);
        let p = flat[k].0;
        let line = flat[k].1;
        if !started || cur != p {
            started = true;
            cur = p;
            last_pdt = None;
            ctx = false;
            pending = None;
        }
        proof {
            reveal_strlit("#EXT-X-PROGRAM-DATE-TIME:");
            reveal_strlit("#EXT-X-DATERANGE:");
            reveal_strlit("#EXT-X-SCTE35:");
        }
        if starts_with(line, "#EXT-X-PROGRAM-DATE-TIME:") {
            last_pdt = Some(line.substring_char(25, line.unicode_len()).to_string());
        } else if starts_with(line, "#EXT-X-DATERANGE:") {
            let m = parse_attributes(line.substring_char(17, line.unicode_len()));
            let id = attr_or_empty(&m, "ID");
            ctx = is_interstitial(&m) || ids_contains(ids, id.as_str());
            if ctx {
                pending = None;
            }
        } else if starts_with(line, "#EXT-X-SCTE35:") {
            if !ctx {
                let a = parse_attributes(line.substring_char(14, line.unicode_len()));
                let yes = match a.get("CUE-OUT") {
                    Some(v) => str_equals_text(v.as_str(), "YES"),
                    None => false,
                };
                if yes {
                    pending = Some(a);
                }
            }
        } else if line.unicode_len() > 0 && line.get_char(0) != '#' {
            match pending {
                Some(a) => {
                    pending = None;
                    let mut id = String::from_str("scte35-");
                    let t = attr_or_empty(&a, "TYPE");
                    push_str(&mut id, t.as_str());
                    push_str(&mut id, "-");
                    let i2 = attr_or_empty(&a, "ID");
                    push_str(&mut id, i2.as_str());
                    proof {
                        reveal_strlit("scte35-");
                        reveal_strlit("-");
                        assert(id@ =~= spec_cue_id(a@));
                    }
                    let ghost v = spec_breaks(bs@);
                    let at = break_index(&bs, id.as_str());
                    if at >= bs.len() {
                        let start_date = match &last_pdt {
                            Some(d) => d.clone(),
                            None => String::new(),
                        };
                        let mut tt = t.clone();
                        push_str(&mut tt, "-dummy");
                        proof {
                            reveal_strlit("-dummy");
                        }
                        let break_type = classify_scte35_id(tt.as_str());
                        let b = AdBreakFacts {
                            playlist: p,
                            rendition: pls[p].name.clone(),
                            id,
                            start_date,
                            planned_durations: attr_vec(&a, "DURATION"),
                            date_spans: Vec::new(),
                            break_type,
                        };
                        bs.push(b);
                        proof {
                            assert(spec_span_texts(Seq::<(String, String)>::empty()) =~= Seq::<(Seq<char>, Seq<char>)>::empty());
                            assert(spec_breaks(bs@) =~= v.push(bs@[bs@.len() - 1]@));
                        }
                    }
                },
                None => {},
            }
        }
        k = k + 1;
    }
    assert(spec_flat(flat@).take(k as int) =~= spec_flat(flat@));
    bs
}

// ---------------------------------------------------------------------------------------
// Ordering and the whole collection

/// `x` put into `s` before the first break whose start date it sorts before.
pub open spec fn spec_insert_break(s: Seq<AdBreakView>, x: AdBreakView) -> Seq<AdBreakView>
    decreases s.len(),
{
    if s.len() == 0 {
        seq![x]
    } else if spec_lex_lt(x.start_date, s[0].start_date) {
        seq![x] + s
    } else {
        seq![s[0]] + spec_insert_break(s.drop_first(), x)
    }
}

/// The breaks in order of their start dates as text, those with equal dates in the order
/// given (each inserted in turn).
pub open spec fn spec_sort_breaks(s: Seq<AdBreakView>) -> Seq<AdBreakView>
    decreases s.len(),
{
    if s.len() == 0 {
        Seq::empty()
    } else {
        spec_insert_break(spec_sort_breaks(s.drop_last()), s.last())
    }
}

proof fn lemma_insert_break_at(s: Seq<AdBreakView>, x: AdBreakView, p: int)
    requires
        0 <= p <= s.len(),
        forall|j: int| 0 <= j < p ==> !spec_lex_lt(x.start_date, #[trigger] s[j].start_date),
        p < s.len() ==> spec_lex_lt(x.start_date, s[p].start_date),
    ensures
        spec_insert_break(s, x) == s.insert(p, x),
    decreases s.len(),
{
    if s.len() == 0 {
        assert(s.insert(p, x) =~= seq![x]);
    } else if p == 0 {
        assert(s.insert(0, x) =~= seq![x] + s);
    } else {
        let t = s.drop_first();
        assert forall|j: int| 0 <= j < p - 1 implies !spec_lex_lt(x.start_date, #[trigger] t[j].start_date) by {
            assert(t[j] == s[j + 1]);
        }
        if p < s.len() {
            assert(t[p - 1] == s[p]);
        }
        lemma_insert_break_at(t, x, p - 1);
        assert(seq![s[0]] + t.insert(p - 1, x) =~= s.insert(p, x));
    }
}

fn sort_breaks(v: Vec<AdBreakFacts>) -> (r: Vec<AdBreakFacts>)
    ensures
        spec_breaks(r@) == spec_sort_breaks(spec_breaks(v@)),
{
    let mut out: Vec<AdBreakFacts> = Vec::new();
    let mut rest = v;
    let ghost all = spec_breaks(rest@);
    let ghost mut taken: int = 0;
    assert(spec_breaks(out@) =~= Seq::<AdBreakView>::empty());
    assert(all.take(0) =~= Seq::<AdBreakView>::empty());
    assert(all.subrange(0, all.len() as int) =~= all);
    while rest.len() > 0
        invariant
            0 <= taken <= all.len(),
            spec_breaks(rest@) == all.subrange(taken, all.len() as int),
            spec_breaks(out@) == spec_sort_breaks(all.take(taken)),
        decreases rest.len(),
    {
        let ghost r0 = spec_breaks(rest@);
        let ghost rv = rest@;
        let x = rest.remove(0);
        proof {
            assert(rest@ =~= rv.remove(0));
            assert(x@ == r0[0]);
            assert(r0[0] == all.subrange(taken, all.len() as int)[0]);
            assert(spec_breaks(rest@) =~= r0.subrange(1, r0.len() as int));
            assert(x@ == all[taken]);
            assert(spec_breaks(rest@) =~= all.subrange(taken + 1, all.len() as int));
            assert(all.take(taken + 1).drop_last() =~= all.take(taken));
            assert(all.take(taken + 1).last() == all[taken]);
        }
        let ghost t = spec_breaks(out@);
        let mut p: usize = 0;
        while p < out.len() && !str_lex_lt(x.start_date.as_str(), out[p].start_date.as_str())
            invariant
                p <= out@.len(),
                t == spec_breaks(out@),
                forall|j: int| 0 <= j < p ==> !spec_lex_lt(x.start_date@, #[trigger] t[j].start_date),
            decreases out.len() - p,
        {
            p = p + 1;
        }
        proof {
            lemma_insert_break_at(t, x@, p as int);
        }
        let ghost xv = x@;
        out.insert(p, x);
        proof {
            assert(spec_breaks(out@) =~= t.insert(p as int, xv));
            taken = taken + 1;
        }
    }
    assert(all.take(taken) =~= all);
    out
}

/// The SCTE-35 ad breaks of the VIDEO renditions: one per Date Range ID that carries an
/// SCTE35-OUT or SCTE35-IN payload and is no interstitial's, or, where there is none, one
/// per `CUE-OUT=YES` EXT-X-SCTE35 tag outside an interstitial's span; in order of their
/// start dates.
pub open spec fn spec_ad_breaks(pls: Seq<PlaylistFacts>) -> Seq<AdBreakView> {
    let flat = spec_video_lines(pls);
    let ids = spec_interstitial_ids(flat);
    let found = spec_daterange_breaks(flat, ids, pls);
    spec_sort_breaks(if found.len() > 0 { found } else { spec_cue_run(flat, ids, pls).breaks })
}

proof fn lemma_video_lines_index(pls: Seq<PlaylistFacts>)
    ensures
        forall|k: int| 0 <= k < spec_video_lines(pls).len() ==> 0 <= (#[trigger] spec_video_lines(pls)[k]).0 < pls.len(),
    decreases pls.len(),
{
    if pls.len() > 0 {
        lemma_video_lines_index(pls.drop_last());
        let prev = spec_video_lines(pls.drop_last());
        let k = pls.len() - 1;
        let more = if spec_is_video(pls[k]) {
            spec_lines_from(pls[k].raw_content@, 0).map_values(|l: Seq<char>| (k, l))
        } else {
            Seq::empty()
        };
        assert forall|j: int| 0 <= j < spec_video_lines(pls).len() implies 0 <= (#[trigger] spec_video_lines(pls)[j]).0 < pls.len() by {
            if j < prev.len() {
                assert(spec_video_lines(pls)[j] == prev[j]);
            } else {
                assert(spec_video_lines(pls)[j] == more[j - prev.len()]);
            }
        }
    }
}

/// Collects the SCTE-35 ad breaks of the VIDEO renditions, as `spec_ad_breaks` says.
pub fn collect_scte35_breaks(playlists: &[PlaylistFacts]) -> (r: Vec<AdBreakFacts>)
    ensures
        spec_breaks(r@) == spec_ad_breaks(playlists@),
{
    let flat = video_lines(playlists);
    proof {
        lemma_video_lines_index(playlists@);
        assert forall|k: int| 0 <= k < flat@.len() implies (#[trigger] flat@[k]).0 < playlists@.len() by {
            assert(spec_flat(flat@)[k] == spec_video_lines(playlists@)[k]);
        }
    }
    let ids = interstitial_ids(&flat);
    let found = daterange_breaks(&flat, &ids, playlists);
    if found.len() > 0 {
        sort_breaks(found)
    } else {
        sort_breaks(cue_breaks(&flat, &ids, playlists))
    }
}

// ---------------------------------------------------------------------------------------
// Laws of the collected breaks

/// Whether no two breaks share an ID.
pub open spec fn spec_ids_distinct(bs: Seq<AdBreakView>) -> bool {
    forall|i: int, j: int| 0 <= i < j < bs.len() ==> (#[trigger] bs[i]).id != (#[trigger] bs[j]).id
}

/// Whether each break was found in a VIDEO rendition among `pls` and, where `check` holds,
/// carries no ID among `ids`.
pub open spec fn spec_breaks_from(bs: Seq<AdBreakView>, pls: Seq<PlaylistFacts>, ids: Seq<Seq<char>>, check: bool) -> bool {
    forall|i: int| 0 <= i < bs.len() ==> {
        &&& 0 <= (#[trigger] bs[i]).playlist < pls.len()
        &&& spec_is_video(pls[bs[i].playlist])
        &&& (check ==> !ids.contains(bs[i].id))
    }
}

/// Whether the breaks are in order of their start dates as text.
pub open spec fn spec_by_start_date(bs: Seq<AdBreakView>) -> bool {
    forall|i: int, j: int| 0 <= i < j < bs.len() ==> !spec_lex_lt((#[trigger] bs[j]).start_date, (#[trigger] bs[i]).start_date)
}

/// Whether every line comes from a VIDEO rendition among `pls`.
pub open spec fn spec_lines_from_video(flat: Seq<(int, Seq<char>)>, pls: Seq<PlaylistFacts>) -> bool {
    forall|k: int| 0 <= k < flat.len() ==> 0 <= (#[trigger] flat[k]).0 < pls.len() && spec_is_video(pls[flat[k].0])
}

proof fn lemma_video_lines_video(pls: Seq<PlaylistFacts>)
    ensures
        spec_lines_from_video(spec_video_lines(pls), pls),
    decreases pls.len(),
{
    if pls.len() > 0 {
        lemma_video_lines_video(pls.drop_last());
        let prev = spec_video_lines(pls.drop_last());
        let k = pls.len() - 1;
        let more = if spec_is_video(pls[k]) {
            spec_lines_from(pls[k].raw_content@, 0).map_values(|l: Seq<char>| (k, l))
        } else {
            Seq::empty()
        };
        assert forall|j: int| 0 <= j < spec_video_lines(pls).len() implies 0 <= (#[trigger] spec_video_lines(pls)[j]).0 < pls.len()
            && spec_is_video(pls[spec_video_lines(pls)[j].0]) by {
            if j < prev.len() {
                assert(spec_video_lines(pls)[j] == prev[j]);
                assert(pls.drop_last()[prev[j].0] == pls[prev[j].0]);
            } else {
                assert(spec_video_lines(pls)[j] == more[j - prev.len()]);
            }
        }
    }
}

proof fn lemma_daterange_breaks_laws(flat: Seq<(int, Seq<char>)>, ids: Seq<Seq<char>>, pls: Seq<PlaylistFacts>)
    requires
        spec_lines_from_video(flat, pls),
    ensures
        spec_ids_distinct(spec_daterange_breaks(flat, ids, pls)),
        spec_breaks_from(spec_daterange_breaks(flat, ids, pls), pls, ids, true),
    decreases flat.len(),
{
    if flat.len() > 0 {
        let f0 = flat.drop_last();
        assert forall|k: int| 0 <= k < f0.len() implies 0 <= (#[trigger] f0[k]).0 < pls.len() && spec_is_video(pls[f0[k].0]) by {
            assert(f0[k] == flat[k]);
        }
        lemma_daterange_breaks_laws(f0, ids, pls);
        let prev = spec_daterange_breaks(f0, ids, pls);
        let last = flat[flat.len() - 1];
        assert(flat.last() == last);
        match spec_daterange_attrs(last.1) {
            Some(m) => if spec_is_scte35_range(m, ids) {
                let id = spec_attr_or_empty(m, "ID"@);
                lemma_break_index_bounds(prev, id, 0);
                let k = spec_break_index(prev, id, 0);
                let next = spec_add_daterange(prev, last.0, m, pls);
                if k < prev.len() {
                    assert forall|i: int| 0 <= i < next.len() implies (#[trigger] next[i]).id == prev[i].id
                        && next[i].playlist == prev[i].playlist by {}
                    assert(spec_ids_distinct(next)) by {
                        assert forall|i: int, j: int| 0 <= i < j < next.len() implies (#[trigger] next[i]).id != (#[trigger] next[j]).id by {
                            assert(prev[i].id != prev[j].id);
                        }
                    }
                    assert(spec_breaks_from(next, pls, ids, true)) by {
                        assert forall|i: int| 0 <= i < next.len() implies {
                            &&& 0 <= (#[trigger] next[i]).playlist < pls.len()
                            &&& spec_is_video(pls[next[i].playlist])
                            &&& (true ==> !ids.contains(next[i].id))
                        } by {
                            assert(next[i].id == prev[i].id && next[i].playlist == prev[i].playlist);
                        }
                    }
                } else {
                    assert(next[prev.len() as int].id == id);
                    assert(spec_ids_distinct(next)) by {
                        assert forall|i: int, j: int| 0 <= i < j < next.len() implies (#[trigger] next[i]).id != (#[trigger] next[j]).id by {
                            if j < prev.len() {
                                assert(next[i] == prev[i] && next[j] == prev[j]);
                            } else {
                                assert(next[i] == prev[i]);
                            }
                        }
                    }
                    assert(spec_breaks_from(next, pls, ids, true)) by {
                        assert forall|i: int| 0 <= i < next.len() implies {
                            &&& 0 <= (#[trigger] next[i]).playlist < pls.len()
                            &&& spec_is_video(pls[next[i].playlist])
                            &&& (true ==> !ids.contains(next[i].id))
                        } by {
                            if i < prev.len() {
                                assert(next[i] == prev[i]);
                            } else {
                                assert(flat[flat.len() - 1].0 == last.0);
                            }
                        }
                    }
                }
            } else {
            },
            None => {},
        }
    }
}

proof fn lemma_cue_run_laws(flat: Seq<(int, Seq<char>)>, ids: Seq<Seq<char>>, pls: Seq<PlaylistFacts>)
    requires
        spec_lines_from_video(flat, pls),
    ensures
        spec_ids_distinct(spec_cue_run(flat, ids, pls).breaks),
        spec_breaks_from(spec_cue_run(flat, ids, pls).breaks, pls, ids, false),
    decreases flat.len(),
{
    if flat.len() > 0 {
        let f0 = flat.drop_last();
        assert forall|k: int| 0 <= k < f0.len() implies 0 <= (#[trigger] f0[k]).0 < pls.len() && spec_is_video(pls[f0[k].0]) by {
            assert(f0[k] == flat[k]);
        }
        lemma_cue_run_laws(f0, ids, pls);
        let st = spec_cue_run(f0, ids, pls);
        let last = flat[flat.len() - 1];
        assert(flat.last() == last);
        let next = spec_cue_run(flat, ids, pls);
        let prev = st.breaks;
        if next.breaks.len() > prev.len() {
            let s0 = if st.playlist != last.0 {
                CueState { playlist: last.0, last_pdt: None, in_interstitial: false, pending: None, breaks: st.breaks }
            } else {
                st
            };
            let a = s0.pending->0;
            let id = spec_cue_id(a);
            lemma_break_index_bounds(prev, id, 0);
            assert(next.breaks.len() == prev.len() + 1);
            assert(forall|i: int| 0 <= i < prev.len() ==> next.breaks[i] == prev[i]);
            assert(next.breaks[prev.len() as int].id == id);
            assert(next.breaks[prev.len() as int].playlist == last.0);
            assert(spec_ids_distinct(next.breaks)) by {
                assert forall|i: int, j: int| 0 <= i < j < next.breaks.len() implies (#[trigger] next.breaks[i]).id != (#[trigger] next.breaks[j]).id by {
                    assert(next.breaks[i] == prev[i]);
                    if j < prev.len() {
                        assert(next.breaks[j] == prev[j]);
                    }
                }
            }
            assert(spec_breaks_from(next.breaks, pls, ids, false)) by {
                assert forall|i: int| 0 <= i < next.breaks.len() implies {
                    &&& 0 <= (#[trigger] next.breaks[i]).playlist < pls.len()
                    &&& spec_is_video(pls[next.breaks[i].playlist])
                    &&& (false ==> !ids.contains(next.breaks[i].id))
                } by {
                    if i < prev.len() {
                        assert(next.breaks[i] == prev[i]);
                    }
                }
            }
        } else {
            assert(next.breaks == prev);
        }
    }
}

proof fn lemma_insert_break_facts(s: Seq<AdBreakView>, x: AdBreakView)
    ensures
        spec_insert_break(s, x).len() == s.len() + 1,
        forall|e: AdBreakView| #[trigger] spec_insert_break(s, x).contains(e) ==> s.contains(e) || e == x,
        spec_by_start_date(s) ==> spec_by_start_date(spec_insert_break(s, x)),
        spec_ids_distinct(s) && (forall|i: int| 0 <= i < s.len() ==> (#[trigger] s[i]).id != x.id) ==> spec_ids_distinct(spec_insert_break(s, x)),
    decreases s.len(),
{
    let r = spec_insert_break(s, x);
    if s.len() == 0 {
        assert(r =~= seq![x]);
        assert forall|e: AdBreakView| #[trigger] r.contains(e) implies s.contains(e) || e == x by {
            let k = choose|k: int| 0 <= k < r.len() && r[k] == e;
        }
    } else if spec_lex_lt(x.start_date, s[0].start_date) {
        assert(r =~= seq![x] + s);
        assert forall|e: AdBreakView| #[trigger] r.contains(e) implies s.contains(e) || e == x by {
            let k = choose|k: int| 0 <= k < r.len() && r[k] == e;
            if k > 0 {
                assert(s[k - 1] == e);
            }
        }
        if spec_by_start_date(s) {
            assert forall|i: int, j: int| 0 <= i < j < r.len() implies !spec_lex_lt((#[trigger] r[j]).start_date, (#[trigger] r[i]).start_date) by {
                if i == 0 {
                    assert(r[j] == s[j - 1]);
                    if spec_lex_lt(s[j - 1].start_date, x.start_date) {
                        if j - 1 > 0 {
                            assert(!spec_lex_lt(s[j - 1].start_date, s[0].start_date));
                        }
                        lemma_lex_transitive(s[j - 1].start_date, x.start_date, s[0].start_date, 0);
                        lemma_lex_irreflexive(s[0].start_date, 0);
                    }
                } else {
                    assert(r[i] == s[i - 1] && r[j] == s[j - 1]);
                }
            }
        }
        if spec_ids_distinct(s) && (forall|i: int| 0 <= i < s.len() ==> (#[trigger] s[i]).id != x.id) {
            assert forall|i: int, j: int| 0 <= i < j < r.len() implies (#[trigger] r[i]).id != (#[trigger] r[j]).id by {
                assert(r[j] == s[j - 1]);
                if i > 0 {
                    assert(r[i] == s[i - 1]);
                }
            }
        }
    } else {
        let t = s.drop_first();
        lemma_insert_break_facts(t, x);
        let rt = spec_insert_break(t, x);
        assert(r =~= seq![s[0]] + rt);
        assert forall|e: AdBreakView| #[trigger] r.contains(e) implies s.contains(e) || e == x by {
            let k = choose|k: int| 0 <= k < r.len() && r[k] == e;
            if k == 0 {
                assert(s[0] == e);
            } else {
                assert(rt[k - 1] == e);
                assert(rt.contains(e));
                if t.contains(e) {
                    let m = choose|m: int| 0 <= m < t.len() && t[m] == e;
                    assert(s[m + 1] == e);
                }
            }
        }
        if spec_by_start_date(s) {
            assert(spec_by_start_date(t)) by {
                assert forall|i: int, j: int| 0 <= i < j < t.len() implies !spec_lex_lt((#[trigger] t[j]).start_date, (#[trigger] t[i]).start_date) by {
                    assert(t[i] == s[i + 1] && t[j] == s[j + 1]);
                }
            }
            assert forall|i: int, j: int| 0 <= i < j < r.len() implies !spec_lex_lt((#[trigger] r[j]).start_date, (#[trigger] r[i]).start_date) by {
                if i == 0 {
                    let e = rt[j - 1];
                    assert(r[j] == e);
                    assert(rt.contains(e));
                    if e == x {
                    } else {
                        assert(t.contains(e));
                        let m = choose|m: int| 0 <= m < t.len() && t[m] == e;
                        assert(s[m + 1] == e);
                    }
                } else {
                    assert(r[i] == rt[i - 1] && r[j] == rt[j - 1]);
                }
            }
        }
        if spec_ids_distinct(s) && (forall|i: int| 0 <= i < s.len() ==> (#[trigger] s[i]).id != x.id) {
            assert(spec_ids_distinct(t)) by {
                assert forall|i: int, j: int| 0 <= i < j < t.len() implies (#[trigger] t[i]).id != (#[trigger] t[j]).id by {
                    assert(t[i] == s[i + 1] && t[j] == s[j + 1]);
                }
            }
            assert forall|i: int| 0 <= i < t.len() implies (#[trigger] t[i]).id != x.id by {
                assert(t[i] == s[i + 1]);
            }
            assert forall|i: int, j: int| 0 <= i < j < r.len() implies (#[trigger] r[i]).id != (#[trigger] r[j]).id by {
                if i == 0 {
                    let e = rt[j - 1];
                    assert(r[j] == e);
                    assert(rt.contains(e));
                    if e == x {
                        assert(s[0].id != x.id);
                    } else {
                        assert(t.contains(e));
                        let m = choose|m: int| 0 <= m < t.len() && t[m] == e;
                        assert(s[m + 1] == e);
                    }
                } else {
                    assert(r[i] == rt[i - 1] && r[j] == rt[j - 1]);
                }
            }
        }
    }
}

/// Sorting the breaks by start date keeps exactly the breaks given and leaves them in
/// order; distinct IDs stay distinct.
proof fn lemma_sort_breaks_facts(s: Seq<AdBreakView>)
    ensures
        spec_sort_breaks(s).len() == s.len(),
        forall|e: AdBreakView| #[trigger] spec_sort_breaks(s).contains(e) ==> s.contains(e),
        spec_by_start_date(spec_sort_breaks(s)),
        spec_ids_distinct(s) ==> spec_ids_distinct(spec_sort_breaks(s)),
    decreases s.len(),
{
    if s.len() > 0 {
        let p = s.drop_last();
        lemma_sort_breaks_facts(p);
        let sp = spec_sort_breaks(p);
        lemma_insert_break_facts(sp, s.last());
        assert forall|e: AdBreakView| #[trigger] spec_sort_breaks(s).contains(e) implies s.contains(e) by {
            if e == s.last() {
                assert(s[s.len() - 1] == e);
            } else {
                assert(sp.contains(e));
                assert(p.contains(e));
                let m = choose|m: int| 0 <= m < p.len() && p[m] == e;
                assert(s[m] == e);
            }
        }
        if spec_ids_distinct(s) {
            assert(spec_ids_distinct(p)) by {
                assert forall|i: int, j: int| 0 <= i < j < p.len() implies (#[trigger] p[i]).id != (#[trigger] p[j]).id by {
                    assert(p[i] == s[i] && p[j] == s[j]);
                }
            }
            assert forall|i: int| 0 <= i < sp.len() implies (#[trigger] sp[i]).id != s.last().id by {
                assert(sp.contains(sp[i]));
                assert(p.contains(sp[i]));
                let m = choose|m: int| 0 <= m < p.len() && p[m] == sp[i];
                assert(s[m] == sp[i]);
                assert(s[m].id != s[s.len() - 1].id);
            }
        }
    }
}

/// The SCTE-35 breaks collected from VIDEO renditions: no two share an ID, they come in
/// order of their start dates as text, each was found in a VIDEO rendition, and where
/// they come from Date Ranges none carries the ID of an interstitial.
pub proof fn lemma_ad_breaks_laws(pls: Seq<PlaylistFacts>)
    ensures
        ({
            let r = spec_ad_breaks(pls);
            let flat = spec_video_lines(pls);
            let ids = spec_interstitial_ids(flat);
            &&& spec_ids_distinct(r)
            &&& spec_by_start_date(r)
            &&& forall|i: int| 0 <= i < r.len() ==> 0 <= (#[trigger] r[i]).playlist < pls.len() && spec_is_video(pls[r[i].playlist])
            &&& spec_daterange_breaks(flat, ids, pls).len() > 0 ==> forall|i: int| 0 <= i < r.len() ==> !ids.contains((#[trigger] r[i]).id)
        }),
{
    let flat = spec_video_lines(pls);
    let ids = spec_interstitial_ids(flat);
    lemma_video_lines_video(pls);
    lemma_daterange_breaks_laws(flat, ids, pls);
    lemma_cue_run_laws(flat, ids, pls);
    let found = spec_daterange_breaks(flat, ids, pls);
    let all = if found.len() > 0 { found } else { spec_cue_run(flat, ids, pls).breaks };
    lemma_sort_breaks_facts(all);
    let r = spec_sort_breaks(all);
    assert forall|i: int| 0 <= i < r.len() implies 0 <= (#[trigger] r[i]).playlist < pls.len() && spec_is_video(pls[r[i].playlist])
        && (found.len() > 0 ==> !ids.contains(r[i].id)) by {
        assert(r.contains(r[i]));
        assert(all.contains(r[i]));
        let m = choose|m: int| 0 <= m < all.len() && all[m] == r[i];
        assert(all[m] == r[i]);
    }
}

} // verus!
