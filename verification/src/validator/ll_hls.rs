//! Low-Latency HLS rules (rfc8216bis §4.4.3–§4.4.5, §6.2.5.2) that read the structure of
//! the playlists: the tags a playlist with partial segments must carry, the independence
//! of the first part of each segment, and what the renditions report of one another.

use vstd::prelude::*;
use vstd::string::StringExecFns;
use crate::text::{
    find_from, lemma_find_from_bounds, push_decimal, push_str, spec_decimal, spec_find_from, spec_starts_with, spec_trim,
    starts_with, str_equals_text, trim,
};
use crate::validator::checks::{
    lemma_findings_match_concat, lemma_trim_len, located_finding, spec_finding_is, spec_findings_match, Finding,
};
use crate::validator::parser::{parse_attributes, rfind, spec_attr_pairs, spec_rfind};
use crate::validator::text_map::spec_pairs_map;
use crate::validator::types::{CheckId, Issue, RenditionReport, Severity};

verus! {

/// What the low-latency rules read of a media playlist, as plain values.
#[derive(Debug, Clone)]
pub struct LowLatencyFacts {
    pub name: String,
    pub raw_content: String,
    /// Whether the playlist carries EXT-X-PART tags.
    pub has_parts: bool,
    /// Whether it carries EXT-X-PART-INF (a PART-TARGET).
    pub has_part_inf: bool,
    pub has_server_control: bool,
    /// CAN-BLOCK-RELOAD=YES of EXT-X-SERVER-CONTROL (false without one).
    pub can_block_reload: bool,
    /// HOLD-BACK, PART-HOLD-BACK and CAN-SKIP-UNTIL of EXT-X-SERVER-CONTROL in whole
    /// seconds, rounded down (0 where absent), as the renditions are compared by them.
    pub hold_back_secs: u64,
    pub part_hold_back_secs: u64,
    pub can_skip_until_secs: u64,
    pub preload_hint_uri: Option<String>,
    pub preload_hint_type: Option<String>,
    pub rendition_reports: Vec<RenditionReport>,
}

/// The finding on a playlist with parts but no EXT-X-PART-INF.
pub open spec fn spec_part_inf_finding(pl: LowLatencyFacts) -> Seq<Finding> {
    if pl.has_parts && !pl.has_part_inf {
        seq![(
            Severity::Error,
            -1int,
            Some(pl.name@),
            None::<Seq<char>>,
            "LL-HLS §6.2.5.2: '"@ + pl.name@ + "' contains EXT-X-PART tags but no EXT-X-PART-INF. PART-TARGET is required."@,
        )]
    } else {
        Seq::empty()
    }
}

/// The finding on a playlist with parts whose server does not block reloads.
pub open spec fn spec_block_reload_finding(pl: LowLatencyFacts) -> Seq<Finding> {
    if pl.has_parts && !pl.can_block_reload {
        seq![(
            Severity::Error,
            -1int,
            Some(pl.name@),
            None::<Seq<char>>,
            "LL-HLS §4.4.3.8: '"@ + pl.name@
                + "' has EXT-X-PART tags but EXT-X-SERVER-CONTROL CAN-BLOCK-RELOAD=YES is absent. This is REQUIRED for low-latency delivery."@,
        )]
    } else {
        Seq::empty()
    }
}

/// Whether a playlist announces its next part: EXT-X-PRELOAD-HINT with a URI and TYPE=PART.
pub open spec fn spec_has_part_hint(pl: LowLatencyFacts) -> bool {
    pl.preload_hint_uri is Some && (pl.preload_hint_type matches Some(t) && t@ == "PART"@)
}

/// The finding on a playlist with parts and no part preload hint.
pub open spec fn spec_hint_finding(pl: LowLatencyFacts) -> Seq<Finding> {
    if pl.has_parts && !spec_has_part_hint(pl) {
        seq![(
            Severity::Warn,
            -1int,
            Some(pl.name@),
            None::<Seq<char>>,
            "LL-HLS §4.4.5.3: '"@ + pl.name@
                + "' is missing EXT-X-PRELOAD-HINT with TYPE=PART at the playlist tail. Clients cannot prefetch the next partial segment."@,
        )]
    } else {
        Seq::empty()
    }
}

/// The finding on a playlist with parts and no rendition reports.
pub open spec fn spec_report_finding(pl: LowLatencyFacts) -> Seq<Finding> {
    if pl.has_parts && pl.rendition_reports@.len() == 0 {
        seq![(
            Severity::Warn,
            -1int,
            Some(pl.name@),
            None::<Seq<char>>,
            "LL-HLS §4.4.5.4: '"@ + pl.name@
                + "' has no EXT-X-RENDITION-REPORT tags. Each media playlist should report the last MSN/Part of every other rendition so clients can switch without extra fetches."@,
        )]
    } else {
        Seq::empty()
    }
}

/// Whether the attributes of an EXT-X-PART tag say INDEPENDENT=YES.
pub open spec fn spec_part_independent(line: Seq<char>) -> bool {
    let attrs = spec_pairs_map(spec_attr_pairs(line.subrange(12, line.len() as int)));
    attrs.contains_key("INDEPENDENT"@) && attrs["INDEPENDENT"@] == "YES"@
}

/// The message on a segment whose first part is not independent.
pub open spec fn spec_independence_message(seg: nat, name: Seq<char>) -> Seq<char> {
    "LL-HLS §4.4.4.9: First EXT-X-PART before segment "@ + spec_decimal(seg) + " in '"@ + name
        + "' must carry INDEPENDENT=YES."@
}

/// Scans the lines of `content` from position `i` for segments whose first EXT-X-PART
/// does not carry INDEPENDENT=YES: `first` is whether the first part seen since the last
/// EXTINF was independent (none seen: `None`), `seg` the number of EXTINF lines passed.
pub open spec fn spec_independence_from(content: Seq<char>, i: int, first: Option<bool>, seg: nat, name: Seq<char>) -> Seq<Finding>
    decreases content.len() + 1 - i,
{
    if i < 0 || i > content.len() {
        Seq::empty()
    } else {
        let j = spec_find_from(content, '\n', i);
        proof {
            lemma_find_from_bounds(content, '\n', i);
        }
        let l = spec_trim(content.subrange(i, j));
        let is_part = spec_starts_with(l, "#EXT-X-PART:"@);
        let is_inf = !is_part && spec_starts_with(l, "#EXTINF:"@);
        let here = if is_inf && first == Some(false) {
            seq![(Severity::Error, ((seg as int) as i32) as int, Some(name), None::<Seq<char>>, spec_independence_message(seg, name))]
        } else {
            Seq::empty()
        };
        let first2 = if is_part {
            if first is None { Some(spec_part_independent(l)) } else { first }
        } else if is_inf {
            None
        } else {
            first
        };
        let seg2 = if is_inf { seg + 1 } else { seg };
        here + if j < content.len() { spec_independence_from(content, j + 1, first2, seg2, name) } else { Seq::empty() }
    }
}

/// The per-playlist findings: none for a playlist with no parts, no EXT-X-PART-INF and
/// no EXT-X-SERVER-CONTROL; otherwise those of the rules above, in order.
pub open spec fn spec_pl_findings(pl: LowLatencyFacts) -> Seq<Finding> {
    if !pl.has_parts && !pl.has_part_inf && !pl.has_server_control {
        Seq::empty()
    } else {
        spec_part_inf_finding(pl) + spec_block_reload_finding(pl) + spec_independence_from(
            pl.raw_content@,
            0,
            None,
            0,
            pl.name@,
        ) + spec_hint_finding(pl) + spec_report_finding(pl)
    }
}

fn independence_findings(content: &str, name: &str) -> (r: Vec<Issue>)
    ensures
        spec_findings_match(r@, CheckId::LlHls, spec_independence_from(content@, 0, None, 0, name@)),
{
    let n = content.unicode_len();
    let mut issues: Vec<Issue> = Vec::new();
    let mut first: Option<bool> = None;
    let mut seg: usize = 0;
    let mut i: usize = 0;
    let ghost mut done: Seq<Finding> = Seq::empty();
    while i <= n
        invariant
            n == content@.len(),
            seg <= i,
            spec_findings_match(issues@, CheckId::LlHls, done),
            done + spec_independence_from(content@, i as int, first, seg as nat, name@) == spec_independence_from(
                content@,
                0,
                None,
                0,
                name@,
            ),
        decreases n + 1 - i,
    {
        let j = find_from(content, '\n', i);
        proof {
            lemma_find_from_bounds(content@, '\n', i as int);
        }
        let raw = content.substring_char(i, j);
        let l = trim(raw);
        proof {
            reveal_strlit("#EXT-X-PART:");
            reveal_strlit("#EXTINF:");
            lemma_trim_len(raw@);
        }
        let ghost here: Seq<Finding> = Seq::empty();
        let is_part = starts_with(l, "#EXT-X-PART:");
        let is_inf = !is_part && starts_with(l, "#EXTINF:");
        if is_part {
            if first.is_none() {
                let attrs = parse_attributes(l.substring_char(12, l.unicode_len()));
                let indep = match attrs.get("INDEPENDENT") {
                    Some(v) => str_equals_text(v.as_str(), "YES"),
                    None => false,
                };
                first = Some(indep);
            }
        } else if is_inf {
            if first == Some(false) {
                let mut message = String::from_str("LL-HLS §4.4.4.9: First EXT-X-PART before segment ");
                push_decimal(&mut message, seg as u64);
                push_str(&mut message, " in '");
                push_str(&mut message, name);
                push_str(&mut message, "' must carry INDEPENDENT=YES.");
                let issue = located_finding(CheckId::LlHls, Severity::Error, seg as i32, Some(name.to_string()), None, message);
                let ghost before = issues@;
                proof {
                    here = seq![(
                        Severity::Error,
                        ((seg as int) as i32) as int,
                        Some(name@),
                        None::<Seq<char>>,
                        spec_independence_message(seg as nat, name@),
                    )];
                    assert(spec_findings_match(seq![issue], CheckId::LlHls, here));
                    lemma_findings_match_concat(before, seq![issue], CheckId::LlHls, done, here);
                }
                issues.push(issue);
                proof {
                    assert(issues@ =~= before + seq![issue]);
                }
            }
            first = None;
            seg = seg + 1;
        }
        proof {
            done = done + here;
        }
        if j >= n {
            proof {
                assert(done =~= done + Seq::<Finding>::empty());
            }
            return issues;
        }
        i = j + 1;
    }
    issues
}


fn pl_findings(pl: &LowLatencyFacts) -> (r: Vec<Issue>)
    ensures
        spec_findings_match(r@, CheckId::LlHls, spec_pl_findings(*pl)),
{
    let mut issues: Vec<Issue> = Vec::new();
    if !pl.has_parts && !pl.has_part_inf && !pl.has_server_control {
        return issues;
    }
    let ghost mut done: Seq<Finding> = Seq::empty();
    if pl.has_parts && !pl.has_part_inf {
        let mut message = String::from_str("LL-HLS §6.2.5.2: '");
        push_str(&mut message, pl.name.as_str());
        push_str(&mut message, "' contains EXT-X-PART tags but no EXT-X-PART-INF. PART-TARGET is required.");
        issues.push(located_finding(CheckId::LlHls, Severity::Error, -1, Some(pl.name.clone()), None, message));
    }
    proof {
        done = spec_part_inf_finding(*pl);
        assert(spec_findings_match(issues@, CheckId::LlHls, done));
    }
    if pl.has_parts && !pl.can_block_reload {
        let mut message = String::from_str("LL-HLS §4.4.3.8: '");
        push_str(&mut message, pl.name.as_str());
        push_str(
            &mut message,
            "' has EXT-X-PART tags but EXT-X-SERVER-CONTROL CAN-BLOCK-RELOAD=YES is absent. This is REQUIRED for low-latency delivery.",
        );
        let issue = located_finding(CheckId::LlHls, Severity::Error, -1, Some(pl.name.clone()), None, message);
        let ghost before = issues@;
        proof {
            lemma_findings_match_concat(before, seq![issue], CheckId::LlHls, done, spec_block_reload_finding(*pl));
        }
        issues.push(issue);
        proof {
            assert(issues@ =~= before + seq![issue]);
        }
    }
    proof {
        done = done + spec_block_reload_finding(*pl);
        assert(spec_findings_match(issues@, CheckId::LlHls, done));
    }
    let mut more = independence_findings(pl.raw_content.as_str(), pl.name.as_str());
    proof {
        lemma_findings_match_concat(
            issues@,
            more@,
            CheckId::LlHls,
            done,
            spec_independence_from(pl.raw_content@, 0, None, 0, pl.name@),
        );
        done = done + spec_independence_from(pl.raw_content@, 0, None, 0, pl.name@);
    }
    issues.append(&mut more);
    let has_hint = pl.preload_hint_uri.is_some() && match &pl.preload_hint_type {
        Some(t) => str_equals_text(t.as_str(), "PART"),
        None => false,
    };
    if pl.has_parts && !has_hint {
        let mut message = String::from_str("LL-HLS §4.4.5.3: '");
        push_str(&mut message, pl.name.as_str());
        push_str(
            &mut message,
            "' is missing EXT-X-PRELOAD-HINT with TYPE=PART at the playlist tail. Clients cannot prefetch the next partial segment.",
        );
        let issue = located_finding(CheckId::LlHls, Severity::Warn, -1, Some(pl.name.clone()), None, message);
        let ghost before = issues@;
        proof {
            lemma_findings_match_concat(before, seq![issue], CheckId::LlHls, done, spec_hint_finding(*pl));
        }
        issues.push(issue);
        proof {
            assert(issues@ =~= before + seq![issue]);
        }
    }
    proof {
        done = done + spec_hint_finding(*pl);
        assert(spec_findings_match(issues@, CheckId::LlHls, done));
    }
    if pl.has_parts && pl.rendition_reports.len() == 0 {
        let mut message = String::from_str("LL-HLS §4.4.5.4: '");
        push_str(&mut message, pl.name.as_str());
        push_str(
            &mut message,
            "' has no EXT-X-RENDITION-REPORT tags. Each media playlist should report the last MSN/Part of every other rendition so clients can switch without extra fetches.",
        );
        let issue = located_finding(CheckId::LlHls, Severity::Warn, -1, Some(pl.name.clone()), None, message);
        let ghost before = issues@;
        proof {
            lemma_findings_match_concat(before, seq![issue], CheckId::LlHls, done, spec_report_finding(*pl));
        }
        issues.push(issue);
        proof {
            assert(issues@ =~= before + seq![issue]);
        }
    }
    proof {
        done = done + spec_report_finding(*pl);
        assert(done =~= spec_pl_findings(*pl));
    }
    issues
}


/// The reports of `rs`, among the first `n`, that name a LAST-MSN: each as its URI and
/// LAST-MSN.
pub open spec fn spec_pl_msn_reports(rs: Seq<RenditionReport>, n: int) -> Seq<(Seq<char>, int)>
    decreases n,
{
    if n <= 0 {
        Seq::empty()
    } else {
        spec_pl_msn_reports(rs, n - 1) + if rs[n - 1].last_msn >= 0 {
            seq![(rs[n - 1].uri@, rs[n - 1].last_msn as int)]
        } else {
            Seq::empty()
        }
    }
}

/// The LAST-MSN reports of those of the first `n` playlists that have parts.
pub open spec fn spec_msn_reports(pls: Seq<LowLatencyFacts>, n: int) -> Seq<(Seq<char>, int)>
    decreases n,
{
    if n <= 0 {
        Seq::empty()
    } else {
        spec_msn_reports(pls, n - 1) + if pls[n - 1].has_parts {
            spec_pl_msn_reports(pls[n - 1].rendition_reports@, pls[n - 1].rendition_reports@.len() as int)
        } else {
            Seq::empty()
        }
    }
}

/// The distinct URIs among the first `n` reports, in the order they first appear.
pub open spec fn spec_report_uris(es: Seq<(Seq<char>, int)>, n: int) -> Seq<Seq<char>>
    decreases n,
{
    if n <= 0 {
        Seq::empty()
    } else {
        let rest = spec_report_uris(es, n - 1);
        if rest.contains(es[n - 1].0) {
            rest
        } else {
            rest.push(es[n - 1].0)
        }
    }
}

/// The LAST-MSNs reported for `uri` among the first `n` reports.
pub open spec fn spec_msns_for(es: Seq<(Seq<char>, int)>, uri: Seq<char>, n: int) -> Seq<int>
    decreases n,
{
    if n <= 0 {
        Seq::empty()
    } else if es[n - 1].0 == uri {
        spec_msns_for(es, uri, n - 1).push(es[n - 1].1)
    } else {
        spec_msns_for(es, uri, n - 1)
    }
}

/// The least of the first `n` (at least one) values of `v`.
pub open spec fn spec_min_of(v: Seq<int>, n: int) -> int
    decreases n,
{
    if n <= 1 {
        v[0]
    } else {
        let m = spec_min_of(v, n - 1);
        if v[n - 1] < m { v[n - 1] } else { m }
    }
}

/// The greatest of the first `n` (at least one) values of `v`.
pub open spec fn spec_max_of(v: Seq<int>, n: int) -> int
    decreases n,
{
    if n <= 1 {
        v[0]
    } else {
        let m = spec_max_of(v, n - 1);
        if v[n - 1] > m { v[n - 1] } else { m }
    }
}

/// The part of a URI after its last `/`.
pub open spec fn spec_short_uri(u: Seq<char>) -> Seq<char> {
    match spec_rfind(u, '/', u.len() as int) {
        Some(p) => u.subrange(p + 1, u.len() as int),
        None => u,
    }
}

/// The findings on the first `k` of `uris` whose reported LAST-MSNs (two or more) span
/// more than one segment.
pub open spec fn spec_skew_findings(es: Seq<(Seq<char>, int)>, uris: Seq<Seq<char>>, k: int) -> Seq<Finding>
    decreases k,
{
    if k <= 0 {
        Seq::empty()
    } else {
        let u = uris[k - 1];
        let v = spec_msns_for(es, u, es.len() as int);
        let rest = spec_skew_findings(es, uris, k - 1);
        if v.len() >= 2 && spec_max_of(v, v.len() as int) - spec_min_of(v, v.len() as int) > 1 {
            let lo = spec_min_of(v, v.len() as int);
            let hi = spec_max_of(v, v.len() as int);
            rest.push((
                Severity::Warn,
                -1int,
                None::<Seq<char>>,
                None::<Seq<char>>,
                "LL-HLS §4.4.5.4: EXT-X-RENDITION-REPORT LAST-MSN skew of "@ + spec_decimal((hi - lo) as nat)
                    + " segments for '"@ + spec_short_uri(u) + "' (reported MSNs: "@ + spec_decimal(lo as nat) + "–"@
                    + spec_decimal(hi as nat) + "). All renditions should report the same LAST-MSN ±1 segment."@,
            ))
        } else {
            rest
        }
    }
}

/// The reports view of a list of (URI, LAST-MSN) pairs.
pub open spec fn spec_report_pairs(v: Seq<(String, i64)>) -> Seq<(Seq<char>, int)> {
    v.map_values(|x: (String, i64)| (x.0@, x.1 as int))
}

fn msn_reports(playlists: &[LowLatencyFacts]) -> (r: Vec<(String, i64)>)
    ensures
        spec_report_pairs(r@) == spec_msn_reports(playlists@, playlists@.len() as int),
        forall|k: int| 0 <= k < r@.len() ==> (#[trigger] r@[k]).1 >= 0,
{
    let mut out: Vec<(String, i64)> = Vec::new();
    let mut p: usize = 0;
    while p < playlists.len()
        invariant
            p <= playlists@.len(),
            spec_report_pairs(out@) == spec_msn_reports(playlists@, p as int),
            forall|k: int| 0 <= k < out@.len() ==> (#[trigger] out@[k]).1 >= 0,
        decreases playlists.len() - p,
    {
        let pl = &playlists[p];
        let ghost start = spec_report_pairs(out@);
        if pl.has_parts {
            let rs = &pl.rendition_reports;
            let mut q: usize = 0;
            while q < rs.len()
                invariant
                    q <= rs@.len(),
                    spec_report_pairs(out@) == start + spec_pl_msn_reports(rs@, q as int),
                    forall|k: int| 0 <= k < out@.len() ==> (#[trigger] out@[k]).1 >= 0,
                decreases rs.len() - q,
            {
                if rs[q].last_msn >= 0 {
                    let ghost before = spec_report_pairs(out@);
                    out.push((rs[q].uri.clone(), rs[q].last_msn));
                    proof {
                        assert(spec_report_pairs(out@) =~= before.push((rs@[q as int].uri@, rs@[q as int].last_msn as int)));
                    }
                }
                proof {
                    assert(spec_report_pairs(out@) =~= start + spec_pl_msn_reports(rs@, q + 1));
                }
                q = q + 1;
            }
        }
        proof {
            assert(spec_report_pairs(out@) =~= spec_msn_reports(playlists@, p + 1));
        }
        p = p + 1;
    }
    out
}

fn short_uri(u: &str) -> (r: &str)
    ensures
        r@ == spec_short_uri(u@),
{
    let n = u.unicode_len();
    match rfind(u, '/') {
        Some(p) => {
            proof {
                crate::validator::parser::lemma_rfind_bounds(u@, '/', u@.len() as int);
            }
            u.substring_char(p + 1, n)
        },
        None => u,
    }
}

fn skew_findings(es: &Vec<(String, i64)>) -> (r: Vec<Issue>)
    requires
        forall|k: int| 0 <= k < es@.len() ==> (#[trigger] es@[k]).1 >= 0,
    ensures
        ({
            let e = spec_report_pairs(es@);
            spec_findings_match(r@, CheckId::LlHls, spec_skew_findings(e, spec_report_uris(e, e.len() as int), spec_report_uris(e, e.len() as int).len() as int))
        }),
{
    let ghost e = spec_report_pairs(es@);
    let mut uris: Vec<String> = Vec::new();
    let mut k: usize = 0;
    while k < es.len()
        invariant
            k <= es@.len(),
            e == spec_report_pairs(es@),
            crate::validator::interstitials::spec_texts(uris@) == spec_report_uris(e, k as int),
        decreases es.len() - k,
    {
        let ghost before = crate::validator::interstitials::spec_texts(uris@);
        let mut found = false;
        let mut x: usize = 0;
        while x < uris.len()
            invariant
                x <= uris@.len(),
                k < es@.len(),
                found == (exists|y: int| 0 <= y < x && uris@[y]@ == es@[k as int].0@),
            decreases uris.len() - x,
        {
            if str_equals_text(uris[x].as_str(), es[k].0.as_str()) {
                found = true;
            }
            x = x + 1;
        }
        proof {
            assert(e[k as int].0 == es@[k as int].0@);
            if found {
                let y = choose|y: int| 0 <= y < uris@.len() && uris@[y]@ == es@[k as int].0@;
                assert(before[y] == es@[k as int].0@);
            } else {
                assert forall|y: int| 0 <= y < before.len() implies before[y] != es@[k as int].0@ by {
                    assert(before[y] == uris@[y]@);
                }
            }
        }
        if !found {
            uris.push(es[k].0.clone());
            proof {
                assert(crate::validator::interstitials::spec_texts(uris@) =~= before.push(es@[k as int].0@));
            }
        }
        k = k + 1;
    }
    let ghost us = spec_report_uris(e, e.len() as int);
    let mut issues: Vec<Issue> = Vec::new();
    let mut u: usize = 0;
    while u < uris.len()
        invariant
            u <= uris@.len(),
            e == spec_report_pairs(es@),
            forall|k: int| 0 <= k < es@.len() ==> (#[trigger] es@[k]).1 >= 0,
            crate::validator::interstitials::spec_texts(uris@) == us,
            us == spec_report_uris(e, e.len() as int),
            spec_findings_match(issues@, CheckId::LlHls, spec_skew_findings(e, us, u as int)),
        decreases uris.len() - u,
    {
        let uri = uris[u].as_str();
        proof {
            assert(us[u as int] == uri@);
        }
        let mut count: usize = 0;
        let mut lo: i64 = 0;
        let mut hi: i64 = 0;
        let mut k: usize = 0;
        while k < es.len()
            invariant
                k <= es@.len(),
                e == spec_report_pairs(es@),
                forall|j: int| 0 <= j < es@.len() ==> (#[trigger] es@[j]).1 >= 0,
                count == spec_msns_for(e, uri@, k as int).len(),
                count <= k,
                count > 0 ==> lo == spec_min_of(spec_msns_for(e, uri@, k as int), count as int),
                count > 0 ==> hi == spec_max_of(spec_msns_for(e, uri@, k as int), count as int),
                count > 0 ==> 0 <= lo <= hi,
            decreases es.len() - k,
        {
            let ghost prev = spec_msns_for(e, uri@, k as int);
            if str_equals_text(es[k].0.as_str(), uri) {
                let v = es[k].1;
                proof {
                    assert(e[k as int] == (es@[k as int].0@, v as int));
                    let next = spec_msns_for(e, uri@, k + 1);
                    assert(next == prev.push(v as int));
                    assert(next.subrange(0, prev.len() as int) =~= prev);
                    lemma_min_max_prefix(next, prev, count as int);
                }
                if count == 0 {
                    lo = v;
                    hi = v;
                } else {
                    if v < lo {
                        lo = v;
                    }
                    if v > hi {
                        hi = v;
                    }
                }
                count = count + 1;
            } else {
                proof {
                    assert(e[k as int].0 == es@[k as int].0@);
                }
            }
            k = k + 1;
        }
        proof {
            assert(e.len() == es@.len());
        }
        if count >= 2 && hi - lo > 1 {
            let mut message = String::from_str("LL-HLS §4.4.5.4: EXT-X-RENDITION-REPORT LAST-MSN skew of ");
            push_decimal(&mut message, (hi - lo) as u64);
            push_str(&mut message, " segments for '");
            push_str(&mut message, short_uri(uri));
            push_str(&mut message, "' (reported MSNs: ");
            push_decimal(&mut message, lo as u64);
            push_str(&mut message, "–");
            push_decimal(&mut message, hi as u64);
            push_str(&mut message, "). All renditions should report the same LAST-MSN ±1 segment.");
            let issue = located_finding(CheckId::LlHls, Severity::Warn, -1, None, None, message);
            let ghost before = issues@;
            proof {
                let f = spec_skew_findings(e, us, u as int + 1);
                assert(f == spec_skew_findings(e, us, u as int) + seq![f.last()]);
                lemma_findings_match_concat(before, seq![issue], CheckId::LlHls, spec_skew_findings(e, us, u as int), seq![f.last()]);
            }
            issues.push(issue);
            proof {
                assert(issues@ =~= before + seq![issue]);
            }
        }
        u = u + 1;
    }
    issues
}

/// Appending a value to a list extends its least and greatest values by it.
proof fn lemma_min_max_prefix(next: Seq<int>, prev: Seq<int>, n: int)
    requires
        n == prev.len(),
        next.len() == n + 1,
        next.subrange(0, n) == prev,
    ensures
        n >= 1 ==> spec_min_of(next, n + 1) == (if next[n] < spec_min_of(prev, n) { next[n] } else { spec_min_of(prev, n) }),
        n >= 1 ==> spec_max_of(next, n + 1) == (if next[n] > spec_max_of(prev, n) { next[n] } else { spec_max_of(prev, n) }),
        n == 0 ==> spec_min_of(next, 1) == next[0] && spec_max_of(next, 1) == next[0],
{
    if n >= 1 {
        lemma_min_max_same(next, prev, n);
    }
}

proof fn lemma_min_max_same(a: Seq<int>, b: Seq<int>, n: int)
    requires
        1 <= n <= a.len(),
        n <= b.len(),
        forall|j: int| 0 <= j < n ==> a[j] == b[j],
    ensures
        spec_min_of(a, n) == spec_min_of(b, n),
        spec_max_of(a, n) == spec_max_of(b, n),
    decreases n,
{
    if n > 1 {
        lemma_min_max_same(a, b, n - 1);
    }
}


/// Those of the first `n` playlists that have parts.
pub open spec fn spec_parted(pls: Seq<LowLatencyFacts>, n: int) -> Seq<LowLatencyFacts>
    decreases n,
{
    if n <= 0 {
        Seq::empty()
    } else if pls[n - 1].has_parts {
        spec_parted(pls, n - 1).push(pls[n - 1])
    } else {
        spec_parted(pls, n - 1)
    }
}

/// What the renditions are compared by: HOLD-BACK, PART-HOLD-BACK, CAN-BLOCK-RELOAD and
/// CAN-SKIP-UNTIL.
pub open spec fn spec_server_control_key(pl: LowLatencyFacts) -> (u64, u64, bool, u64) {
    (pl.hold_back_secs, pl.part_hold_back_secs, pl.can_block_reload, pl.can_skip_until_secs)
}

/// The names of the first `n` of `ps`, joined by `, `.
pub open spec fn spec_joined_names(ps: Seq<LowLatencyFacts>, n: int) -> Seq<char>
    decreases n,
{
    if n <= 0 {
        Seq::empty()
    } else if n == 1 {
        ps[0].name@
    } else {
        spec_joined_names(ps, n - 1) + ", "@ + ps[n - 1].name@
    }
}

/// The finding on renditions with parts whose EXT-X-SERVER-CONTROL differs.
pub open spec fn spec_server_control_findings(pls: Seq<LowLatencyFacts>) -> Seq<Finding> {
    let ps = spec_parted(pls, pls.len() as int);
    if ps.len() >= 2 && exists|k: int| 0 <= k < ps.len() && spec_server_control_key(#[trigger] ps[k]) != spec_server_control_key(ps[0]) {
        seq![(
            Severity::Error,
            -1int,
            None::<Seq<char>>,
            None::<Seq<char>>,
            "LL-HLS §6.2.4: EXT-X-SERVER-CONTROL attributes differ across renditions ["@ + spec_joined_names(ps, ps.len() as int)
                + "]. All Media Playlists MUST carry identical SERVER-CONTROL values."@,
        )]
    } else {
        Seq::empty()
    }
}

fn server_control_findings(playlists: &[LowLatencyFacts]) -> (r: Vec<Issue>)
    ensures
        spec_findings_match(r@, CheckId::LlHls, spec_server_control_findings(playlists@)),
{
    let ghost pls = playlists@;
    let mut parted: Vec<&LowLatencyFacts> = Vec::new();
    let mut p: usize = 0;
    while p < playlists.len()
        invariant
            p <= pls.len(),
            pls == playlists@,
            parted@.len() == spec_parted(pls, p as int).len(),
            forall|k: int| 0 <= k < parted@.len() ==> *(#[trigger] parted@[k]) == spec_parted(pls, p as int)[k],
        decreases playlists.len() - p,
    {
        if playlists[p].has_parts {
            parted.push(&playlists[p]);
        }
        p = p + 1;
    }
    let ghost ps = spec_parted(pls, pls.len() as int);
    let mut issues: Vec<Issue> = Vec::new();
    if parted.len() < 2 {
        return issues;
    }
    let mut differ = false;
    let mut names = String::new();
    let mut k: usize = 0;
    while k < parted.len()
        invariant
            k <= parted@.len(),
            parted@.len() == ps.len(),
            ps.len() >= 2,
            forall|j: int| 0 <= j < parted@.len() ==> *(#[trigger] parted@[j]) == ps[j],
            differ == (exists|j: int| 0 <= j < k && spec_server_control_key(#[trigger] ps[j]) != spec_server_control_key(ps[0])),
            names@ == spec_joined_names(ps, k as int),
        decreases parted.len() - k,
    {
        let a = parted[k];
        let b = parted[0];
        let same = a.hold_back_secs == b.hold_back_secs && a.part_hold_back_secs == b.part_hold_back_secs
            && a.can_block_reload == b.can_block_reload && a.can_skip_until_secs == b.can_skip_until_secs;
        proof {
            assert(same == (spec_server_control_key(ps[k as int]) == spec_server_control_key(ps[0])));
        }
        if !same {
            differ = true;
        }
        if k > 0 {
            push_str(&mut names, ", ");
        } else {
            proof {
                assert(names@ =~= Seq::<char>::empty());
            }
        }
        push_str(&mut names, a.name.as_str());
        k = k + 1;
    }
    if differ {
        let mut message = String::from_str("LL-HLS §6.2.4: EXT-X-SERVER-CONTROL attributes differ across renditions [");
        push_str(&mut message, names.as_str());
        push_str(&mut message, "]. All Media Playlists MUST carry identical SERVER-CONTROL values.");
        issues.push(located_finding(CheckId::LlHls, Severity::Error, -1, None, None, message));
    }
    issues
}

/// The per-playlist findings of the first `n` playlists.
pub open spec fn spec_all_pl_findings(pls: Seq<LowLatencyFacts>, n: int) -> Seq<Finding>
    decreases n,
{
    if n <= 0 {
        Seq::empty()
    } else {
        spec_all_pl_findings(pls, n - 1) + spec_pl_findings(pls[n - 1])
    }
}

/// All the structural low-latency findings: each playlist's, then the LAST-MSN skews,
/// then the SERVER-CONTROL comparison.
pub open spec fn spec_ll_hls_findings(pls: Seq<LowLatencyFacts>) -> Seq<Finding> {
    let e = spec_msn_reports(pls, pls.len() as int);
    let us = spec_report_uris(e, e.len() as int);
    spec_all_pl_findings(pls, pls.len() as int) + spec_skew_findings(e, us, us.len() as int)
        + spec_server_control_findings(pls)
}

/// The Low-Latency HLS rules on the structure of the playlists (rfc8216bis §4.4.3–§4.4.5,
/// §6.2.5.2). For each playlist with parts, EXT-X-PART-INF or EXT-X-SERVER-CONTROL: parts
/// need EXT-X-PART-INF and CAN-BLOCK-RELOAD=YES, the first part of each segment must be
/// independent, and a playlist with parts should carry a part preload hint and rendition
/// reports. Across the playlists with parts: the LAST-MSN each URI is reported at should
/// not span more than one segment (URIs in the order they are first reported), and their
/// SERVER-CONTROL must agree. The limits on part durations and hold-backs are measured in
/// fractional seconds and are checked with the playlists' timing, not here.
pub fn check_ll_hls_compliance(playlists: &[LowLatencyFacts]) -> (r: Vec<Issue>)
    ensures
        spec_findings_match(r@, CheckId::LlHls, spec_ll_hls_findings(playlists@)),
{
    let mut issues: Vec<Issue> = Vec::new();
    let mut p: usize = 0;
    while p < playlists.len()
        invariant
            p <= playlists@.len(),
            spec_findings_match(issues@, CheckId::LlHls, spec_all_pl_findings(playlists@, p as int)),
        decreases playlists.len() - p,
    {
        let mut more = pl_findings(&playlists[p]);
        proof {
            lemma_findings_match_concat(
                issues@,
                more@,
                CheckId::LlHls,
                spec_all_pl_findings(playlists@, p as int),
                spec_pl_findings(playlists@[p as int]),
            );
        }
        issues.append(&mut more);
        p = p + 1;
    }
    let reports = msn_reports(playlists);
    let mut more = skew_findings(&reports);
    let ghost e = spec_msn_reports(playlists@, playlists@.len() as int);
    let ghost us = spec_report_uris(e, e.len() as int);
    proof {
        lemma_findings_match_concat(
            issues@,
            more@,
            CheckId::LlHls,
            spec_all_pl_findings(playlists@, playlists@.len() as int),
            spec_skew_findings(e, us, us.len() as int),
        );
    }
    issues.append(&mut more);
    let mut more = server_control_findings(playlists);
    proof {
        lemma_findings_match_concat(
            issues@,
            more@,
            CheckId::LlHls,
            spec_all_pl_findings(playlists@, playlists@.len() as int) + spec_skew_findings(e, us, us.len() as int),
            spec_server_control_findings(playlists@),
        );
    }
    issues.append(&mut more);
    issues
}

} // verus!
