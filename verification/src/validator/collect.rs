//! Which media playlists a multivariant playlist leads to: each variant's and each audio
//! rendition's URI, resolved, fetched once however many entries name it, and the name the
//! report gives the rendition.

use vstd::prelude::*;
use vstd::string::StringExecFns;
use crate::text::{find_from, lemma_find_from_bounds, push_decimal, push_str, spec_decimal, spec_find_from, str_equals_text};
use crate::validator::{absolute_fetch_uri, spec_substitute};
use crate::validator::interstitials::spec_texts;
use crate::validator::parser::{lemma_rfind_bounds, rfind, spec_resolve_url, spec_rfind};
use crate::validator::text_map::TextMap;
use crate::validator::types::{spec_plain_issue, CheckId, Issue, MediaRendition, Severity};
use crate::network::{spec_fetch_error_text, FetchError};

verus! {

/// What naming and fetching a variant reads of its EXT-X-STREAM-INF.
pub struct VariantSource {
    pub uri: String,
    pub bandwidth: Option<u64>,
    pub resolution: Option<String>,
}

/// One media playlist to fetch: an audio rendition's or a variant's, by its index among
/// the variants or among the audio renditions with a URI.
pub struct FetchJob {
    pub audio: bool,
    pub index: usize,
    pub uri: String,
    pub name: String,
}

/// A fetch job as plain values.
pub struct JobView {
    pub audio: bool,
    pub index: int,
    pub uri: Seq<char>,
    pub name: Seq<char>,
}

impl View for FetchJob {
    type V = JobView;

    open spec fn view(&self) -> JobView {
        JobView { audio: self.audio, index: self.index as int, uri: self.uri@, name: self.name@ }
    }
}

pub open spec fn spec_jobs(v: Seq<FetchJob>) -> Seq<JobView> {
    v.map_values(|j: FetchJob| j@)
}

/// The text after the last `/` of `u`, or all of it.
pub open spec fn spec_last_piece(u: Seq<char>) -> Seq<char> {
    match spec_rfind(u, '/', u.len() as int) {
        Some(p) => u.subrange(p + 1, u.len() as int),
        None => u,
    }
}

/// The report's name for a variant fetched from `fetch_uri`: its resolution and its
/// bandwidth in kbit/s where it declares them, else the last piece of the URI.
pub open spec fn spec_variant_name(v: VariantSource, fetch_uri: Seq<char>) -> Seq<char> {
    match v.resolution {
        Some(r) => match v.bandwidth {
            Some(b) => "video/"@ + r@ + " \u{b7} "@ + spec_decimal((b / 1000) as nat) + "k"@,
            None => "video/"@ + r@,
        },
        None => match v.bandwidth {
            Some(b) => "video/"@ + spec_decimal((b / 1000) as nat) + "k"@,
            None => spec_last_piece(fetch_uri),
        },
    }
}

/// The report's name for an audio rendition: its NAME and GROUP-ID, and the channel count
/// (what CHANNELS gives before any `/`) where it declares one.
pub open spec fn spec_audio_name(r: MediaRendition) -> Seq<char> {
    "audio/"@ + r.name@ + " ("@ + r.group_id@ + ")"@ + match r.channels {
        Some(c) => " \u{b7} "@ + c@.subrange(0, spec_find_from(c@, '/', 0)) + "ch"@,
        None => Seq::empty(),
    }
}

/// The audio renditions that have a URI, in order.
pub open spec fn spec_audio_sources(rs: Seq<MediaRendition>) -> Seq<MediaRendition>
    decreases rs.len(),
{
    if rs.len() == 0 {
        Seq::empty()
    } else {
        let prev = spec_audio_sources(rs.drop_last());
        if rs.last().media_type@ == "AUDIO"@ && rs.last().uri is Some {
            prev.push(rs.last())
        } else {
            prev
        }
    }
}

/// The jobs for the variants, with the URIs they fetch: one per variant whose resolved
/// URI no earlier variant has.
pub open spec fn spec_variant_jobs(url: Seq<char>, vs: Seq<VariantSource>, defs: Map<Seq<char>, Seq<char>>) -> (Seq<JobView>, Seq<Seq<char>>)
    decreases vs.len(),
{
    if vs.len() == 0 {
        (Seq::empty(), Seq::empty())
    } else {
        let (jobs, seen) = spec_variant_jobs(url, vs.drop_last(), defs);
        let u = spec_resolve_url(url, spec_substitute(vs.last().uri@, defs, 0));
        if seen.contains(u) {
            (jobs, seen)
        } else {
            (jobs.push(JobView { audio: false, index: vs.len() - 1, uri: u, name: spec_variant_name(vs.last(), u) }), seen.push(u))
        }
    }
}

/// The jobs for the audio renditions `aus` after `start`: one per rendition whose resolved
/// URI was not fetched before.
pub open spec fn spec_audio_jobs(
    url: Seq<char>,
    aus: Seq<MediaRendition>,
    defs: Map<Seq<char>, Seq<char>>,
    start: (Seq<JobView>, Seq<Seq<char>>),
) -> (Seq<JobView>, Seq<Seq<char>>)
    decreases aus.len(),
{
    if aus.len() == 0 {
        start
    } else {
        let (jobs, seen) = spec_audio_jobs(url, aus.drop_last(), defs, start);
        let u = spec_resolve_url(url, spec_substitute(aus.last().uri.unwrap()@, defs, 0));
        if seen.contains(u) {
            (jobs, seen)
        } else {
            (jobs.push(JobView { audio: true, index: aus.len() - 1, uri: u, name: spec_audio_name(aus.last()) }), seen.push(u))
        }
    }
}

/// The media playlists that a multivariant playlist at `url` leads to: the variants' in
/// order, then the audio renditions', each resolved URI once.
pub open spec fn spec_fetch_plan(
    url: Seq<char>,
    vs: Seq<VariantSource>,
    rs: Seq<MediaRendition>,
    defs: Map<Seq<char>, Seq<char>>,
) -> Seq<JobView> {
    spec_audio_jobs(url, spec_audio_sources(rs), defs, spec_variant_jobs(url, vs, defs)).0
}

fn seen_has(seen: &Vec<String>, u: &str) -> (r: bool)
    ensures
        r == spec_texts(seen@).contains(u@),
{
    let mut k: usize = 0;
    while k < seen.len()
        invariant
            k <= seen@.len(),
            forall|j: int| 0 <= j < k ==> seen@[j]@ != u@,
        decreases seen.len() - k,
    {
        if str_equals_text(seen[k].as_str(), u) {
            proof {
                assert(spec_texts(seen@)[k as int] == u@);
            }
            return true;
        }
        k = k + 1;
    }
    proof {
        if spec_texts(seen@).contains(u@) {
            let j = choose|j: int| 0 <= j < spec_texts(seen@).len() && spec_texts(seen@)[j] == u@;
            assert(seen@[j]@ == u@);
        }
    }
    false
}

fn variant_name(v: &VariantSource, fetch_uri: &str) -> (r: String)
    ensures
        r@ == spec_variant_name(*v, fetch_uri@),
{
    proof {
        reveal_strlit("video/");
        reveal_strlit(" \u{b7} ");
        reveal_strlit("k");
    }
    match &v.resolution {
        Some(r) => {
            let mut s = String::from_str("video/");
            push_str(&mut s, r.as_str());
            match v.bandwidth {
                Some(b) => {
                    push_str(&mut s, " \u{b7} ");
                    push_decimal(&mut s, b / 1000);
                    push_str(&mut s, "k");
                },
                None => {},
            }
            s
        },
        None => match v.bandwidth {
            Some(b) => {
                let mut s = String::from_str("video/");
                push_decimal(&mut s, b / 1000);
                push_str(&mut s, "k");
                s
            },
            None => match rfind(fetch_uri, '/') {
                Some(p) => {
                    let n = fetch_uri.unicode_len();
                    proof {
                        lemma_rfind_bounds(fetch_uri@, '/', fetch_uri@.len() as int);
                    }
                    fetch_uri.substring_char(p + 1, n).to_string()
                },
                None => fetch_uri.to_string(),
            },
        },
    }
}

fn audio_name(r: &MediaRendition) -> (n: String)
    ensures
        n@ == spec_audio_name(*r),
{
    proof {
        reveal_strlit("audio/");
        reveal_strlit(" (");
        reveal_strlit(")");
        reveal_strlit(" \u{b7} ");
        reveal_strlit("ch");
    }
    let mut s = String::from_str("audio/");
    push_str(&mut s, r.name.as_str());
    push_str(&mut s, " (");
    push_str(&mut s, r.group_id.as_str());
    push_str(&mut s, ")");
    match &r.channels {
        Some(c) => {
            let end = find_from(c.as_str(), '/', 0);
            proof {
                lemma_find_from_bounds(c@, '/', 0);
            }
            push_str(&mut s, " \u{b7} ");
            push_str(&mut s, c.as_str().substring_char(0, end));
            push_str(&mut s, "ch");
        },
        None => {
            assert(s@ + Seq::<char>::empty() =~= s@);
        },
    }
    s
}

/// Plans the fetches of the media playlists that a multivariant playlist at `url` leads
/// to, as `spec_fetch_plan` says: the variants first, then the audio renditions with a
/// URI, each resolved URI once.
pub fn plan_stream_fetches(
    url: &str,
    variants: &[VariantSource],
    renditions: &[MediaRendition],
    defs: &TextMap,
) -> (r: Vec<FetchJob>)
    ensures
        spec_jobs(r@) == spec_fetch_plan(url@, variants@, renditions@, defs@),
{
    let mut jobs: Vec<FetchJob> = Vec::new();
    let mut seen: Vec<String> = Vec::new();
    let mut k: usize = 0;
    assert(spec_jobs(jobs@) =~= Seq::<JobView>::empty());
    assert(spec_texts(seen@) =~= Seq::<Seq<char>>::empty());
    while k < variants.len()
        invariant
            k <= variants@.len(),
            (spec_jobs(jobs@), spec_texts(seen@)) == spec_variant_jobs(url@, variants@.take(k as int), defs@),
        decreases variants.len() - k,
    {
        assert(variants@.take(k as int + 1).drop_last() =~= variants@.take(k as int));
        assert(variants@.take(k as int + 1).last() == variants@[k as int]);
        let u = absolute_fetch_uri(url, variants[k].uri.as_str(), defs);
        if !seen_has(&seen, u.as_str()) {
            let name = variant_name(&variants[k], u.as_str());
            let ghost j0 = spec_jobs(jobs@);
            let ghost s0 = spec_texts(seen@);
            seen.push(u.clone());
            jobs.push(FetchJob { audio: false, index: k, uri: u, name });
            proof {
                assert(spec_jobs(jobs@) =~= j0.push(jobs@[jobs@.len() - 1]@));
                assert(spec_texts(seen@) =~= s0.push(seen@[seen@.len() - 1]@));
            }
        }
        k = k + 1;
    }
    assert(variants@.take(k as int) =~= variants@);
    let ghost start = (spec_jobs(jobs@), spec_texts(seen@));
    let mut a: usize = 0;
    let mut i: usize = 0;
    while i < renditions.len()
        invariant
            i <= renditions@.len(),
            a <= i,
            a == spec_audio_sources(renditions@.take(i as int)).len(),
            (spec_jobs(jobs@), spec_texts(seen@)) == spec_audio_jobs(url@, spec_audio_sources(renditions@.take(i as int)), defs@, start),
        decreases renditions.len() - i,
    {
        assert(renditions@.take(i as int + 1).drop_last() =~= renditions@.take(i as int));
        assert(renditions@.take(i as int + 1).last() == renditions@[i as int]);
        let r = &renditions[i];
        if str_equals_text(r.media_type.as_str(), "AUDIO") {
            match &r.uri {
                Some(uri) => {
                    let ghost aus = spec_audio_sources(renditions@.take(i as int + 1));
                    assert(aus.drop_last() == spec_audio_sources(renditions@.take(i as int)));
                    assert(aus.last() == *r);
                    let u = absolute_fetch_uri(url, uri.as_str(), defs);
                    if !seen_has(&seen, u.as_str()) {
                        let name = audio_name(r);
                        let ghost j0 = spec_jobs(jobs@);
                        let ghost s0 = spec_texts(seen@);
                        seen.push(u.clone());
                        jobs.push(FetchJob { audio: true, index: a, uri: u, name });
                        proof {
                            assert(spec_jobs(jobs@) =~= j0.push(jobs@[jobs@.len() - 1]@));
                            assert(spec_texts(seen@) =~= s0.push(seen@[seen@.len() - 1]@));
                        }
                    }
                    a = a + 1;
                },
                None => {},
            }
        }
        i = i + 1;
    }
    assert(renditions@.take(i as int) =~= renditions@);
    jobs
}

/// The warning for a media playlist that could not be fetched, and what the fetch said.
pub open spec fn spec_fetch_failure_message(audio: bool, uri: Seq<char>, error: Seq<char>) -> Seq<char> {
    "rfc8216bis \u{a7}6.2: Could not fetch "@ + (if audio { "audio rendition '"@ } else { "media playlist '"@ })
        + uri + "': "@ + error + ". No check could be run against this rendition."@
}

/// The finding for a job whose playlist could not be fetched: a warning of the
/// playlist-fetch check, saying so.
pub fn fetch_failure_issue(job: &FetchJob, error: &FetchError) -> (r: Issue)
    ensures
        r.check_id == CheckId::PlaylistFetch,
        spec_plain_issue(Severity::Warn, -1, spec_fetch_failure_message(job.audio, job.uri@, spec_fetch_error_text(*error)), Issue { check_id: CheckId::Unassigned, ..r }),
{
    proof {
        reveal_strlit("rfc8216bis \u{a7}6.2: Could not fetch ");
        reveal_strlit("audio rendition '");
        reveal_strlit("media playlist '");
        reveal_strlit("': ");
        reveal_strlit(". No check could be run against this rendition.");
    }
    let mut m = String::from_str("rfc8216bis \u{a7}6.2: Could not fetch ");
    if job.audio {
        push_str(&mut m, "audio rendition '");
    } else {
        push_str(&mut m, "media playlist '");
    }
    push_str(&mut m, job.uri.as_str());
    push_str(&mut m, "': ");
    let e = error.to_text();
    push_str(&mut m, e.as_str());
    push_str(&mut m, ". No check could be run against this rendition.");
    let i = Issue::warn(m);
    i.for_check(CheckId::PlaylistFetch)
}

} // verus!
