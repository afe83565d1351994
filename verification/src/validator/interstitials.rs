//! HLS Interstitials (rfc8216bis Appendix D): the EXT-X-DATERANGE tags of class
//! `com.apple.hls.interstitial`, what each must hold, and what the report lists of them.

use vstd::prelude::*;
use vstd::string::StringExecFns;
use crate::text::{
    contains, find_from, lemma_find_from_bounds, push_str, spec_contains, spec_find_from, spec_starts_with, spec_trim,
    starts_with, str_equals_text, trim,
};
use crate::validator::checks::PlaylistFacts;
use crate::validator::parser::{parse_attributes, spec_attr_pairs};
use crate::validator::text_map::{spec_pairs_map, TextMap};
use crate::validator::types::{CheckId, Confidence, Issue, Severity};

verus! {

/// The attributes of one tag, by upper-cased name.
pub type Attrs = Map<Seq<char>, Seq<char>>;

/// The value of attribute `k`, if the tag has one.
pub open spec fn spec_attr(m: Attrs, k: Seq<char>) -> Option<Seq<char>> {
    if m.contains_key(k) {
        Some(m[k])
    } else {
        None
    }
}

/// The value of attribute `k`, or the empty text where the tag has none.
pub open spec fn spec_attr_or_empty(m: Attrs, k: Seq<char>) -> Seq<char> {
    if m.contains_key(k) {
        m[k]
    } else {
        Seq::empty()
    }
}

/// The attributes of a trimmed playlist line, where it is an EXT-X-DATERANGE tag.
pub open spec fn spec_daterange_attrs(line: Seq<char>) -> Option<Attrs> {
    if spec_starts_with(line, "#EXT-X-DATERANGE:"@) {
        Some(spec_pairs_map(spec_attr_pairs(line.subrange(17, line.len() as int))))
    } else {
        None
    }
}

/// Whether a Date Range is an interstitial: its CLASS names `com.apple.hls.interstitial`.
pub open spec fn spec_is_interstitial(m: Attrs) -> bool {
    spec_contains(spec_attr_or_empty(m, "CLASS"@), "com.apple.hls.interstitial"@)
}

/// The trimmed line of `content` that starts at position `i`.
pub open spec fn spec_line_at(content: Seq<char>, i: int) -> Seq<char> {
    spec_trim(content.subrange(i, spec_find_from(content, '\n', i)))
}

/// The interstitials of `content` from position `i` on, each as its attributes: every
/// interstitial Date Range but those that repeat the ID of one already seen (`seen`, then
/// those found on the way), which rfc8216bis §D.2 makes updates of it. A Date Range
/// without an ID is never an update.
pub open spec fn spec_interstitials_from(content: Seq<char>, i: int, seen: Seq<Seq<char>>) -> Seq<Attrs>
    decreases content.len() + 1 - i,
{
    if i < 0 || i > content.len() {
        Seq::empty()
    } else {
        let j = spec_find_from(content, '\n', i);
        proof {
            lemma_find_from_bounds(content, '\n', i);
        }
        let line = spec_trim(content.subrange(i, j));
        let m = spec_daterange_attrs(line);
        let is_new = m matches Some(a) && spec_is_interstitial(a) && !(spec_attr_or_empty(a, "ID"@).len() > 0
            && seen.contains(spec_attr_or_empty(a, "ID"@)));
        let here = if is_new { seq![m->0] } else { Seq::empty() };
        let seen2 = if is_new { seen.push(spec_attr_or_empty(m->0, "ID"@)) } else { seen };
        here + if j < content.len() { spec_interstitials_from(content, j + 1, seen2) } else { Seq::empty() }
    }
}

/// The Date Ranges of `content`, from position `i` on, that are not interstitials: the
/// tags that close one (the IN side of a break) among them.
pub open spec fn spec_other_dateranges_from(content: Seq<char>, i: int) -> Seq<Attrs>
    decreases content.len() + 1 - i,
{
    if i < 0 || i > content.len() {
        Seq::empty()
    } else {
        let j = spec_find_from(content, '\n', i);
        proof {
            lemma_find_from_bounds(content, '\n', i);
        }
        let m = spec_daterange_attrs(spec_trim(content.subrange(i, j)));
        let here = if m matches Some(a) && !spec_is_interstitial(a) { seq![m->0] } else { Seq::empty() };
        here + if j < content.len() { spec_other_dateranges_from(content, j + 1) } else { Seq::empty() }
    }
}

/// The trimmed, `,`-separated pieces of `s` from position `i` on that are neither `a`
/// nor `b`.
pub open spec fn spec_invalid_pieces(s: Seq<char>, i: int, a: Seq<char>, b: Seq<char>) -> Seq<Seq<char>>
    decreases s.len() + 1 - i,
{
    if i < 0 || i > s.len() {
        Seq::empty()
    } else {
        let j = spec_find_from(s, ',', i);
        proof {
            lemma_find_from_bounds(s, ',', i);
        }
        let p = spec_trim(s.subrange(i, j));
        (if p == a || p == b { Seq::empty() } else { seq![p] }) + if j < s.len() {
            spec_invalid_pieces(s, j + 1, a, b)
        } else {
            Seq::empty()
        }
    }
}

/// Whether `c` may stand in X-SKIP-CONTROL-LABEL-ID: an ASCII letter, `-` or `_`.
pub open spec fn spec_label_char(c: char) -> bool {
    ('a' <= c && c <= 'z') || ('A' <= c && c <= 'Z') || c == '-' || c == '_'
}

/// The characters among the first `n` of `s` that may not stand in a label ID.
pub open spec fn spec_invalid_label_chars(s: Seq<char>, n: int) -> Seq<char>
    decreases n,
{
    if n <= 0 {
        Seq::empty()
    } else if spec_label_char(s[n - 1]) {
        spec_invalid_label_chars(s, n - 1)
    } else {
        spec_invalid_label_chars(s, n - 1).push(s[n - 1])
    }
}

/// What `{:?}` writes of a list of characters.
pub uninterp spec fn spec_debug_chars(chars: Seq<char>) -> Seq<char>;

/// `format!("{:?}", chars)` on a `Vec<char>`: the result is named, as a function of the
/// characters alone; what the Debug form looks like (brackets, quotes, escapes) is not
/// stated.
#[verifier::external_body]
fn debug_chars(chars: &Vec<char>) -> (r: String)
    ensures
        r@ == spec_debug_chars(chars@),
{
    format!("{:?}", chars)
}


/// A problem with one interstitial: its severity, the report's message, and the line
/// the interstitial's own list of errors gets.
pub type Problem = (Severity, Seq<char>, Seq<char>);

/// The problems of the enumerated-list attribute `key` (X-SNAP, X-RESTRICT): one per
/// piece that is neither `a` nor `b`.
pub open spec fn spec_list_problems(m: Attrs, name: Seq<char>, key: Seq<char>, a: Seq<char>, b: Seq<char>, rule: Seq<char>, err: Seq<char>) -> Seq<Problem> {
    let id = spec_attr_or_empty(m, "ID"@);
    match spec_attr(m, key) {
        Some(v) => spec_invalid_pieces(v, 0, a, b).map_values(|p: Seq<char>| (
            Severity::Warn,
            "Interstitial: ["@ + id + "] "@ + key + "='"@ + p + "' invalid in '"@ + name + "' (rfc8216bis §D.2: values must be "@ + rule + ")."@,
            key + " value '"@ + p + "' invalid (must be "@ + err + ")"@,
        )),
        None => Seq::empty(),
    }
}

/// The problem of the single-valued attribute `key` where it is neither `a` nor `b`.
pub open spec fn spec_value_problem(m: Attrs, name: Seq<char>, key: Seq<char>, a: Seq<char>, b: Seq<char>) -> Seq<Problem> {
    let id = spec_attr_or_empty(m, "ID"@);
    match spec_attr(m, key) {
        Some(v) => if v != a && v != b {
            seq![(
                Severity::Warn,
                "Interstitial: ["@ + id + "] "@ + key + "='"@ + v + "' invalid in '"@ + name + "' (rfc8216bis §D.2: must be \""@ + a
                    + "\" or \""@ + b + "\")."@,
                key + "='"@ + v + "' invalid (must be "@ + a + " or "@ + b + ")"@,
            )]
        } else {
            Seq::empty()
        },
        None => Seq::empty(),
    }
}

/// The problems of an interstitial found in playlist `name`, in the order rfc8216bis
/// Appendix D's rules are tested: a missing ID or START-DATE, neither or both of
/// X-ASSET-URI and X-ASSET-LIST, bad X-SNAP and X-RESTRICT pieces, bad
/// X-CONTENT-MAY-VARY, X-TIMELINE-OCCUPIES and X-TIMELINE-STYLE values, and characters
/// that may not stand in X-SKIP-CONTROL-LABEL-ID.
pub open spec fn spec_problems(m: Attrs, name: Seq<char>) -> Seq<Problem> {
    let id = spec_attr_or_empty(m, "ID"@);
    let asset_uri = spec_attr(m, "X-ASSET-URI"@);
    let asset_list = spec_attr(m, "X-ASSET-LIST"@);
    (if id.len() == 0 {
        seq![(Severity::Error, "Interstitial: DATERANGE in '"@ + name + "' missing ID (MUST)"@, "Missing required ID attribute"@)]
    } else {
        Seq::empty()
    }) + (if spec_attr_or_empty(m, "START-DATE"@).len() == 0 {
        seq![(Severity::Error, "Interstitial: ["@ + id + "] missing START-DATE in '"@ + name + "'"@, "Missing required START-DATE"@)]
    } else {
        Seq::empty()
    }) + (if asset_uri is None && asset_list is None {
        seq![(
            Severity::Error,
            "Interstitial: ["@ + id + "] missing X-ASSET-URI/X-ASSET-LIST in '"@ + name + "'"@,
            "Missing X-ASSET-URI or X-ASSET-LIST (MUST have one)"@,
        )]
    } else {
        Seq::empty()
    }) + (if asset_uri is Some && asset_list is Some {
        seq![(
            Severity::Error,
            "Interstitial: ["@ + id + "] has both X-ASSET-URI and X-ASSET-LIST in '"@ + name + "' (MUST NOT)"@,
            "Has both X-ASSET-URI and X-ASSET-LIST (MUST have only one)"@,
        )]
    } else {
        Seq::empty()
    }) + spec_list_problems(m, name, "X-SNAP"@, "IN"@, "OUT"@, "OUT and/or IN"@, "IN or OUT"@)
        + spec_list_problems(m, name, "X-RESTRICT"@, "SKIP"@, "JUMP"@, "SKIP and/or JUMP"@, "SKIP or JUMP"@)
        + spec_value_problem(m, name, "X-CONTENT-MAY-VARY"@, "YES"@, "NO"@)
        + spec_value_problem(m, name, "X-TIMELINE-OCCUPIES"@, "POINT"@, "RANGE"@)
        + spec_value_problem(m, name, "X-TIMELINE-STYLE"@, "HIGHLIGHT"@, "PRIMARY"@)
        + match spec_attr(m, "X-SKIP-CONTROL-LABEL-ID"@) {
        Some(l) => {
            let bad = spec_invalid_label_chars(l, l.len() as int);
            if bad.len() > 0 {
                seq![(
                    Severity::Error,
                    "Interstitial: ["@ + id + "] X-SKIP-CONTROL-LABEL-ID='"@ + l + "' contains invalid characters "@
                        + spec_debug_chars(bad) + " in '"@ + name + "' (rfc8216bis §D.3: MUST be [a-z][A-Z]'-''_' only)."@,
                    "X-SKIP-CONTROL-LABEL-ID='"@ + l + "' contains invalid chars "@ + spec_debug_chars(bad),
                )]
            } else {
                Seq::empty()
            }
        },
        None => Seq::empty(),
    }
}

/// Whether `r` holds, in order, the problems `e`.
pub open spec fn spec_problems_are(r: Seq<(Severity, String, String)>, e: Seq<Problem>) -> bool {
    &&& r.len() == e.len()
    &&& forall|k: int| 0 <= k < r.len() ==> (#[trigger] r[k]).0 == e[k].0 && r[k].1@ == e[k].1 && r[k].2@ == e[k].2
}

proof fn lemma_problems_concat(a: Seq<(Severity, String, String)>, b: Seq<(Severity, String, String)>, ea: Seq<Problem>, eb: Seq<Problem>)
    requires
        spec_problems_are(a, ea),
        spec_problems_are(b, eb),
    ensures
        spec_problems_are(a + b, ea + eb),
{
    assert forall|k: int| 0 <= k < (a + b).len() implies (#[trigger] (a + b)[k]).0 == (ea + eb)[k].0 && (a + b)[k].1@ == (ea
        + eb)[k].1 && (a + b)[k].2@ == (ea + eb)[k].2 by {
        if k >= a.len() {
            assert((a + b)[k] == b[k - a.len()]);
            assert((ea + eb)[k] == eb[k - ea.len()]);
        }
    }
}


/// The texts of a list of strings.
pub open spec fn spec_texts(v: Seq<String>) -> Seq<Seq<char>> {
    v.map_values(|x: String| x@)
}

fn invalid_pieces(s: &str, a: &str, b: &str) -> (r: Vec<String>)
    ensures
        spec_texts(r@) == spec_invalid_pieces(s@, 0, a@, b@),
{
    let n = s.unicode_len();
    let mut out: Vec<String> = Vec::new();
    let mut i: usize = 0;
    while i <= n
        invariant
            n == s@.len(),
            spec_texts(out@) + spec_invalid_pieces(s@, i as int, a@, b@) == spec_invalid_pieces(s@, 0, a@, b@),
        decreases n + 1 - i,
    {
        let j = find_from(s, ',', i);
        proof {
            lemma_find_from_bounds(s@, ',', i as int);
        }
        let p = trim(s.substring_char(i, j));
        let ghost before = spec_texts(out@);
        let ghost rest = if j < n { spec_invalid_pieces(s@, j + 1, a@, b@) } else { Seq::empty() };
        if !str_equals_text(p, a) && !str_equals_text(p, b) {
            out.push(p.to_string());
            proof {
                assert(spec_texts(out@) =~= before.push(p@));
                assert(spec_invalid_pieces(s@, i as int, a@, b@) =~= seq![p@] + rest);
                assert(spec_texts(out@) + rest =~= before + (seq![p@] + rest));
            }
        } else {
            proof {
                assert(spec_invalid_pieces(s@, i as int, a@, b@) =~= rest);
            }
        }
        if j >= n {
            proof {
                assert(spec_texts(out@) =~= spec_texts(out@) + Seq::<Seq<char>>::empty());
            }
            return out;
        }
        i = j + 1;
    }
    out
}

fn list_problems(
    attrs: &TextMap,
    name: &str,
    key: &str,
    a: &str,
    b: &str,
    rule: &str,
    err: &str,
) -> (r: Vec<(Severity, String, String)>)
    ensures
        spec_problems_are(r@, spec_list_problems(attrs@, name@, key@, a@, b@, rule@, err@)),
{
    let mut out: Vec<(Severity, String, String)> = Vec::new();
    let value = match attrs.get(key) {
        Some(v) => v,
        None => {
            return out;
        },
    };
    let id = match attrs.get("ID") {
        Some(v) => v.as_str(),
        None => "",
    };
    proof {
        reveal_strlit("");
    }
    let pieces = invalid_pieces(value.as_str(), a, b);
    let ghost expected = spec_list_problems(attrs@, name@, key@, a@, b@, rule@, err@);
    let mut k: usize = 0;
    while k < pieces.len()
        invariant
            k <= pieces@.len(),
            spec_texts(pieces@) == spec_invalid_pieces(value@, 0, a@, b@),
            id@ == spec_attr_or_empty(attrs@, "ID"@),
            attrs@.contains_key(key@) && attrs@[key@] == value@,
            expected == spec_list_problems(attrs@, name@, key@, a@, b@, rule@, err@),
            spec_problems_are(out@, expected.take(k as int)),
        decreases pieces.len() - k,
    {
        let p = pieces[k].as_str();
        proof {
            assert(spec_texts(pieces@)[k as int] == p@);
        }
        let mut message = String::from_str("Interstitial: [");
        push_str(&mut message, id);
        push_str(&mut message, "] ");
        push_str(&mut message, key);
        push_str(&mut message, "='");
        push_str(&mut message, p);
        push_str(&mut message, "' invalid in '");
        push_str(&mut message, name);
        push_str(&mut message, "' (rfc8216bis §D.2: values must be ");
        push_str(&mut message, rule);
        push_str(&mut message, ").");
        let mut error = key.to_string();
        push_str(&mut error, " value '");
        push_str(&mut error, p);
        push_str(&mut error, "' invalid (must be ");
        push_str(&mut error, err);
        push_str(&mut error, ")");
        out.push((Severity::Warn, message, error));
        proof {
            assert(expected.take(k + 1) =~= expected.take(k as int).push(expected[k as int]));
        }
        k = k + 1;
    }
    proof {
        assert(expected.take(pieces@.len() as int) =~= expected);
    }
    out
}

fn value_problem(attrs: &TextMap, name: &str, key: &str, a: &str, b: &str) -> (r: Vec<(Severity, String, String)>)
    ensures
        spec_problems_are(r@, spec_value_problem(attrs@, name@, key@, a@, b@)),
{
    let mut out: Vec<(Severity, String, String)> = Vec::new();
    let value = match attrs.get(key) {
        Some(v) => v.as_str(),
        None => {
            return out;
        },
    };
    if str_equals_text(value, a) || str_equals_text(value, b) {
        return out;
    }
    let id = match attrs.get("ID") {
        Some(v) => v.as_str(),
        None => "",
    };
    proof {
        reveal_strlit("");
    }
    let mut message = String::from_str("Interstitial: [");
    push_str(&mut message, id);
    push_str(&mut message, "] ");
    push_str(&mut message, key);
    push_str(&mut message, "='");
    push_str(&mut message, value);
    push_str(&mut message, "' invalid in '");
    push_str(&mut message, name);
    push_str(&mut message, "' (rfc8216bis §D.2: must be \"");
    push_str(&mut message, a);
    push_str(&mut message, "\" or \"");
    push_str(&mut message, b);
    push_str(&mut message, "\").");
    let mut error = key.to_string();
    push_str(&mut error, "='");
    push_str(&mut error, value);
    push_str(&mut error, "' invalid (must be ");
    push_str(&mut error, a);
    push_str(&mut error, " or ");
    push_str(&mut error, b);
    push_str(&mut error, ")");
    out.push((Severity::Warn, message, error));
    out
}

fn invalid_label_chars(s: &str) -> (r: Vec<char>)
    ensures
        r@ == spec_invalid_label_chars(s@, s@.len() as int),
{
    let n = s.unicode_len();
    let mut out: Vec<char> = Vec::new();
    let mut i: usize = 0;
    while i < n
        invariant
            i <= n,
            n == s@.len(),
            out@ == spec_invalid_label_chars(s@, i as int),
        decreases n - i,
    {
        let c = s.get_char(i);
        if !(('a' <= c && c <= 'z') || ('A' <= c && c <= 'Z') || c == '-' || c == '_') {
            out.push(c);
        }
        i = i + 1;
    }
    out
}


fn one_problem(severity: Severity, message: String, error: &str) -> (r: Vec<(Severity, String, String)>)
    ensures
        spec_problems_are(r@, seq![(severity, message@, error@)]),
{
    let mut out: Vec<(Severity, String, String)> = Vec::new();
    out.push((severity, message, error.to_string()));
    out
}

/// The problems of an interstitial with attributes `attrs` found in playlist `name`.
fn problems(attrs: &TextMap, name: &str) -> (r: Vec<(Severity, String, String)>)
    ensures
        spec_problems_are(r@, spec_problems(attrs@, name@)),
{
    let mut out: Vec<(Severity, String, String)> = Vec::new();
    let ghost mut e: Seq<Problem> = Seq::empty();
    let id = match attrs.get("ID") {
        Some(v) => v.as_str(),
        None => "",
    };
    proof {
        reveal_strlit("");
    }
    if id.unicode_len() == 0 {
        let mut message = String::from_str("Interstitial: DATERANGE in '");
        push_str(&mut message, name);
        push_str(&mut message, "' missing ID (MUST)");
        let mut more = one_problem(Severity::Error, message, "Missing required ID attribute");
        proof {
            lemma_problems_concat(out@, more@, e, seq![(Severity::Error, message@, "Missing required ID attribute"@)]);
            e = e + seq![(Severity::Error, message@, "Missing required ID attribute"@)];
        }
        out.append(&mut more);
    }
    let start_empty = match attrs.get("START-DATE") {
        Some(v) => v.unicode_len() == 0,
        None => true,
    };
    if start_empty {
        let mut message = String::from_str("Interstitial: [");
        push_str(&mut message, id);
        push_str(&mut message, "] missing START-DATE in '");
        push_str(&mut message, name);
        push_str(&mut message, "'");
        let mut more = one_problem(Severity::Error, message, "Missing required START-DATE");
        proof {
            lemma_problems_concat(out@, more@, e, seq![(Severity::Error, message@, "Missing required START-DATE"@)]);
            e = e + seq![(Severity::Error, message@, "Missing required START-DATE"@)];
        }
        out.append(&mut more);
    }
    let has_uri = attrs.contains_key("X-ASSET-URI");
    let has_list = attrs.contains_key("X-ASSET-LIST");
    if !has_uri && !has_list {
        let mut message = String::from_str("Interstitial: [");
        push_str(&mut message, id);
        push_str(&mut message, "] missing X-ASSET-URI/X-ASSET-LIST in '");
        push_str(&mut message, name);
        push_str(&mut message, "'");
        let mut more = one_problem(Severity::Error, message, "Missing X-ASSET-URI or X-ASSET-LIST (MUST have one)");
        proof {
            lemma_problems_concat(
                out@,
                more@,
                e,
                seq![(Severity::Error, message@, "Missing X-ASSET-URI or X-ASSET-LIST (MUST have one)"@)],
            );
            e = e + seq![(Severity::Error, message@, "Missing X-ASSET-URI or X-ASSET-LIST (MUST have one)"@)];
        }
        out.append(&mut more);
    }
    if has_uri && has_list {
        let mut message = String::from_str("Interstitial: [");
        push_str(&mut message, id);
        push_str(&mut message, "] has both X-ASSET-URI and X-ASSET-LIST in '");
        push_str(&mut message, name);
        push_str(&mut message, "' (MUST NOT)");
        let mut more = one_problem(Severity::Error, message, "Has both X-ASSET-URI and X-ASSET-LIST (MUST have only one)");
        proof {
            lemma_problems_concat(
                out@,
                more@,
                e,
                seq![(Severity::Error, message@, "Has both X-ASSET-URI and X-ASSET-LIST (MUST have only one)"@)],
            );
            e = e + seq![(Severity::Error, message@, "Has both X-ASSET-URI and X-ASSET-LIST (MUST have only one)"@)];
        }
        out.append(&mut more);
    }
    let mut more = list_problems(attrs, name, "X-SNAP", "IN", "OUT", "OUT and/or IN", "IN or OUT");
    proof {
        let x = spec_list_problems(attrs@, name@, "X-SNAP"@, "IN"@, "OUT"@, "OUT and/or IN"@, "IN or OUT"@);
        lemma_problems_concat(out@, more@, e, x);
        e = e + x;
    }
    out.append(&mut more);
    let mut more = list_problems(attrs, name, "X-RESTRICT", "SKIP", "JUMP", "SKIP and/or JUMP", "SKIP or JUMP");
    proof {
        let x = spec_list_problems(attrs@, name@, "X-RESTRICT"@, "SKIP"@, "JUMP"@, "SKIP and/or JUMP"@, "SKIP or JUMP"@);
        lemma_problems_concat(out@, more@, e, x);
        e = e + x;
    }
    out.append(&mut more);
    let mut more = value_problem(attrs, name, "X-CONTENT-MAY-VARY", "YES", "NO");
    proof {
        let x = spec_value_problem(attrs@, name@, "X-CONTENT-MAY-VARY"@, "YES"@, "NO"@);
        lemma_problems_concat(out@, more@, e, x);
        e = e + x;
    }
    out.append(&mut more);
    let mut more = value_problem(attrs, name, "X-TIMELINE-OCCUPIES", "POINT", "RANGE");
    proof {
        let x = spec_value_problem(attrs@, name@, "X-TIMELINE-OCCUPIES"@, "POINT"@, "RANGE"@);
        lemma_problems_concat(out@, more@, e, x);
        e = e + x;
    }
    out.append(&mut more);
    let mut more = value_problem(attrs, name, "X-TIMELINE-STYLE", "HIGHLIGHT", "PRIMARY");
    proof {
        let x = spec_value_problem(attrs@, name@, "X-TIMELINE-STYLE"@, "HIGHLIGHT"@, "PRIMARY"@);
        lemma_problems_concat(out@, more@, e, x);
        e = e + x;
    }
    out.append(&mut more);
    if let Some(label) = attrs.get("X-SKIP-CONTROL-LABEL-ID") {
        let bad = invalid_label_chars(label.as_str());
        if bad.len() > 0 {
            let shown = debug_chars(&bad);
            let mut message = String::from_str("Interstitial: [");
            push_str(&mut message, id);
            push_str(&mut message, "] X-SKIP-CONTROL-LABEL-ID='");
            push_str(&mut message, label.as_str());
            push_str(&mut message, "' contains invalid characters ");
            push_str(&mut message, shown.as_str());
            push_str(&mut message, " in '");
            push_str(&mut message, name);
            push_str(&mut message, "' (rfc8216bis §D.3: MUST be [a-z][A-Z]'-''_' only).");
            let mut error = String::from_str("X-SKIP-CONTROL-LABEL-ID='");
            push_str(&mut error, label.as_str());
            push_str(&mut error, "' contains invalid chars ");
            push_str(&mut error, shown.as_str());
            let mut more = one_problem(Severity::Error, message, error.as_str());
            proof {
                lemma_problems_concat(out@, more@, e, seq![(Severity::Error, message@, error@)]);
                e = e + seq![(Severity::Error, message@, error@)];
            }
            out.append(&mut more);
        }
    }
    proof {
        assert(e =~= spec_problems(attrs@, name@));
    }
    out
}


/// The attributes of a list of tags.
pub open spec fn spec_maps(v: Seq<TextMap>) -> Seq<Attrs> {
    v.map_values(|t: TextMap| t@)
}

fn seen_contains(seen: &Vec<String>, id: &str) -> (r: bool)
    ensures
        r == spec_texts(seen@).contains(id@),
{
    let mut k: usize = 0;
    while k < seen.len()
        invariant
            k <= seen@.len(),
            forall|j: int| 0 <= j < k ==> seen@[j]@ != id@,
        decreases seen.len() - k,
    {
        if str_equals_text(seen[k].as_str(), id) {
            proof {
                assert(spec_texts(seen@)[k as int] == id@);
            }
            return true;
        }
        k = k + 1;
    }
    proof {
        if spec_texts(seen@).contains(id@) {
            let j = choose|j: int| 0 <= j < spec_texts(seen@).len() && spec_texts(seen@)[j] == id@;
            assert(seen@[j]@ == id@);
        }
    }
    false
}

/// The attributes of the trimmed line `line`, where it is an EXT-X-DATERANGE tag.
pub(crate) fn daterange_attrs(line: &str) -> (r: Option<TextMap>)
    ensures
        match (r, spec_daterange_attrs(line@)) {
            (Some(t), Some(m)) => t@ == m,
            (None, None) => true,
            _ => false,
        },
{
    if starts_with(line, "#EXT-X-DATERANGE:") {
        proof {
            reveal_strlit("#EXT-X-DATERANGE:");
        }
        Some(parse_attributes(line.substring_char(17, line.unicode_len())))
    } else {
        None
    }
}

pub(crate) fn is_interstitial(attrs: &TextMap) -> (r: bool)
    ensures
        r == spec_is_interstitial(attrs@),
{
    proof {
        reveal_strlit("");
        assert(""@ =~= Seq::<char>::empty());
    }
    match attrs.get("CLASS") {
        Some(c) => contains(c.as_str(), "com.apple.hls.interstitial"),
        None => contains("", "com.apple.hls.interstitial"),
    }
}

/// The interstitials of a playlist text, each as its attributes (see
/// `spec_interstitials_from`).
fn interstitial_tags(content: &str) -> (r: Vec<TextMap>)
    ensures
        spec_maps(r@) == spec_interstitials_from(content@, 0, Seq::empty()),
{
    let n = content.unicode_len();
    let mut out: Vec<TextMap> = Vec::new();
    let mut seen: Vec<String> = Vec::new();
    proof {
        assert(spec_texts(seen@) =~= Seq::<Seq<char>>::empty());
        assert(spec_maps(out@) =~= Seq::<Attrs>::empty());
        assert(spec_maps(out@) + spec_interstitials_from(content@, 0, spec_texts(seen@)) =~= spec_interstitials_from(
            content@,
            0,
            Seq::empty(),
        ));
    }
    let mut i: usize = 0;
    while i <= n
        invariant
            n == content@.len(),
            spec_maps(out@) + spec_interstitials_from(content@, i as int, spec_texts(seen@))
                == spec_interstitials_from(content@, 0, Seq::empty()),
        decreases n + 1 - i,
    {
        let j = find_from(content, '\n', i);
        proof {
            lemma_find_from_bounds(content@, '\n', i as int);
        }
        let line = trim(content.substring_char(i, j));
        let ghost before = spec_maps(out@);
        let ghost seen_before = spec_texts(seen@);
        let ghost rest_seen = seen_before;
        match daterange_attrs(line) {
            Some(attrs) => {
                if is_interstitial(&attrs) {
                    proof {
                        reveal_strlit("");
                    }
                    let id = match attrs.get("ID") {
                        Some(v) => v.clone(),
                        None => String::new(),
                    };
                    assert(id@ == spec_attr_or_empty(attrs@, "ID"@));
                    let update = id.unicode_len() > 0 && seen_contains(&seen, id.as_str());
                    if !update {
                        seen.push(id);
                        proof {
                            assert(spec_texts(seen@) =~= seen_before.push(spec_attr_or_empty(attrs@, "ID"@)));
                        }
                        out.push(attrs);
                        proof {
                            assert(spec_maps(out@) =~= before.push(attrs@));
                        }
                    }
                }
            },
            None => {},
        }
        let ghost rest = if j < n { spec_interstitials_from(content@, j + 1, spec_texts(seen@)) } else { Seq::empty() };
        proof {
            assert(spec_interstitials_from(content@, i as int, seen_before) =~= (spec_maps(out@).subrange(
                before.len() as int,
                spec_maps(out@).len() as int,
            )) + rest);
            assert(spec_maps(out@) =~= before + spec_maps(out@).subrange(before.len() as int, spec_maps(out@).len() as int));
        }
        if j >= n {
            proof {
                assert(spec_maps(out@) + rest =~= spec_maps(out@));
            }
            return out;
        }
        i = j + 1;
    }
    out
}

/// The Date Ranges of a playlist text that are not interstitials, each as its attributes.
fn other_dateranges(content: &str) -> (r: Vec<TextMap>)
    ensures
        spec_maps(r@) == spec_other_dateranges_from(content@, 0),
{
    let n = content.unicode_len();
    let mut out: Vec<TextMap> = Vec::new();
    proof {
        assert(spec_maps(out@) + spec_other_dateranges_from(content@, 0) =~= spec_other_dateranges_from(content@, 0));
    }
    let mut i: usize = 0;
    while i <= n
        invariant
            n == content@.len(),
            spec_maps(out@) + spec_other_dateranges_from(content@, i as int) == spec_other_dateranges_from(content@, 0),
        decreases n + 1 - i,
    {
        let j = find_from(content, '\n', i);
        proof {
            lemma_find_from_bounds(content@, '\n', i as int);
        }
        let line = trim(content.substring_char(i, j));
        let ghost before = spec_maps(out@);
        match daterange_attrs(line) {
            Some(attrs) => {
                if !is_interstitial(&attrs) {
                    out.push(attrs);
                    proof {
                        assert(spec_maps(out@) =~= before.push(attrs@));
                    }
                }
            },
            None => {},
        }
        let ghost rest = if j < n { spec_other_dateranges_from(content@, j + 1) } else { Seq::empty() };
        proof {
            assert(spec_other_dateranges_from(content@, i as int) =~= (spec_maps(out@).subrange(
                before.len() as int,
                spec_maps(out@).len() as int,
            )) + rest);
            assert(spec_maps(out@) =~= before + spec_maps(out@).subrange(before.len() as int, spec_maps(out@).len() as int));
        }
        if j >= n {
            proof {
                assert(spec_maps(out@) + rest =~= spec_maps(out@));
            }
            return out;
        }
        i = j + 1;
    }
    out
}


/// An interstitial as the report lists it: its attributes as written, and its problems.
/// Numbers stay as text; where a value can be given again by the Date Ranges that close
/// the interstitial, every value given is kept, in order.
#[derive(Debug, Clone)]
pub struct InterstitialEntry {
    /// The index, among the playlists checked, of the one it was found in.
    pub playlist: usize,
    pub rendition: String,
    pub id: String,
    pub start_date: String,
    pub asset_uri: Option<String>,
    pub asset_list: Option<String>,
    /// Every X-RESUME-OFFSET given for it: its own first, then those of the Date Ranges
    /// that close it. Its resume offset is the first of them that reads as a number.
    pub resume_offsets: Vec<String>,
    /// Every X-PLAYOUT-LIMIT given for it, in the same order.
    pub playout_limits: Vec<String>,
    /// PLANNED-DURATION, as written.
    pub planned_duration: Option<String>,
    pub snap: Option<String>,
    pub cue: Option<String>,
    pub timeline_style: Option<String>,
    /// The problems found with it, one line each.
    pub errors: Vec<String>,
}

/// The interstitials of one playlist: none where its text is empty.
pub open spec fn spec_pl_interstitials(pl: PlaylistFacts) -> Seq<Attrs> {
    if pl.raw_content@.len() == 0 {
        Seq::empty()
    } else {
        spec_interstitials_from(pl.raw_content@, 0, Seq::empty())
    }
}

/// The interstitials of the first `n` playlists, each with the index of its playlist.
pub open spec fn spec_found(pls: Seq<PlaylistFacts>, n: int) -> Seq<(int, Attrs)>
    decreases n,
{
    if n <= 0 {
        Seq::empty()
    } else {
        spec_found(pls, n - 1) + spec_pl_interstitials(pls[n - 1]).map_values(|m: Attrs| (n - 1, m))
    }
}

/// The Date Ranges of the first `n` playlists that are not interstitials.
pub open spec fn spec_closers(pls: Seq<PlaylistFacts>, n: int) -> Seq<Attrs>
    decreases n,
{
    if n <= 0 {
        Seq::empty()
    } else {
        spec_closers(pls, n - 1) + spec_other_dateranges_from(pls[n - 1].raw_content@, 0)
    }
}

/// The values of `key` on those of the first `n` Date Ranges `cs` whose ID is `id` (an
/// absent ID reading as the empty text).
pub open spec fn spec_closer_values(cs: Seq<Attrs>, id: Seq<char>, key: Seq<char>, n: int) -> Seq<Seq<char>>
    decreases n,
{
    if n <= 0 {
        Seq::empty()
    } else {
        let c = cs[n - 1];
        spec_closer_values(cs, id, key, n - 1) + if spec_attr_or_empty(c, "ID"@) == id && c.contains_key(key) {
            seq![c[key]]
        } else {
            Seq::empty()
        }
    }
}

/// Whether no interstitial before the `k`-th has the same ID: only the first with an ID
/// takes the values of the Date Ranges that close it.
pub open spec fn spec_first_with_id(found: Seq<(int, Attrs)>, k: int) -> bool {
    forall|j: int| 0 <= j < k ==> spec_attr_or_empty(#[trigger] found[j].1, "ID"@) != spec_attr_or_empty(found[k].1, "ID"@)
}

/// Every value of `key` given for the `k`-th interstitial: its own, then those of the
/// Date Ranges that close it.
pub open spec fn spec_candidates(found: Seq<(int, Attrs)>, closers: Seq<Attrs>, k: int, key: Seq<char>) -> Seq<Seq<char>> {
    let m = found[k].1;
    (match spec_attr(m, key) {
        Some(v) => seq![v],
        None => Seq::empty(),
    }) + if spec_first_with_id(found, k) {
        spec_closer_values(closers, spec_attr_or_empty(m, "ID"@), key, closers.len() as int)
    } else {
        Seq::empty()
    }
}

/// The text of an optional string.
pub open spec fn spec_opt_string(o: Option<String>) -> Option<Seq<char>> {
    match o {
        Some(s) => Some(s@),
        None => None,
    }
}

/// The error lines of a list of problems.
pub open spec fn spec_error_lines(ps: Seq<Problem>) -> Seq<Seq<char>> {
    ps.map_values(|p: Problem| p.2)
}

/// Whether `e` lists the `k`-th interstitial found.
pub open spec fn spec_entry_is(e: InterstitialEntry, pls: Seq<PlaylistFacts>, found: Seq<(int, Attrs)>, closers: Seq<Attrs>, k: int) -> bool {
    let p = found[k].0;
    let m = found[k].1;
    let name = pls[p].name@;
    &&& e.playlist == p
    &&& e.rendition@ == name
    &&& e.id@ == spec_attr_or_empty(m, "ID"@)
    &&& e.start_date@ == spec_attr_or_empty(m, "START-DATE"@)
    &&& spec_opt_string(e.asset_uri) == spec_attr(m, "X-ASSET-URI"@)
    &&& spec_opt_string(e.asset_list) == spec_attr(m, "X-ASSET-LIST"@)
    &&& spec_opt_string(e.planned_duration) == spec_attr(m, "PLANNED-DURATION"@)
    &&& spec_opt_string(e.snap) == spec_attr(m, "X-SNAP"@)
    &&& spec_opt_string(e.cue) == spec_attr(m, "X-CUE"@)
    &&& spec_opt_string(e.timeline_style) == spec_attr(m, "X-TIMELINE-STYLE"@)
    &&& spec_texts(e.errors@) == spec_error_lines(spec_problems(m, name))
    &&& spec_texts(e.resume_offsets@) == spec_candidates(found, closers, k, "X-RESUME-OFFSET"@)
    &&& spec_texts(e.playout_limits@) == spec_candidates(found, closers, k, "X-PLAYOUT-LIMIT"@)
}

/// The problems of the first `n` interstitials found, each with its playlist's name.
pub open spec fn spec_interstitial_findings(pls: Seq<PlaylistFacts>, found: Seq<(int, Attrs)>, n: int) -> Seq<(Seq<char>, Problem)>
    decreases n,
{
    if n <= 0 {
        Seq::empty()
    } else {
        let name = pls[found[n - 1].0].name@;
        spec_interstitial_findings(pls, found, n - 1) + spec_problems(found[n - 1].1, name).map_values(
            |p: Problem| (name, p),
        )
    }
}

/// Whether `i` reports problem `p` of an interstitial in playlist `name`.
pub open spec fn spec_interstitial_issue(i: Issue, name: Seq<char>, p: Problem) -> bool {
    &&& i.severity == p.0
    &&& i.check_id == CheckId::Interstitials
    &&& i.confidence == Confidence::Measured
    &&& i.segment_index == -1
    &&& i.rendition_a matches Some(a) && a@ == name
    &&& i.rendition_b is None
    &&& i.uri_a is None
    &&& i.uri_b is None
    &&& i.message@ == p.1
    &&& i.uri_note is None
    &&& i.count == 1
    &&& i.seg_first == -1
    &&& i.seg_last == -1
}

/// Whether `r` reports, in order, the findings `fs`.
pub open spec fn spec_interstitial_issues_are(r: Seq<Issue>, fs: Seq<(Seq<char>, Problem)>) -> bool {
    &&& r.len() == fs.len()
    &&& forall|k: int| 0 <= k < r.len() ==> spec_interstitial_issue(#[trigger] r[k], fs[k].0, fs[k].1)
}

proof fn lemma_findings_prefix(pls: Seq<PlaylistFacts>, f: Seq<(int, Attrs)>, g: Seq<(int, Attrs)>, n: int)
    requires
        0 <= n <= f.len(),
        n <= g.len(),
        forall|j: int| 0 <= j < n ==> f[j] == g[j],
    ensures
        spec_interstitial_findings(pls, f, n) == spec_interstitial_findings(pls, g, n),
    decreases n,
{
    if n > 0 {
        lemma_findings_prefix(pls, f, g, n - 1);
    }
}


pub(crate) fn attr_or_empty(attrs: &TextMap, key: &str) -> (r: String)
    ensures
        r@ == spec_attr_or_empty(attrs@, key@),
{
    match attrs.get(key) {
        Some(v) => v.clone(),
        None => String::new(),
    }
}

pub(crate) fn attr(attrs: &TextMap, key: &str) -> (r: Option<String>)
    ensures
        spec_opt_string(r) == spec_attr(attrs@, key@),
{
    match attrs.get(key) {
        Some(v) => Some(v.clone()),
        None => None,
    }
}

fn closer_values(closers: &Vec<TextMap>, id: &str, key: &str) -> (r: Vec<String>)
    ensures
        spec_texts(r@) == spec_closer_values(spec_maps(closers@), id@, key@, closers@.len() as int),
{
    let mut out: Vec<String> = Vec::new();
    let mut k: usize = 0;
    while k < closers.len()
        invariant
            k <= closers@.len(),
            spec_texts(out@) == spec_closer_values(spec_maps(closers@), id@, key@, k as int),
        decreases closers.len() - k,
    {
        let c = &closers[k];
        proof {
            assert(spec_maps(closers@)[k as int] == c@);
        }
        let cid = attr_or_empty(c, "ID");
        let ghost before = spec_texts(out@);
        if str_equals_text(cid.as_str(), id) {
            if let Some(v) = c.get(key) {
                out.push(v.clone());
                proof {
                    assert(spec_texts(out@) =~= before.push(c@[key@]));
                }
            }
        }
        proof {
            assert(spec_texts(out@) =~= spec_closer_values(spec_maps(closers@), id@, key@, k + 1));
        }
        k = k + 1;
    }
    out
}

fn texts_of_errors(ps: &Vec<(Severity, String, String)>) -> (r: Vec<String>)
    ensures
        r@.len() == ps@.len(),
        forall|k: int| 0 <= k < r@.len() ==> (#[trigger] r@[k])@ == ps@[k].2@,
{
    let mut out: Vec<String> = Vec::new();
    let mut k: usize = 0;
    while k < ps.len()
        invariant
            k <= ps@.len(),
            out@.len() == k,
            forall|j: int| 0 <= j < k ==> (#[trigger] out@[j])@ == ps@[j].2@,
        decreases ps.len() - k,
    {
        out.push(ps[k].2.clone());
        k = k + 1;
    }
    out
}

/// The view of the interstitials found so far, each with its playlist's index.
pub open spec fn spec_found_view(v: Seq<(usize, TextMap)>) -> Seq<(int, Attrs)> {
    v.map_values(|x: (usize, TextMap)| (x.0 as int, x.1@))
}

/// Checks the interstitials of every playlist against rfc8216bis Appendix D and lists
/// them. Each interstitial (see `spec_interstitials_from`) is checked for the problems of
/// `spec_problems`, each reported as a finding about its playlist; each is listed with its
/// attributes, its problems, and the resume offsets and playout limits given for it,
/// those of the Date Ranges that close it (same ID, not interstitials, in any playlist)
/// after its own.
pub fn check_interstitials(playlists: &[PlaylistFacts]) -> (r: (Vec<Issue>, Vec<InterstitialEntry>))
    ensures
        ({
            let found = spec_found(playlists@, playlists@.len() as int);
            let closers = spec_closers(playlists@, playlists@.len() as int);
            &&& spec_interstitial_issues_are(r.0@, spec_interstitial_findings(playlists@, found, found.len() as int))
            &&& r.1@.len() == found.len()
            &&& forall|k: int| 0 <= k < r.1@.len() ==> spec_entry_is(#[trigger] r.1@[k], playlists@, found, closers, k)
        }),
{
    let ghost pls = playlists@;
    let mut issues: Vec<Issue> = Vec::new();
    let mut found: Vec<(usize, TextMap)> = Vec::new();
    let mut p: usize = 0;
    while p < playlists.len()
        invariant
            p <= pls.len(),
            pls == playlists@,
            spec_found_view(found@) == spec_found(pls, p as int),
            forall|j: int| 0 <= j < found@.len() ==> (#[trigger] found@[j]).0 < p,
            spec_interstitial_issues_are(issues@, spec_interstitial_findings(pls, spec_found_view(found@), found@.len() as int)),
        decreases playlists.len() - p,
    {
        let pl = &playlists[p];
        let tags: Vec<TextMap> = if pl.raw_content.unicode_len() > 0 {
            interstitial_tags(pl.raw_content.as_str())
        } else {
            Vec::new()
        };
        let ghost start = spec_found_view(found@);
        proof {
            assert(spec_maps(tags@) =~= spec_pl_interstitials(*pl));
        }
        let mut k: usize = 0;
        while k < tags.len()
            invariant
                k <= tags@.len(),
                pls == playlists@,
                p < pls.len(),
                *pl == pls[p as int],
                spec_maps(tags@) == spec_pl_interstitials(*pl),
                start == spec_found(pls, p as int),
                spec_found_view(found@) == start + spec_maps(tags@).take(k as int).map_values(|m: Attrs| (p as int, m)),
                forall|j: int| 0 <= j < found@.len() ==> (#[trigger] found@[j]).0 <= p,
                spec_interstitial_issues_are(
                    issues@,
                    spec_interstitial_findings(pls, spec_found_view(found@), found@.len() as int),
                ),
            decreases tags.len() - k,
        {
            let t = tags[k].clone();
            proof {
                assert(t@ == spec_maps(tags@)[k as int]);
            }
            let ps = problems(&t, pl.name.as_str());
            let ghost f0 = spec_found_view(found@);
            let ghost n0 = found@.len() as int;
            let mut q: usize = 0;
            let ghost base = issues@;
            while q < ps.len()
                invariant
                    q <= ps@.len(),
                    spec_interstitial_issues_are(base, spec_interstitial_findings(pls, f0, n0)),
                    spec_problems_are(ps@, spec_problems(t@, pl.name@)),
                    issues@.len() == base.len() + q,
                    forall|j: int| 0 <= j < base.len() ==> issues@[j] == base[j],
                    forall|j: int| 0 <= j < q ==> spec_interstitial_issue(
                        #[trigger] issues@[base.len() + j],
                        pl.name@,
                        spec_problems(t@, pl.name@)[j],
                    ),
                decreases ps.len() - q,
            {
                let sev = ps[q].0;
                let message = ps[q].1.clone();
                issues.push(Issue {
                    severity: sev,
                    check_id: CheckId::Interstitials,
                    confidence: Confidence::Measured,
                    segment_index: -1,
                    rendition_a: Some(pl.name.clone()),
                    rendition_b: None,
                    uri_a: None,
                    uri_b: None,
                    message,
                    uri_note: None,
                    count: 1,
                    seg_first: -1,
                    seg_last: -1,
                });
                q = q + 1;
            }
            found.push((p, t));
            proof {
                let f1 = spec_found_view(found@);
                assert(f1 =~= f0.push((p as int, t@)));
                lemma_findings_prefix(pls, f0, f1, n0);
                let expected = spec_interstitial_findings(pls, f1, n0 + 1);
                assert(pls[f1[n0].0].name@ == pl.name@);
                assert(expected =~= spec_interstitial_findings(pls, f0, n0) + spec_problems(t@, pl.name@).map_values(
                    |pr: Problem| (pl.name@, pr),
                ));
                assert(spec_maps(tags@).take(k + 1) =~= spec_maps(tags@).take(k as int).push(t@));
                assert(f1 =~= start + spec_maps(tags@).take(k + 1).map_values(|m: Attrs| (p as int, m)));
                assert forall|j: int| 0 <= j < issues@.len() implies spec_interstitial_issue(
                    #[trigger] issues@[j],
                    expected[j].0,
                    expected[j].1,
                ) by {
                    let old_fs = spec_interstitial_findings(pls, f0, n0);
                    let probs = spec_problems(t@, pl.name@);
                    if j < base.len() {
                        assert(expected[j] == old_fs[j]);
                        assert(issues@[j] == base[j]);
                    } else {
                        let q2 = j - base.len();
                        assert(expected[j] == (pl.name@, probs[q2]));
                        assert(issues@[base.len() + q2] == issues@[j]);
                    }
                }
            }
            k = k + 1;
        }
        proof {
            assert(spec_maps(tags@).take(tags@.len() as int) =~= spec_maps(tags@));
            assert(spec_found(pls, p + 1) == start + spec_pl_interstitials(pls[p as int]).map_values(|m: Attrs| (p as int, m)));
        }
        p = p + 1;
    }
    let ghost all_found = spec_found(pls, pls.len() as int);
    let mut closers: Vec<TextMap> = Vec::new();
    let mut p: usize = 0;
    while p < playlists.len()
        invariant
            p <= pls.len(),
            pls == playlists@,
            spec_maps(closers@) == spec_closers(pls, p as int),
        decreases playlists.len() - p,
    {
        let mut more = other_dateranges(playlists[p].raw_content.as_str());
        proof {
            assert(spec_maps(closers@ + more@) =~= spec_maps(closers@) + spec_maps(more@));
        }
        closers.append(&mut more);
        p = p + 1;
    }
    let ghost all_closers = spec_maps(closers@);
    let mut entries: Vec<InterstitialEntry> = Vec::new();
    let mut k: usize = 0;
    while k < found.len()
        invariant
            k <= found@.len(),
            pls == playlists@,
            spec_found_view(found@) == all_found,
            forall|j: int| 0 <= j < found@.len() ==> (#[trigger] found@[j]).0 < pls.len(),
            all_closers == spec_maps(closers@),
            all_closers == spec_closers(pls, pls.len() as int),
            entries@.len() == k,
            forall|j: int| 0 <= j < k ==> spec_entry_is(#[trigger] entries@[j], pls, all_found, all_closers, j),
        decreases found.len() - k,
    {
        let pi = found[k].0;
        let attrs = &found[k].1;
        proof {
            assert(all_found[k as int] == (pi as int, attrs@));
        }
        let name = playlists[pi].name.as_str();
        let id = attr_or_empty(attrs, "ID");
        let mut first = true;
        let mut j: usize = 0;
        while j < k
            invariant
                j <= k,
                k < found@.len(),
                spec_found_view(found@) == all_found,
                id@ == spec_attr_or_empty(all_found[k as int].1, "ID"@),
                first == (forall|x: int| 0 <= x < j ==> spec_attr_or_empty(#[trigger] all_found[x].1, "ID"@) != id@),
            decreases k - j,
        {
            let other = attr_or_empty(&found[j].1, "ID");
            proof {
                assert(all_found[j as int].1 == found@[j as int].1@);
            }
            if str_equals_text(other.as_str(), id.as_str()) {
                first = false;
            }
            j = j + 1;
        }
        let mut resume_offsets: Vec<String> = Vec::new();
        if let Some(v) = attrs.get("X-RESUME-OFFSET") {
            resume_offsets.push(v.clone());
        }
        let mut playout_limits: Vec<String> = Vec::new();
        if let Some(v) = attrs.get("X-PLAYOUT-LIMIT") {
            playout_limits.push(v.clone());
        }
        let ghost own_resume = spec_texts(resume_offsets@);
        let ghost own_playout = spec_texts(playout_limits@);
        if first {
            let mut more = closer_values(&closers, id.as_str(), "X-RESUME-OFFSET");
            proof {
                assert(spec_texts(resume_offsets@ + more@) =~= spec_texts(resume_offsets@) + spec_texts(more@));
            }
            resume_offsets.append(&mut more);
            let mut more = closer_values(&closers, id.as_str(), "X-PLAYOUT-LIMIT");
            proof {
                assert(spec_texts(playout_limits@ + more@) =~= spec_texts(playout_limits@) + spec_texts(more@));
            }
            playout_limits.append(&mut more);
        }
        let ps = problems(attrs, name);
        let errors = texts_of_errors(&ps);
        let entry = InterstitialEntry {
            playlist: pi,
            rendition: name.to_string(),
            id,
            start_date: attr_or_empty(attrs, "START-DATE"),
            asset_uri: attr(attrs, "X-ASSET-URI"),
            asset_list: attr(attrs, "X-ASSET-LIST"),
            resume_offsets,
            playout_limits,
            planned_duration: attr(attrs, "PLANNED-DURATION"),
            snap: attr(attrs, "X-SNAP"),
            cue: attr(attrs, "X-CUE"),
            timeline_style: attr(attrs, "X-TIMELINE-STYLE"),
            errors,
        };
        proof {
            assert(spec_texts(entry.errors@) =~= spec_error_lines(spec_problems(attrs@, name@)));
            if first {
                assert(spec_first_with_id(all_found, k as int));
            } else {
                assert(!spec_first_with_id(all_found, k as int));
                assert(spec_texts(entry.resume_offsets@) =~= own_resume + Seq::<Seq<char>>::empty());
                assert(spec_texts(entry.playout_limits@) =~= own_playout + Seq::<Seq<char>>::empty());
            }
            assert(own_resume =~= (match spec_attr(attrs@, "X-RESUME-OFFSET"@) {
                Some(v) => seq![v],
                None => Seq::empty(),
            }));
            assert(own_playout =~= (match spec_attr(attrs@, "X-PLAYOUT-LIMIT"@) {
                Some(v) => seq![v],
                None => Seq::empty(),
            }));
            assert(spec_entry_is(entry, pls, all_found, all_closers, k as int));
        }
        entries.push(entry);
        k = k + 1;
    }
    (issues, entries)
}


/// The ID of an interstitial's attributes (the empty text where it has none).
pub open spec fn spec_id_of(m: Attrs) -> Seq<char> {
    spec_attr_or_empty(m, "ID"@)
}

proof fn lemma_ids_from(content: Seq<char>, i: int, seen: Seq<Seq<char>>)
    ensures
        ({
            let r = spec_interstitials_from(content, i, seen);
            &&& forall|k: int| 0 <= k < r.len() && spec_id_of(#[trigger] r[k]).len() > 0 ==> !seen.contains(spec_id_of(r[k]))
            &&& forall|j: int, k: int|
                0 <= j < k < r.len() && spec_id_of(#[trigger] r[j]) == spec_id_of(#[trigger] r[k]) ==> spec_id_of(r[k]).len() == 0
        }),
    decreases content.len() + 1 - i,
{
    if 0 <= i <= content.len() {
        let j = spec_find_from(content, '\n', i);
        lemma_find_from_bounds(content, '\n', i);
        let line = spec_trim(content.subrange(i, j));
        let m = spec_daterange_attrs(line);
        let is_new = m matches Some(a) && spec_is_interstitial(a) && !(spec_attr_or_empty(a, "ID"@).len() > 0
            && seen.contains(spec_attr_or_empty(a, "ID"@)));
        let seen2 = if is_new { seen.push(spec_attr_or_empty(m->0, "ID"@)) } else { seen };
        let r = spec_interstitials_from(content, i, seen);
        if j < content.len() {
            lemma_ids_from(content, j + 1, seen2);
            let rest = spec_interstitials_from(content, j + 1, seen2);
            if is_new {
                let x = spec_id_of(m->0);
                assert(r == seq![m->0] + rest);
                assert forall|k: int| 0 <= k < r.len() && spec_id_of(#[trigger] r[k]).len() > 0 implies !seen.contains(spec_id_of(r[k])) by {
                    if k > 0 {
                        assert(r[k] == rest[k - 1]);
                        if seen.contains(spec_id_of(r[k])) {
                            let w = choose|w: int| 0 <= w < seen.len() && seen[w] == spec_id_of(r[k]);
                            assert(seen2[w] == seen[w]);
                            assert(seen2.contains(spec_id_of(r[k])));
                        }
                    }
                }
                assert forall|a: int, b: int|
                    0 <= a < b < r.len() && spec_id_of(#[trigger] r[a]) == spec_id_of(#[trigger] r[b]) implies spec_id_of(r[b]).len() == 0 by {
                    assert(r[b] == rest[b - 1]);
                    if a == 0 {
                        assert(seen2[seen.len() as int] == x);
                        assert(seen2.contains(x));
                    } else {
                        assert(r[a] == rest[a - 1]);
                    }
                }
            } else {
                assert(r == rest);
            }
        } else {
            if is_new {
                assert(r == seq![m->0]);
            } else {
                assert(r == Seq::<Attrs>::empty());
            }
        }
    }
}

/// An EXT-X-DATERANGE that repeats the ID of an interstitial already seen in the same
/// playlist updates it and is never listed again: within one playlist, no two
/// interstitials listed share an ID, whatever the playlist's text.
pub proof fn lemma_interstitial_ids_are_distinct(content: Seq<char>)
    ensures
        ({
            let r = spec_interstitials_from(content, 0, Seq::empty());
            forall|j: int, k: int|
                0 <= j < k < r.len() && spec_id_of(#[trigger] r[j]).len() > 0 ==> spec_id_of(r[j]) != spec_id_of(#[trigger] r[k])
        }),
{
    lemma_ids_from(content, 0, Seq::empty());
    let r = spec_interstitials_from(content, 0, Seq::empty());
    assert forall|j: int, k: int|
        0 <= j < k < r.len() && spec_id_of(#[trigger] r[j]).len() > 0 implies spec_id_of(r[j]) != spec_id_of(#[trigger] r[k]) by {
        if spec_id_of(r[j]) == spec_id_of(r[k]) {
            assert(spec_id_of(r[k]).len() == 0);
        }
    }
}

/// A later interstitial Date Range that repeats the non-empty ID of one already listed (an
/// update of it, rfc8216bis §D.2) adds no interstitial: the list goes on as if the tag were
/// not there, so it adds no finding either, since the findings are those of the listed
/// interstitials.
pub proof fn lemma_update_tag_adds_nothing(content: Seq<char>, i: int, seen: Seq<Seq<char>>)
    requires
        0 <= i <= content.len(),
        ({
            let j = spec_find_from(content, '\n', i);
            let line = spec_trim(content.subrange(i, j));
            spec_daterange_attrs(line) matches Some(m) && spec_is_interstitial(m)
                && spec_attr_or_empty(m, "ID"@).len() > 0 && seen.contains(spec_attr_or_empty(m, "ID"@))
        }),
    ensures
        ({
            let j = spec_find_from(content, '\n', i);
            spec_interstitials_from(content, i, seen) == if j < content.len() {
                spec_interstitials_from(content, j + 1, seen)
            } else {
                Seq::<Attrs>::empty()
            }
        }),
{
    lemma_find_from_bounds(content, '\n', i);
    let j = spec_find_from(content, '\n', i);
    let rest = if j < content.len() { spec_interstitials_from(content, j + 1, seen) } else { Seq::<Attrs>::empty() };
    assert(Seq::<Attrs>::empty() + rest =~= rest);
}

} // verus!
