//! The attribute-list grammar of HLS tags and URL resolution.

use vstd::prelude::*;
use vstd::string::StringExecFns;
use crate::text::{
    find_from, is_whitespace, lemma_find_from_bounds, lemma_skip_space_bounds, spec_find_from,
    spec_skip_space, spec_starts_with, spec_trim, starts_with, trim,
};
use crate::validator::text_map::{spec_pairs_map, TextMap};

verus! {

/// What `str::to_uppercase` gives for `s`: Unicode's full upper-case mapping, which takes
/// tables rather than lines to state.
pub uninterp spec fn spec_to_uppercase(s: Seq<char>) -> Seq<char>;

/// `s` in upper case, by `str::to_uppercase`.
#[verifier::external_body]
fn to_uppercase(s: &str) -> (r: String)
    ensures
        r@ == spec_to_uppercase(s@),
{
    s.to_uppercase()
}

/// The first position at or after `i` that does not hold a comma.
pub open spec fn spec_skip_commas(t: Seq<char>, i: int) -> int
    decreases t.len() - i,
{
    if i >= t.len() || t[i] != ',' {
        i
    } else {
        spec_skip_commas(t, i + 1)
    }
}

pub proof fn lemma_skip_commas_bounds(t: Seq<char>, i: int)
    requires
        0 <= i <= t.len(),
    ensures
        i <= spec_skip_commas(t, i) <= t.len(),
    decreases t.len() - i,
{
    if i < t.len() && t[i] == ',' {
        lemma_skip_commas_bounds(t, i + 1);
    }
}

/// One attribute read from position `i` of the attribute text `t`, where `t` holds an `=`
/// at or after `i`: the name (trimmed and upper-cased), the value, and where reading
/// stopped. A quoted value runs to the next quote, or to the end; an unquoted one runs to
/// the next comma, trimmed.
pub open spec fn spec_attr_step(t: Seq<char>, i: int) -> (Seq<char>, Seq<char>, int) {
    let eq = spec_find_from(t, '=', i);
    let key = spec_to_uppercase(spec_trim(t.subrange(i, eq)));
    let v = eq + 1;
    if v < t.len() && t[v] == '"' {
        let end = spec_find_from(t, '"', v + 1);
        (key, t.subrange(v + 1, end), if end + 1 < t.len() { end + 1 } else { t.len() as int })
    } else {
        let comma = spec_find_from(t, ',', v);
        (key, spec_trim(t.subrange(v, comma)), comma)
    }
}

pub proof fn lemma_attr_step_bounds(t: Seq<char>, i: int)
    requires
        0 <= i < t.len(),
        spec_find_from(t, '=', i) < t.len(),
    ensures
        i < spec_attr_step(t, i).2 <= t.len(),
{
    lemma_find_from_bounds(t, '=', i);
    let v = spec_find_from(t, '=', i) + 1;
    if v < t.len() && t[v] == '"' {
        lemma_find_from_bounds(t, '"', v + 1);
    } else {
        lemma_find_from_bounds(t, ',', v);
    }
}

/// Where the next attribute begins once an attribute stopped at `j`: past any commas,
/// then past white space.
pub open spec fn spec_attr_resume(t: Seq<char>, j: int) -> int {
    spec_skip_space(t, spec_skip_commas(t, j))
}

/// The attributes of the trimmed attribute text `t` from position `i` on, in the order
/// they are written. Reading stops at the end of the text or where no `=` is left.
pub open spec fn spec_attr_pairs_from(t: Seq<char>, i: int) -> Seq<(Seq<char>, Seq<char>)>
    decreases t.len() - i,
{
    if i < 0 || i >= t.len() || spec_find_from(t, '=', i) >= t.len() {
        Seq::empty()
    } else {
        let step = spec_attr_step(t, i);
        let next = spec_attr_resume(t, step.2);
        proof {
            lemma_attr_step_bounds(t, i);
            lemma_skip_commas_bounds(t, step.2);
            lemma_skip_space_bounds(t, spec_skip_commas(t, step.2));
        }
        seq![(step.0, step.1)] + spec_attr_pairs_from(t, next)
    }
}

/// The attributes of an attribute list such as `KEY=VALUE,KEY="VALUE"`, in the order they
/// are written.
pub open spec fn spec_attr_pairs(s: Seq<char>) -> Seq<(Seq<char>, Seq<char>)> {
    spec_attr_pairs_from(spec_trim(s), 0)
}

/// Parses an HLS attribute list, `KEY=VALUE,KEY="VALUE",...`, into a map from the
/// upper-cased names to their values. A later value of a name replaces an earlier one.
pub fn parse_attributes(attr_string: &str) -> (r: TextMap)
    ensures
        r@ == spec_pairs_map(spec_attr_pairs(attr_string@)),
{
    let t = trim(attr_string);
    let ghost ts = t@;
    let n = t.unicode_len();
    let mut attrs = TextMap::new();
    let ghost mut done: Seq<(Seq<char>, Seq<char>)> = Seq::empty();
    let mut i: usize = 0;
    while i < n
        invariant
            ts == t@,
            ts == spec_trim(attr_string@),
            n == ts.len(),
            i <= n,
            done + spec_attr_pairs_from(ts, i as int) == spec_attr_pairs(attr_string@),
            attrs@ == spec_pairs_map(done),
        decreases n - i,
    {
        let eq = find_from(t, '=', i);
        if eq >= n {
            assert(done =~= done + spec_attr_pairs_from(ts, i as int));
            return attrs;
        }
        proof {
            lemma_attr_step_bounds(ts, i as int);
            lemma_find_from_bounds(ts, '=', i as int);
        }
        let key = to_uppercase(trim(t.substring_char(i, eq)));
        let v = eq + 1;
        let value: String;
        let stop: usize;
        if v < n && t.get_char(v) == '"' {
            let end = find_from(t, '"', v + 1);
            proof {
                lemma_find_from_bounds(ts, '"', v + 1);
            }
            value = String::from_str(t.substring_char(v + 1, end));
            stop = if end < n && end + 1 < n { end + 1 } else { n };
        } else {
            let comma = find_from(t, ',', v);
            proof {
                lemma_find_from_bounds(ts, ',', v as int);
            }
            value = String::from_str(trim(t.substring_char(v, comma)));
            stop = comma;
        }
        let ghost step = spec_attr_step(ts, i as int);
        assert(key@ == step.0 && value@ == step.1 && stop == step.2);
        let mut k = stop;
        proof {
            lemma_skip_commas_bounds(ts, stop as int);
        }
        while k < n && t.get_char(k) == ','
            invariant
                stop <= k <= n,
                n == ts.len(),
                ts == t@,
                spec_skip_commas(ts, k as int) == spec_skip_commas(ts, stop as int),
            decreases n - k,
        {
            k = k + 1;
        }
        let ghost k0 = k;
        proof {
            lemma_skip_space_bounds(ts, k as int);
        }
        while k < n && is_whitespace(t.get_char(k))
            invariant
                k0 <= k <= n,
                n == ts.len(),
                ts == t@,
                spec_skip_space(ts, k as int) == spec_skip_space(ts, k0 as int),
            decreases n - k,
        {
            k = k + 1;
        }
        let ghost kv = (key@, value@);
        attrs.insert(key, value);
        proof {
            assert(spec_attr_pairs_from(ts, i as int) =~= seq![kv] + spec_attr_pairs_from(ts, k as int));
            assert(done.push(kv).drop_last() =~= done);
            assert(done + spec_attr_pairs_from(ts, i as int) =~= done.push(kv) + spec_attr_pairs_from(ts, k as int));
            done = done.push(kv);
        }
        i = k;
    }
    assert(done =~= done + spec_attr_pairs_from(ts, i as int));
    attrs
}

/// What `url::Url::parse(base)`, then `Url::join(relative)` on the result, then the
/// serialisation of the joined URL, give: the WHATWG resolution of `relative` against
/// `base`, or `None` where `base` is not an absolute URL or the join fails. Its rules take
/// pages, so it is named rather than stated.
pub uninterp spec fn spec_url_join(base: Seq<char>, relative: Seq<char>) -> Option<Seq<char>>;

/// Resolves `relative` against `base` with the `url` crate: `Url::parse`, `Url::join`
/// and `to_string`. The contract claims only that the result is a function of the two
/// texts, named `spec_url_join`.
#[verifier::external_body]
fn url_join(base: &str, relative: &str) -> (r: Option<String>)
    ensures
        match r {
            Some(j) => spec_url_join(base@, relative@) == Some(j@),
            None => spec_url_join(base@, relative@) is None,
        },
{
    match url::Url::parse(base) {
        Ok(b) => match b.join(relative) {
            Ok(joined) => Some(joined.to_string()),
            Err(_) => None,
        },
        Err(_) => None,
    }
}

/// The last position of `s` that holds `c`, if any.
pub open spec fn spec_rfind(s: Seq<char>, c: char, j: int) -> Option<int>
    decreases j,
{
    if j <= 0 {
        None
    } else if s[j - 1] == c {
        Some(j - 1)
    } else {
        spec_rfind(s, c, j - 1)
    }
}

pub fn rfind(s: &str, c: char) -> (r: Option<usize>)
    ensures
        match r {
            Some(p) => spec_rfind(s@, c, s@.len() as int) == Some(p as int),
            None => spec_rfind(s@, c, s@.len() as int) is None,
        },
{
    let mut j = s.unicode_len();
    while j > 0
        invariant
            j <= s@.len(),
            spec_rfind(s@, c, j as int) == spec_rfind(s@, c, s@.len() as int),
        decreases j,
    {
        if s.get_char(j - 1) == c {
            return Some(j - 1);
        }
        j = j - 1;
    }
    None
}

/// Where a URI resolves against a base: the URL resolution where the base is an absolute
/// URL; otherwise an `http://` or `https://` URI as it stands, a relative one put after
/// the base's last `/`, or the URI itself where the base has no `/`.
pub open spec fn spec_resolve_url(base: Seq<char>, relative: Seq<char>) -> Seq<char> {
    match spec_url_join(base, relative) {
        Some(joined) => joined,
        None => if spec_starts_with(relative, "http://"@) || spec_starts_with(relative, "https://"@) {
            relative
        } else {
            match spec_rfind(base, '/', base.len() as int) {
                Some(p) => base.subrange(0, p) + seq!['/'] + relative,
                None => relative,
            }
        },
    }
}

/// Resolves a possibly relative URI against a base URL, as `url::Url::join` does; a base
/// that is not an absolute URL falls back to joining at its last `/`.
pub fn resolve_url(base_url: &str, relative: &str) -> (r: String)
    ensures
        r@ == spec_resolve_url(base_url@, relative@),
{
    if let Some(joined) = url_join(base_url, relative) {
        return joined;
    }
    if starts_with(relative, "http://") || starts_with(relative, "https://") {
        return String::from_str(relative);
    }
    match rfind(base_url, '/') {
        Some(p) => {
            proof {
                lemma_rfind_bounds(base_url@, '/', base_url@.len() as int);
            }
            let mut out = String::from_str(base_url.substring_char(0, p));
            crate::text::push_char(&mut out, '/');
            crate::text::push_str(&mut out, relative);
            out
        },
        None => String::from_str(relative),
    }
}

pub proof fn lemma_rfind_bounds(s: Seq<char>, c: char, j: int)
    requires
        j <= s.len(),
    ensures
        spec_rfind(s, c, j) matches Some(p) ==> 0 <= p < j && s[p] == c,
    decreases j,
{
    if j > 0 && s[j - 1] != c {
        lemma_rfind_bounds(s, c, j - 1);
    }
}

} // verus!
