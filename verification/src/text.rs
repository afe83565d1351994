use vstd::prelude::*;
use vstd::string::StringExecFns;

verus! {

/// Appends one character to a string.
#[verifier::external_body]
pub(crate) fn push_char(s: &mut String, c: char)
    ensures
        final(s)@ == old(s)@.push(c),
{
    s.push(c);
}

/// The lower-case hexadecimal digit of `n`, for `n` below 16.
pub open spec fn spec_hex_digit(n: int) -> char {
    if n < 10 {
        (48 + n) as char
    } else {
        (87 + n) as char
    }
}

/// Two lower-case hexadecimal digits for each byte, most significant first.
pub open spec fn spec_hex(bytes: Seq<u8>) -> Seq<char>
    decreases bytes.len(),
{
    if bytes.len() == 0 {
        Seq::empty()
    } else {
        spec_hex(bytes.drop_last()) + seq![
            spec_hex_digit((bytes.last() / 16) as int),
            spec_hex_digit((bytes.last() % 16) as int),
        ]
    }
}

pub fn hex_digit(n: u8) -> (c: char)
    requires
        n < 16,
    ensures
        c == spec_hex_digit(n as int),
{
    match n {
        0 => '0',
        1 => '1',
        2 => '2',
        3 => '3',
        4 => '4',
        5 => '5',
        6 => '6',
        7 => '7',
        8 => '8',
        9 => '9',
        10 => 'a',
        11 => 'b',
        12 => 'c',
        13 => 'd',
        14 => 'e',
        _ => 'f',
    }
}

/// Appends the lower-case hexadecimal digits of `bytes[start..end]`.
pub fn push_hex(s: &mut String, bytes: &[u8], start: usize, end: usize)
    requires
        start <= end <= bytes@.len(),
    ensures
        final(s)@ == old(s)@ + spec_hex(bytes@.subrange(start as int, end as int)),
{
    let mut i = start;
    proof {
        assert(bytes@.subrange(start as int, start as int) =~= Seq::<u8>::empty());
        assert(s@ =~= old(s)@ + spec_hex(Seq::<u8>::empty()));
    }
    while i < end
        invariant
            start <= i <= end <= bytes@.len(),
            s@ == old(s)@ + spec_hex(bytes@.subrange(start as int, i as int)),
        decreases end - i,
    {
        let b = bytes[i];
        let ghost before = s@;
        push_char(s, hex_digit(b / 16));
        push_char(s, hex_digit(b % 16));
        proof {
            let sub = bytes@.subrange(start as int, i + 1);
            assert(sub.drop_last() =~= bytes@.subrange(start as int, i as int));
            assert(sub.last() == b);
            assert(s@ =~= old(s)@ + spec_hex(sub));
        }
        i = i + 1;
    }
}

/// The decimal digit character of `d`, for `d` below 10.
pub open spec fn spec_digit_char(d: int) -> char {
    (48 + d) as char
}

/// The decimal text of `n`, without leading zeros.
pub open spec fn spec_decimal(n: nat) -> Seq<char>
    decreases n,
{
    if n < 10 {
        seq![spec_digit_char(n as int)]
    } else {
        spec_decimal(n / 10) + seq![spec_digit_char((n % 10) as int)]
    }
}

/// Whether `c` is an ASCII decimal digit.
pub open spec fn spec_is_digit(c: char) -> bool {
    '0' <= c && c <= '9'
}

/// The number that a run of decimal digits writes.
pub open spec fn spec_digits_value(s: Seq<char>) -> nat
    decreases s.len(),
{
    if s.len() == 0 {
        0
    } else {
        spec_digits_value(s.drop_last()) * 10 + ((s.last() as int) - 48) as nat
    }
}

/// The value of an unsigned integer written as an optional `+` and at least one decimal
/// digit, or `None` for any other text.
pub open spec fn spec_unsigned_text(s: Seq<char>) -> Option<nat> {
    let digits = if s.len() > 0 && s[0] == '+' { s.drop_first() } else { s };
    if digits.len() > 0 && forall|i: int| 0 <= i < digits.len() ==> spec_is_digit(#[trigger] digits[i]) {
        Some(spec_digits_value(digits))
    } else {
        None
    }
}

pub proof fn lemma_decimal_digits(n: nat)
    ensures
        spec_decimal(n).len() > 0,
        forall|i: int| 0 <= i < spec_decimal(n).len() ==> spec_is_digit(#[trigger] spec_decimal(n)[i]),
        spec_digits_value(spec_decimal(n)) == n,
        spec_decimal(n)[0] != '+',
    decreases n,
{
    if n >= 10 {
        lemma_decimal_digits(n / 10);
        let s = spec_decimal(n);
        assert(s.drop_last() =~= spec_decimal(n / 10));
        let d = (n % 10) as int;
        assert(spec_digit_char(d) as int == 48 + d);
        assert(s.last() == spec_digit_char(d));
        assert(spec_digits_value(s) == spec_digits_value(s.drop_last()) * 10 + d);
        assert(n == (n / 10) * 10 + d);
    } else {
        let s = spec_decimal(n);
        assert(s.drop_last() =~= Seq::<char>::empty());
        assert(spec_digit_char(n as int) as int == 48 + n);
        assert(spec_digits_value(s) == spec_digits_value(s.drop_last()) * 10 + n);
    }
}

/// Reading back the decimal text of a number gives the number.
pub proof fn lemma_decimal_round_trip(n: nat)
    ensures
        spec_unsigned_text(spec_decimal(n)) == Some(n),
{
    lemma_decimal_digits(n);
}

fn digit_char(d: u64) -> (c: char)
    requires
        d < 10,
    ensures
        c == spec_digit_char(d as int),
{
    match d {
        0 => '0',
        1 => '1',
        2 => '2',
        3 => '3',
        4 => '4',
        5 => '5',
        6 => '6',
        7 => '7',
        8 => '8',
        _ => '9',
    }
}

/// Appends the decimal text of `n`.
pub fn push_decimal(s: &mut String, n: u64)
    ensures
        final(s)@ == old(s)@ + spec_decimal(n as nat),
    decreases n,
{
    if n >= 10 {
        push_decimal(s, n / 10);
    }
    push_char(s, digit_char(n % 10));
    proof {
        if n < 10 {
            assert(n % 10 == n);
        }
    }
}

/// Appends `t`.
pub fn push_str(s: &mut String, t: &str)
    ensures
        final(s)@ == old(s)@ + t@,
{
    s.append(t);
}

/// Whether `c` is white space as Unicode's White_Space property has it.
pub open spec fn spec_is_whitespace(c: char) -> bool {
    ('\t' <= c && c <= '\r') || c == ' ' || c == '\u{85}' || c == '\u{A0}' || c == '\u{1680}'
        || ('\u{2000}' <= c && c <= '\u{200A}') || c == '\u{2028}' || c == '\u{2029}'
        || c == '\u{202F}' || c == '\u{205F}' || c == '\u{3000}'
}

pub fn is_whitespace(c: char) -> (r: bool)
    ensures
        r == spec_is_whitespace(c),
{
    ('\t' <= c && c <= '\r') || c == ' ' || c == '\u{85}' || c == '\u{A0}' || c == '\u{1680}'
        || ('\u{2000}' <= c && c <= '\u{200A}') || c == '\u{2028}' || c == '\u{2029}'
        || c == '\u{202F}' || c == '\u{205F}' || c == '\u{3000}'
}

/// The index of the first character of `s` at or after `i` that is not white space.
pub open spec fn spec_skip_space(s: Seq<char>, i: int) -> int
    decreases s.len() - i,
{
    if i >= s.len() || !spec_is_whitespace(s[i]) {
        i
    } else {
        spec_skip_space(s, i + 1)
    }
}

/// The index just past the last character of `s[lo..j]` that is not white space, or `lo`.
pub open spec fn spec_trim_end_index(s: Seq<char>, lo: int, j: int) -> int
    decreases j - lo,
{
    if j <= lo || !spec_is_whitespace(s[j - 1]) {
        j
    } else {
        spec_trim_end_index(s, lo, j - 1)
    }
}

/// `s` without its leading and trailing white space.
pub open spec fn spec_trim(s: Seq<char>) -> Seq<char> {
    let lo = spec_skip_space(s, 0);
    s.subrange(lo, spec_trim_end_index(s, lo, s.len() as int))
}

pub proof fn lemma_skip_space_bounds(s: Seq<char>, i: int)
    requires
        0 <= i <= s.len(),
    ensures
        i <= spec_skip_space(s, i) <= s.len(),
    decreases s.len() - i,
{
    if i < s.len() && spec_is_whitespace(s[i]) {
        lemma_skip_space_bounds(s, i + 1);
    }
}

pub proof fn lemma_trim_end_bounds(s: Seq<char>, lo: int, j: int)
    requires
        0 <= lo <= j <= s.len(),
    ensures
        lo <= spec_trim_end_index(s, lo, j) <= j,
    decreases j - lo,
{
    if j > lo && spec_is_whitespace(s[j - 1]) {
        lemma_trim_end_bounds(s, lo, j - 1);
    }
}

/// `s` without its leading and trailing white space.
pub fn trim(s: &str) -> (r: &str)
    ensures
        r@ == spec_trim(s@),
{
    let n = s.unicode_len();
    let mut i: usize = 0;
    while i < n && is_whitespace(s.get_char(i))
        invariant
            i <= n,
            n == s@.len(),
            spec_skip_space(s@, i as int) == spec_skip_space(s@, 0),
        decreases n - i,
    {
        i = i + 1;
    }
    let mut j: usize = n;
    while j > i && is_whitespace(s.get_char(j - 1))
        invariant
            i <= j <= n,
            n == s@.len(),
            i == spec_skip_space(s@, 0),
            spec_trim_end_index(s@, i as int, j as int) == spec_trim_end_index(s@, i as int, n as int),
        decreases j - i,
    {
        j = j - 1;
    }
    s.substring_char(i, j)
}

/// Whether `a` sorts before `b` when both are compared from position `i` on: code point
/// by code point, a proper prefix first. From position 0 this is the order of `str`'s
/// `<`, since UTF-8 keeps the order of code points.
pub open spec fn spec_lex_lt_from(a: Seq<char>, b: Seq<char>, i: int) -> bool
    decreases a.len() - i,
{
    if i >= a.len() {
        i < b.len()
    } else if i >= b.len() {
        false
    } else if (a[i] as int) < (b[i] as int) {
        true
    } else if a[i] == b[i] {
        spec_lex_lt_from(a, b, i + 1)
    } else {
        false
    }
}

/// Whether `a` sorts before `b` in the order of `str`'s `<`.
pub open spec fn spec_lex_lt(a: Seq<char>, b: Seq<char>) -> bool {
    spec_lex_lt_from(a, b, 0)
}

/// No text sorts before itself.
pub proof fn lemma_lex_irreflexive(a: Seq<char>, i: int)
    requires
        0 <= i,
    ensures
        !spec_lex_lt_from(a, a, i),
    decreases a.len() - i,
{
    if i < a.len() {
        lemma_lex_irreflexive(a, i + 1);
    }
}

/// The order is transitive.
pub proof fn lemma_lex_transitive(a: Seq<char>, b: Seq<char>, c: Seq<char>, i: int)
    requires
        0 <= i,
        spec_lex_lt_from(a, b, i),
        spec_lex_lt_from(b, c, i),
    ensures
        spec_lex_lt_from(a, c, i),
    decreases a.len() - i,
{
    if i < a.len() && i < b.len() && i < c.len() && a[i] == b[i] && b[i] == c[i] {
        lemma_lex_transitive(a, b, c, i + 1);
    }
}

/// Two texts that agree before `i` and neither of which sorts before the other from `i`
/// on are the same text.
pub proof fn lemma_lex_total(a: Seq<char>, b: Seq<char>, i: int)
    requires
        0 <= i <= a.len(),
        i <= b.len(),
        forall|j: int| 0 <= j < i ==> a[j] == b[j],
        !spec_lex_lt_from(a, b, i),
        !spec_lex_lt_from(b, a, i),
    ensures
        a == b,
    decreases a.len() - i,
{
    if i < a.len() && i < b.len() {
        assert((a[i] as int) == (b[i] as int));
        assert(a[i] == b[i]);
        lemma_lex_total(a, b, i + 1);
    } else {
        assert(a =~= b);
    }
}

/// Whether `a` sorts before `b` in the order of `str`'s `<`.
pub fn str_lex_lt(a: &str, b: &str) -> (r: bool)
    ensures
        r == spec_lex_lt(a@, b@),
{
    let n = a.unicode_len();
    let m = b.unicode_len();
    let mut i: usize = 0;
    while i < n && i < m
        invariant
            i <= n,
            i <= m,
            n == a@.len(),
            m == b@.len(),
            spec_lex_lt_from(a@, b@, i as int) == spec_lex_lt(a@, b@),
        decreases n - i,
    {
        let x = a.get_char(i);
        let y = b.get_char(i);
        if (x as u32) < (y as u32) {
            return true;
        }
        if x != y {
            return false;
        }
        i = i + 1;
    }
    i < m
}

/// Whether `p` occurs in `s` starting at position `i`.
pub open spec fn spec_occurs_at(s: Seq<char>, p: Seq<char>, i: int) -> bool {
    0 <= i && i + p.len() <= s.len() && s.subrange(i, i + p.len()) == p
}

/// Whether `p` occurs anywhere in `s`.
pub open spec fn spec_contains(s: Seq<char>, p: Seq<char>) -> bool {
    exists|i: int| spec_occurs_at(s, p, i)
}

/// Whether `s` begins with `p`.
pub open spec fn spec_starts_with(s: Seq<char>, p: Seq<char>) -> bool {
    spec_occurs_at(s, p, 0)
}

/// Whether `p` occurs in `s` at position `i`.
pub fn occurs_at(s: &str, p: &str, i: usize) -> (r: bool)
    ensures
        r == spec_occurs_at(s@, p@, i as int),
{
    let n = s.unicode_len();
    let m = p.unicode_len();
    if i > n || m > n - i {
        return false;
    }
    let mut j: usize = 0;
    while j < m
        invariant
            j <= m,
            n == s@.len(),
            m == p@.len(),
            i + m <= n,
            forall|k: int| 0 <= k < j ==> s@[i + k] == p@[k],
        decreases m - j,
    {
        if s.get_char(i + j) != p.get_char(j) {
            assert(s@.subrange(i as int, i + m)[j as int] != p@[j as int]);
            return false;
        }
        j = j + 1;
    }
    assert(s@.subrange(i as int, i + m) =~= p@);
    true
}

/// Whether `s` begins with `p`.
pub fn starts_with(s: &str, p: &str) -> (r: bool)
    ensures
        r == spec_starts_with(s@, p@),
{
    occurs_at(s, p, 0)
}

/// Whether `p` occurs anywhere in `s`.
pub fn contains(s: &str, p: &str) -> (r: bool)
    ensures
        r == spec_contains(s@, p@),
{
    let n = s.unicode_len();
    let mut i: usize = 0;
    while i < n
        invariant
            i <= n,
            n == s@.len(),
            forall|k: int| 0 <= k < i ==> !spec_occurs_at(s@, p@, k),
        decreases n - i,
    {
        if occurs_at(s, p, i) {
            return true;
        }
        i = i + 1;
    }
    occurs_at(s, p, n)
}

/// The first position at or after `i` where `s` holds `c`, or the length of `s`.
pub open spec fn spec_find_from(s: Seq<char>, c: char, i: int) -> int
    decreases s.len() - i,
{
    if i >= s.len() {
        s.len() as int
    } else if s[i] == c {
        i
    } else {
        spec_find_from(s, c, i + 1)
    }
}

pub proof fn lemma_find_from_bounds(s: Seq<char>, c: char, i: int)
    requires
        0 <= i <= s.len(),
    ensures
        i <= spec_find_from(s, c, i) <= s.len(),
        spec_find_from(s, c, i) < s.len() ==> s[spec_find_from(s, c, i)] == c,
        forall|k: int| i <= k < spec_find_from(s, c, i) ==> s[k] != c,
    decreases s.len() - i,
{
    if i < s.len() && s[i] != c {
        lemma_find_from_bounds(s, c, i + 1);
    }
}

/// The first position at or after `i` where `s` holds `c`, or the length of `s`.
pub fn find_from(s: &str, c: char, i: usize) -> (r: usize)
    requires
        i <= s@.len(),
    ensures
        r == spec_find_from(s@, c, i as int),
{
    let n = s.unicode_len();
    let mut k = i;
    while k < n
        invariant
            i <= k <= n,
            n == s@.len(),
            spec_find_from(s@, c, k as int) == spec_find_from(s@, c, i as int),
        decreases n - k,
    {
        if s.get_char(k) == c {
            return k;
        }
        k = k + 1;
    }
    k
}

/// Character-by-character equality of two strings.
pub fn str_equals_text(a: &str, b: &str) -> (r: bool)
    ensures
        r == (a@ == b@),
{
    let n = a.unicode_len();
    if n != b.unicode_len() {
        return false;
    }
    let mut i: usize = 0;
    while i < n
        invariant
            i <= n,
            n == a@.len(),
            n == b@.len(),
            forall|j: int| 0 <= j < i ==> a@[j] == b@[j],
        decreases n - i,
    {
        if a.get_char(i) != b.get_char(i) {
            return false;
        }
        i = i + 1;
    }
    assert(a@ =~= b@);
    true
}

/// The text of an optional string slice.
pub open spec fn spec_opt_text(o: Option<&str>) -> Option<Seq<char>> {
    match o {
        Some(s) => Some(s@),
        None => None,
    }
}

} // verus!
