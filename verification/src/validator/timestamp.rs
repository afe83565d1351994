//! ISO 8601 date-times as EXT-X-PROGRAM-DATE-TIME and Date Ranges write them
//! (`2024-01-15T12:30:45.123Z`, or with a `+hh:mm` offset), read into whole days and
//! seconds from the Unix epoch.
//!
//! The reader slices the text at fixed byte offsets, as `str` indexing does, so a text that
//! holds a multi-byte character where a field boundary falls cannot be read at all; such
//! texts are what `iso8601_is_readable` tells apart.

use vstd::prelude::*;
use vstd::string::StrSliceExecFns;
use vstd::string::StringExecFns;
use vstd::string::StringSliceAdditionalSpecFns;
use vstd::utf8::{
    decode_utf8, encode_utf8, encode_utf8_decode_utf8, encode_utf8_valid_utf8, is_char_boundary,
    is_char_boundary_iff_not_is_continuation_byte, is_char_boundary_start_end_of_seq,
    length_of_first_scalar, pop_first_scalar, valid_utf8, valid_utf8_split,
};
use std::num::ParseIntError;
use crate::query_codec::{parse_u32, spec_u32_text};
use crate::text::{
    find_from, lemma_find_from_bounds, spec_digits_value, spec_find_from, spec_is_digit,
    spec_trim, str_equals_text, trim,
};

verus! {

// ---------------------------------------------------------------------------------------
// Signed integers written as text

/// The value of an `i64` written as text: an optional `+` or `-` and at least one decimal
/// digit, the value fitting; `None` for any other text.
pub open spec fn spec_i64_text(s: Seq<char>) -> Option<i64> {
    if s.len() > 0 && s[0] == '-' {
        let digits = s.drop_first();
        if spec_all_digits(digits) && spec_digits_value(digits) <= 0x8000_0000_0000_0000 {
            Some((0 - spec_digits_value(digits)) as i64)
        } else {
            None
        }
    } else if s.len() > 0 && s[0] == '+' {
        let digits = s.drop_first();
        if spec_all_digits(digits) && spec_digits_value(digits) <= i64::MAX {
            Some(spec_digits_value(digits) as i64)
        } else {
            None
        }
    } else if spec_all_digits(s) && spec_digits_value(s) <= i64::MAX {
        Some(spec_digits_value(s) as i64)
    } else {
        None
    }
}

/// Whether `s` is one or more ASCII decimal digits.
pub open spec fn spec_all_digits(s: Seq<char>) -> bool {
    s.len() > 0 && forall|i: int| 0 <= i < s.len() ==> spec_is_digit(#[trigger] s[i])
}

/// `str::parse::<i64>`: claims, as std documents for signed integers, that it accepts
/// exactly an optional `+` or `-` followed by one or more decimal digits whose value fits,
/// and returns that value.
#[verifier::external_body]
fn parse_i64(s: &str) -> (r: Result<i64, ParseIntError>)
    ensures
        match r {
            Ok(v) => spec_i64_text(s@) == Some(v),
            Err(_) => spec_i64_text(s@) is None,
        },
{
    s.parse::<i64>()
}

/// Ten to the power `n`.
pub open spec fn spec_pow10(n: nat) -> nat
    decreases n,
{
    if n == 0 {
        1
    } else {
        10 * spec_pow10((n - 1) as nat)
    }
}

/// A run of digits writes a number below ten to the power of its length.
pub proof fn lemma_digits_value_bound(s: Seq<char>)
    requires
        forall|i: int| 0 <= i < s.len() ==> spec_is_digit(#[trigger] s[i]),
    ensures
        spec_digits_value(s) < spec_pow10(s.len()),
    decreases s.len(),
{
    if s.len() > 0 {
        let d = s.drop_last();
        assert forall|i: int| 0 <= i < d.len() implies spec_is_digit(#[trigger] d[i]) by {
            assert(d[i] == s[i]);
        }
        lemma_digits_value_bound(d);
        assert(spec_is_digit(s[s.len() - 1]));
    }
}

proof fn lemma_pow10_small(n: nat)
    requires
        n <= 4,
    ensures
        spec_pow10(n) <= 10000,
{
    reveal_with_fuel(spec_pow10, 5);
}

/// A signed number written in at most four characters lies within four decimal digits.
proof fn lemma_short_i64_text(s: Seq<char>)
    requires
        s.len() <= 4,
        spec_i64_text(s) is Some,
    ensures
        -9999 <= spec_i64_text(s).unwrap() <= 9999,
{
    if s.len() > 0 && (s[0] == '-' || s[0] == '+') {
        let digits = s.drop_first();
        lemma_digits_value_bound(digits);
        lemma_pow10_small(digits.len());
    } else {
        lemma_digits_value_bound(s);
        lemma_pow10_small(s.len());
    }
}

// ---------------------------------------------------------------------------------------
// Day numbers

/// `a` divided by `d`, rounded toward zero as integer division does in Rust.
pub open spec fn spec_div_toward_zero(a: int, d: int) -> int {
    if a >= 0 {
        a / d
    } else {
        -((-a) / d)
    }
}

/// The day number, counted from 1970-01-01, of a date of the proleptic Gregorian calendar,
/// by the civil-day formula: the year taken to start in March, 400-year eras of 146097
/// days, and every division rounding toward zero as `i64`'s does.
pub open spec fn spec_days_from_epoch(year: int, month: int, day: int) -> int {
    let y = if month <= 2 { year - 1 } else { year };
    let m = if month <= 2 { month + 12 } else { month };
    let era = spec_div_toward_zero(y, 400);
    let yoe = y - era * 400;
    let doy = (153 * (m - 3) + 2) / 5 + day - 1;
    let doe = yoe * 365 + spec_div_toward_zero(yoe, 4) - spec_div_toward_zero(yoe, 100) + doy;
    era * 146097 + doe - 719468
}

/// Whether `year` is a leap year of the Gregorian calendar.
pub open spec fn spec_is_leap_year(year: int) -> bool {
    year % 4 == 0 && (year % 100 != 0 || year % 400 == 0)
}

/// From the first of March of one year to the first of March of the next there are 366
/// days when the next year is a leap year and 365 otherwise: the day numbers follow the
/// Gregorian calendar, for years from 0 on.
pub proof fn lemma_gregorian_year_length(year: int)
    requires
        0 <= year,
    ensures
        spec_days_from_epoch(year + 1, 3, 1) - spec_days_from_epoch(year, 3, 1) == if spec_is_leap_year(year + 1) {
            366int
        } else {
            365int
        },
{
    let e = year / 400;
    let r = year % 400;
    assert(year == 400 * e + r && 0 <= r < 400);
    assert((year + 1) / 400 == if r == 399 { e + 1 } else { e });
    assert((year + 1) % 4 == (r + 1) % 4);
    assert((year + 1) % 100 == (r + 1) % 100);
    assert((year + 1) % 400 == (r + 1) % 400);
}

fn div_toward_zero(a: i64, d: i64) -> (q: i64)
    requires
        d > 0,
        a > i64::MIN,
    ensures
        q == spec_div_toward_zero(a as int, d as int),
{
    if a >= 0 {
        a / d
    } else {
        -((-a) / d)
    }
}

/// Days from 1970-01-01 to a proleptic Gregorian date.
pub fn days_from_epoch(year: i64, month: u32, day: u32) -> (r: i64)
    requires
        -1_000_000_000_000 <= year <= 1_000_000_000_000,
    ensures
        r == spec_days_from_epoch(year as int, month as int, day as int),
{
    let mut y = year;
    let mut m = month as i64;
    if m <= 2 {
        y = y - 1;
        m = m + 12;
    }
    let era = div_toward_zero(y, 400);
    assert(-2_500_000_001 <= era <= 2_500_000_000) by (nonlinear_arith)
        requires
            era == spec_div_toward_zero(y as int, 400),
            -1_000_000_000_001 <= y <= 1_000_000_000_000,
    ;
    let yoe = y - era * 400;
    assert(-400 < yoe < 400) by (nonlinear_arith)
        requires
            era == spec_div_toward_zero(y as int, 400),
            yoe == y - era * 400,
    ;
    let doy = (153 * (m - 3) + 2) / 5 + day as i64 - 1;
    let doe = yoe * 365 + div_toward_zero(yoe, 4) - div_toward_zero(yoe, 100) + doy;
    era * 146097 + doe - 719468
}

// ---------------------------------------------------------------------------------------
// Slicing text at byte offsets

/// The text between byte offsets `a` and `e` of the UTF-8 bytes `b`, or `None` where either
/// offset falls inside a character or past the end (where slicing a `str` panics).
pub open spec fn spec_piece(b: Seq<u8>, a: int, e: int) -> Option<Seq<char>> {
    if is_char_boundary(b, a) && is_char_boundary(b, e) {
        Some(decode_utf8(b.subrange(a, e)))
    } else {
        None
    }
}

pub open spec fn spec_opt_text(o: Option<&str>) -> Option<Seq<char>> {
    match o {
        Some(s) => Some(s@),
        None => None,
    }
}

/// The text between byte offsets `a` and `e` of `t`, where both fall on character
/// boundaries.
fn piece<'a>(t: &'a str, a: usize, e: usize) -> (r: Option<&'a str>)
    requires
        a <= e,
    ensures
        spec_opt_text(r) == spec_piece(t.spec_bytes(), a as int, e as int),
{
    let ghost b = t.spec_bytes();
    proof {
        encode_utf8_valid_utf8(t@);
    }
    if t.is_char_boundary(a) && t.is_char_boundary(e) {
        assert(e <= b.len());
        let (left, _) = t.split_at(e);
        proof {
            valid_utf8_split(b, e as int);
            let l = b.subrange(0, e as int);
            assert(left.spec_bytes() == l);
            if (a as int) < (e as int) {
                is_char_boundary_iff_not_is_continuation_byte(b, a as int);
                is_char_boundary_iff_not_is_continuation_byte(l, a as int);
                assert(l[a as int] == b[a as int]);
            } else {
                is_char_boundary_start_end_of_seq(l);
            }
        }
        let (_, x) = left.split_at(a);
        proof {
            assert(x.spec_bytes() =~= b.subrange(a as int, e as int));
            encode_utf8_decode_utf8(x@);
        }
        Some(x)
    } else {
        None
    }
}

/// What reading an `i64` from bytes `a` to `e` of `b` gives: `None` where the slice cannot be
/// taken, else the number, if the text is one.
pub open spec fn spec_i64_at(b: Seq<u8>, a: int, e: int) -> Option<Option<i64>> {
    match spec_piece(b, a, e) {
        Some(s) => Some(spec_i64_text(s)),
        None => None,
    }
}

/// What reading a `u32` from bytes `a` to `e` of `b` gives, as for `spec_i64_at`.
pub open spec fn spec_u32_at(b: Seq<u8>, a: int, e: int) -> Option<Option<u32>> {
    match spec_piece(b, a, e) {
        Some(s) => Some(spec_u32_text(s)),
        None => None,
    }
}

fn i64_at(t: &str, a: usize, e: usize) -> (r: Option<Option<i64>>)
    requires
        a <= e,
    ensures
        r == spec_i64_at(t.spec_bytes(), a as int, e as int),
{
    match piece(t, a, e) {
        None => None,
        Some(x) => match parse_i64(x) {
            Ok(v) => Some(Some(v)),
            Err(_) => Some(None),
        },
    }
}

fn u32_at(t: &str, a: usize, e: usize) -> (r: Option<Option<u32>>)
    requires
        a <= e,
    ensures
        r == spec_u32_at(t.spec_bytes(), a as int, e as int),
{
    match piece(t, a, e) {
        None => None,
        Some(x) => match parse_u32(x) {
            Ok(v) => Some(Some(v)),
            Err(_) => Some(None),
        },
    }
}

// ---------------------------------------------------------------------------------------
// The parts after the seconds

/// The index of the first character of `s` at or after `i` that is not an ASCII digit, or
/// the length of `s`.
pub open spec fn spec_digits_end(s: Seq<char>, i: int) -> int
    decreases s.len() - i,
{
    if i >= s.len() || !spec_is_digit(s[i]) {
        i
    } else {
        spec_digits_end(s, i + 1)
    }
}

proof fn lemma_digits_end_bounds(s: Seq<char>, i: int)
    requires
        0 <= i <= s.len(),
    ensures
        i <= spec_digits_end(s, i) <= s.len(),
    decreases s.len() - i,
{
    if i < s.len() && spec_is_digit(s[i]) {
        lemma_digits_end_bounds(s, i + 1);
    }
}

/// The length of the fraction of a second that opens `r`: a `.` and the digits after it,
/// or nothing when `r` does not open with `.`.
pub open spec fn spec_fraction_len(r: Seq<char>) -> int {
    if r.len() > 0 && r[0] == '.' {
        spec_digits_end(r, 1)
    } else {
        0
    }
}

fn fraction_len(r: &str) -> (k: usize)
    ensures
        k == spec_fraction_len(r@),
        k <= r@.len(),
{
    let n = r.unicode_len();
    if n > 0 && r.get_char(0) == '.' {
        let mut i: usize = 1;
        while i < n && ('0' <= r.get_char(i) && r.get_char(i) <= '9')
            invariant
                1 <= i <= n,
                n == r@.len(),
                spec_digits_end(r@, i as int) == spec_digits_end(r@, 1),
            decreases n - i,
        {
            i = i + 1;
        }
        i
    } else {
        0
    }
}

/// The number a text writes as an `i64`, or zero when it writes none.
pub open spec fn spec_or_zero(o: Option<i64>) -> int {
    match o {
        Some(v) => v as int,
        None => 0,
    }
}

fn or_zero(r: Result<i64, ParseIntError>) -> (v: i64)
    ensures
        v == spec_or_zero(
            match r {
                Ok(x) => Some(x),
                Err(_) => None,
            },
        ),
{
    match r {
        Ok(x) => x,
        Err(_) => 0,
    }
}

/// The hours and minutes of an offset, read from the text after its sign: `hh:mm` split at
/// colons, else the four bytes `hhmm`, else hours alone; a part that is not a number counts
/// as zero. `None` where the four bytes would be cut inside a character.
pub open spec fn spec_offset_parts(tz: Seq<char>) -> Option<(int, int)> {
    let c1 = spec_find_from(tz, ':', 0);
    if c1 < tz.len() {
        let c2 = spec_find_from(tz, ':', c1 + 1);
        Some(
            (
                spec_or_zero(spec_i64_text(tz.subrange(0, c1))),
                spec_or_zero(spec_i64_text(tz.subrange(c1 + 1, c2))),
            ),
        )
    } else if encode_utf8(tz).len() >= 4 {
        match (spec_piece(encode_utf8(tz), 0, 2), spec_piece(encode_utf8(tz), 2, 4)) {
            (Some(h), Some(m)) => Some((spec_or_zero(spec_i64_text(h)), spec_or_zero(spec_i64_text(m)))),
            _ => None,
        }
    } else {
        Some((spec_or_zero(spec_i64_text(tz)), 0))
    }
}

fn offset_parts(tz: &str) -> (r: Option<(i64, i64)>)
    ensures
        match (r, spec_offset_parts(tz@)) {
            (Some((h, m)), Some((sh, sm))) => h == sh && m == sm,
            (None, None) => true,
            _ => false,
        },
{
    let n = tz.unicode_len();
    let c1 = find_from(tz, ':', 0);
    proof {
        lemma_find_from_bounds(tz@, ':', 0);
    }
    if c1 < n {
        let c2 = find_from(tz, ':', c1 + 1);
        proof {
            lemma_find_from_bounds(tz@, ':', c1 + 1);
        }
        let h = or_zero(parse_i64(tz.substring_char(0, c1)));
        let m = or_zero(parse_i64(tz.substring_char(c1 + 1, c2)));
        Some((h, m))
    } else if tz.as_bytes().len() >= 4 {
        let hp = piece(tz, 0, 2);
        let mp = piece(tz, 2, 4);
        match (hp, mp) {
            (Some(h), Some(m)) => Some((or_zero(parse_i64(h)), or_zero(parse_i64(m)))),
            _ => None,
        }
    } else {
        Some((or_zero(parse_i64(tz)), 0))
    }
}

/// Whether `v` fits an `i64`.
pub open spec fn spec_in_i64(v: int) -> bool {
    i64::MIN <= v <= i64::MAX
}

/// The offset from UTC, in seconds east, that the text after the time of day gives: zero
/// for nothing, `Z` or text that opens with neither sign; else the signed hours and minutes.
/// `None` where reading it cuts a character or overflows `i64` on the way.
pub open spec fn spec_tz_offset(r: Seq<char>) -> Option<int> {
    if r.len() == 0 || r == "Z"@ {
        Some(0)
    } else if r[0] == '+' || r[0] == '-' {
        match spec_offset_parts(r.drop_first()) {
            None => None,
            Some((h, m)) => {
                let v = h * 3600 + m * 60;
                if !(spec_in_i64(h * 3600) && spec_in_i64(m * 60) && spec_in_i64(v)) {
                    None
                } else if r[0] == '-' {
                    if spec_in_i64(-v) {
                        Some(-v)
                    } else {
                        None
                    }
                } else {
                    Some(v)
                }
            },
        }
    } else {
        Some(0)
    }
}

pub open spec fn spec_opt_int(o: Option<i64>) -> Option<int> {
    match o {
        Some(v) => Some(v as int),
        None => None,
    }
}

fn tz_offset(r: &str) -> (o: Option<i64>)
    ensures
        spec_opt_int(o) == spec_tz_offset(r@),
{
    let n = r.unicode_len();
    if n == 0 || str_equals_text(r, "Z") {
        return Some(0);
    }
    let c = r.get_char(0);
    if c == '+' || c == '-' {
        let tz = r.substring_char(1, n);
        assert(tz@ == r@.drop_first());
        match offset_parts(tz) {
            None => None,
            Some((h, m)) => {
                let hs = match h.checked_mul(3600) {
                    Some(v) => v,
                    None => return None,
                };
                let ms = match m.checked_mul(60) {
                    Some(v) => v,
                    None => return None,
                };
                let v = match hs.checked_add(ms) {
                    Some(v) => v,
                    None => return None,
                };
                if c == '-' {
                    if v == i64::MIN {
                        None
                    } else {
                        Some(-v)
                    }
                } else {
                    Some(v)
                }
            },
        }
    } else {
        Some(0)
    }
}

// ---------------------------------------------------------------------------------------
// Reading a date-time

/// A date-time as read: the day number from 1970-01-01, the time of day as written, the
/// fraction of a second as written (`.` and its digits, or nothing), and the offset from
/// UTC in seconds east.
pub struct Iso8601Time {
    pub days: i64,
    pub hour: u32,
    pub minute: u32,
    pub second: u32,
    pub fraction: String,
    pub tz_offset: i64,
}

impl View for Iso8601Time {
    type V = (int, u32, u32, u32, Seq<char>, int);

    open spec fn view(&self) -> (int, u32, u32, u32, Seq<char>, int) {
        (self.days as int, self.hour, self.minute, self.second, self.fraction@, self.tz_offset as int)
    }
}

impl Iso8601Time {
    /// The whole seconds from the Unix epoch to this instant in UTC.
    pub open spec fn spec_epoch_seconds(self) -> int {
        self.days * 86400 + self.hour * 3600 + self.minute * 60 + self.second - self.tz_offset
    }

    /// The whole seconds from the Unix epoch to this instant in UTC: the fraction of a
    /// second aside.
    pub fn epoch_seconds(&self) -> (r: i128)
        ensures
            r == self.spec_epoch_seconds(),
    {
        self.days as i128 * 86400 + self.hour as i128 * 3600 + self.minute as i128 * 60
            + self.second as i128 - self.tz_offset as i128
    }
}

/// The date and time fields of the UTF-8 bytes `b`: year, month, day, hour, minute and
/// second at their fixed offsets, read in that order. `None` where a slice cannot be taken
/// before a field fails to read, `Some(None)` where a field is not a number.
pub open spec fn spec_date_fields(b: Seq<u8>) -> Option<Option<(i64, u32, u32, u32, u32, u32)>> {
    match spec_i64_at(b, 0, 4) {
        None => None,
        Some(None) => Some(None),
        Some(Some(year)) => match spec_u32_at(b, 5, 7) {
            None => None,
            Some(None) => Some(None),
            Some(Some(month)) => match spec_u32_at(b, 8, 10) {
                None => None,
                Some(None) => Some(None),
                Some(Some(day)) => match spec_u32_at(b, 11, 13) {
                    None => None,
                    Some(None) => Some(None),
                    Some(Some(hour)) => match spec_u32_at(b, 14, 16) {
                        None => None,
                        Some(None) => Some(None),
                        Some(Some(minute)) => match spec_u32_at(b, 17, 19) {
                            None => None,
                            Some(None) => Some(None),
                            Some(Some(second)) => Some(Some((year, month, day, hour, minute, second))),
                        },
                    },
                },
            },
        },
    }
}

/// Reading the trimmed text `t` as a date-time: `None` where reading it would slice inside a
/// character or overflow the offset arithmetic, `Some(None)` where it is no date-time (under
/// 19 bytes, or a field that is not a number), else the date-time read.
pub open spec fn spec_iso8601_reading(t: Seq<char>) -> Option<Option<(int, u32, u32, u32, Seq<char>, int)>> {
    let b = encode_utf8(t);
    if b.len() < 19 {
        Some(None)
    } else {
        match spec_date_fields(b) {
            None => None,
            Some(None) => Some(None),
            Some(Some((year, month, day, hour, minute, second))) => if !is_char_boundary(b, 19) {
                None
            } else {
                let r = decode_utf8(b.subrange(19, b.len() as int));
                let k = spec_fraction_len(r);
                match spec_tz_offset(r.subrange(k, r.len() as int)) {
                    None => None,
                    Some(tz) => Some(
                        Some(
                            (
                                spec_days_from_epoch(year as int, month as int, day as int),
                                hour,
                                minute,
                                second,
                                r.subrange(0, k),
                                tz,
                            ),
                        ),
                    ),
                }
            },
        }
    }
}

pub open spec fn spec_reading_is(
    r: Option<Option<Iso8601Time>>,
    e: Option<Option<(int, u32, u32, u32, Seq<char>, int)>>,
) -> bool {
    match (r, e) {
        (None, None) => true,
        (Some(None), Some(None)) => true,
        (Some(Some(t)), Some(Some(v))) => t@ == v,
        _ => false,
    }
}

fn read_iso8601(s: &str) -> (r: Option<Option<Iso8601Time>>)
    ensures
        spec_reading_is(r, spec_iso8601_reading(spec_trim(s@))),
{
    let t = trim(s);
    let n = t.as_bytes().len();
    let ghost b = t.spec_bytes();
    proof {
        encode_utf8_valid_utf8(t@);
        is_char_boundary_start_end_of_seq(b);
    }
    if n < 19 {
        return Some(None);
    }
    let year = match i64_at(t, 0, 4) {
        None => return None,
        Some(None) => return Some(None),
        Some(Some(v)) => v,
    };
    let month = match u32_at(t, 5, 7) {
        None => return None,
        Some(None) => return Some(None),
        Some(Some(v)) => v,
    };
    let day = match u32_at(t, 8, 10) {
        None => return None,
        Some(None) => return Some(None),
        Some(Some(v)) => v,
    };
    let hour = match u32_at(t, 11, 13) {
        None => return None,
        Some(None) => return Some(None),
        Some(Some(v)) => v,
    };
    let minute = match u32_at(t, 14, 16) {
        None => return None,
        Some(None) => return Some(None),
        Some(Some(v)) => v,
    };
    let second = match u32_at(t, 17, 19) {
        None => return None,
        Some(None) => return Some(None),
        Some(Some(v)) => v,
    };
    proof {
        let ys = decode_utf8(b.subrange(0, 4));
        assert(is_char_boundary(b, 4));
        valid_utf8_split(b, 4);
        lemma_decode_len(b.subrange(0, 4));
        lemma_short_i64_text(ys);
    }
    let rest = match piece(t, 19, n) {
        None => return None,
        Some(x) => x,
    };
    let rn = rest.unicode_len();
    let k = fraction_len(rest);
    let fraction = rest.substring_char(0, k).to_string();
    let tz = match tz_offset(rest.substring_char(k, rn)) {
        None => return None,
        Some(v) => v,
    };
    let days = days_from_epoch(year, month, day);
    Some(Some(Iso8601Time { days, hour, minute, second, fraction, tz_offset: tz }))
}

/// Decoding never yields more characters than there are bytes.
proof fn lemma_decode_len(bytes: Seq<u8>)
    requires
        valid_utf8(bytes),
    ensures
        decode_utf8(bytes).len() <= bytes.len(),
    decreases bytes.len(),
{
    if bytes.len() > 0 {
        let rest = pop_first_scalar(bytes);
        assert(1 <= length_of_first_scalar(bytes) <= bytes.len());
        assert(rest.len() == bytes.len() - length_of_first_scalar(bytes));
        lemma_decode_len(rest);
    }
}

/// Whether reading `s` as a date-time is defined: the text is sliced only on character
/// boundaries and its offset fits an `i64` on the way.
pub open spec fn spec_iso8601_readable(s: Seq<char>) -> bool {
    spec_iso8601_reading(spec_trim(s)) is Some
}

/// Tells whether `parse_iso8601` can read `s` at all: whether every slice that reading it
/// takes falls on a character boundary and the offset arithmetic stays within `i64`.
pub fn iso8601_is_readable(s: &str) -> (r: bool)
    ensures
        r == spec_iso8601_readable(s@),
{
    read_iso8601(s).is_some()
}

/// Reads an ISO 8601 date-time (`2024-01-15T12:30:45.123Z`, or with a `+hh:mm` offset)
/// after trimming white space: `None` when it is shorter than 19 bytes or a date or time
/// field is not a number.
pub fn parse_iso8601(s: &str) -> (r: Option<Iso8601Time>)
    requires
        spec_iso8601_readable(s@),
    ensures
        match spec_iso8601_reading(spec_trim(s@)) {
            Some(Some(v)) => r matches Some(t) && t@ == v,
            _ => r is None,
        },
{
    match read_iso8601(s) {
        Some(x) => x,
        None => None,
    }
}

} // verus!
