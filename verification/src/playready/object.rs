//! The binary framing of a PlayReady Object, and reading each record's WRM header.

use vstd::prelude::*;
use crate::playready::types::{ParseError, PlayReadyPsshData, PlayReadyRecord, PlayReadyRecordType, WRMHeader};
use crate::playready::wrm::{
    read_wrm_events, spec_events_view, spec_header_view, spec_is_wrm_error, spec_read_wrm, EventView,
    WrmError, WrmHeaderView,
};
use crate::playready::xml::{spec_event_view_of, spec_event_xml, spec_xml_events, to_xml_event, write_event, xml_events, XmlEvent};
use quick_xml::events::Event;

verus! {

/// The text that a sequence of UTF-16 code units encodes, or `None` where it holds an
/// unpaired surrogate.
pub open spec fn spec_utf16_decode(s: Seq<u16>) -> Option<Seq<char>>
    decreases s.len(),
{
    if s.len() == 0 {
        Some(Seq::empty())
    } else if s[0] < 0xD800 || s[0] > 0xDFFF {
        match spec_utf16_decode(s.drop_first()) {
            Some(t) => Some(seq![s[0] as char] + t),
            None => None,
        }
    } else if s[0] <= 0xDBFF && s.len() >= 2 && 0xDC00 <= s[1] && s[1] <= 0xDFFF {
        match spec_utf16_decode(s.subrange(2, s.len() as int)) {
            Some(t) => Some(seq![(0x10000 + (s[0] - 0xD800) * 0x400 + (s[1] - 0xDC00)) as char] + t),
            None => None,
        }
    } else {
        None
    }
}

/// `String::from_utf16`: claims, as std documents, that it decodes UTF-16 and fails
/// exactly where the units hold invalid data (an unpaired surrogate).
#[verifier::external_body]
fn utf16_string(units: &Vec<u16>) -> (r: Option<String>)
    ensures
        match r {
            Some(t) => spec_utf16_decode(units@) == Some(t@),
            None => spec_utf16_decode(units@) is None,
        },
{
    String::from_utf16(units).ok()
}

/// The little-endian value of `n` bytes of `s` from `start`.
pub open spec fn spec_le_value(s: Seq<u8>, start: int, n: nat) -> nat
    decreases n,
{
    if n == 0 {
        0
    } else {
        spec_le_value(s, start + 1, (n - 1) as nat) * 256 + s[start] as nat
    }
}

/// The code units of a little-endian UTF-16 byte string.
pub open spec fn spec_le_units(b: Seq<u8>) -> Seq<u16> {
    Seq::new(b.len() / 2, |i: int| (b[2 * i] as int + b[2 * i + 1] as int * 256) as u16)
}

fn le_units(b: &[u8]) -> (r: Vec<u16>)
    requires
        b@.len() % 2 == 0,
    ensures
        r@ == spec_le_units(b@),
{
    let mut r: Vec<u16> = Vec::new();
    let mut i: usize = 0;
    while i < b.len() / 2
        invariant
            i <= b@.len() / 2,
            b@.len() % 2 == 0,
            r@.len() == i,
            forall|k: int| 0 <= k < i ==> r@[k] == spec_le_units(b@)[k],
        decreases b.len() / 2 - i,
    {
        let lo = b[2 * i] as u16;
        let hi = b[2 * i + 1] as u16;
        r.push(lo + hi * 256);
        i = i + 1;
    }
    assert(r@ =~= spec_le_units(b@));
    r
}

/// Why a PlayReady Object cannot be read, as plain values.
pub enum PsshFailure {
    Io,
    Utf16,
    Xml,
    UnknownType(u16),
    UnexpectedDataLength(u32, u32),
    Wrm(WrmError),
}

/// Whether the error `e` is the failure `f`.
pub open spec fn spec_failure_is(e: ParseError, f: PsshFailure) -> bool {
    match f {
        PsshFailure::Io => e is Io,
        PsshFailure::Utf16 => e is Utf16,
        PsshFailure::Xml => e is Xml,
        PsshFailure::UnknownType(t) => e matches ParseError::UnknownType(x) && x == t,
        PsshFailure::UnexpectedDataLength(actual, expected) => e matches ParseError::UnexpectedDataLength { actual: a, expected: x }
            && a == actual && x == expected,
        PsshFailure::Wrm(w) => spec_is_wrm_error(e, w),
    }
}

/// Whether every event of `evs` has XML text that quick_xml writes.
pub open spec fn spec_all_written(evs: Seq<Event<'static>>) -> bool {
    forall|i: int| 0 <= i < evs.len() ==> (#[trigger] spec_event_xml(evs[i])) is Some
}

/// The events as plain values, each with the XML text written for it.
pub open spec fn spec_written(evs: Seq<Event<'static>>) -> Seq<(EventView, Seq<u8>)> {
    evs.map_values(|e: Event<'static>| (spec_event_view_of(e), spec_event_xml(e).unwrap()))
}

/// What reading a WRM header from the XML text `xml` gives: a failure where quick_xml
/// refuses the text or cannot write an event back, else the header that the events make
/// (or the reason they make none).
pub open spec fn spec_wrm_expected(xml: Seq<char>) -> Result<WrmHeaderView, PsshFailure> {
    match spec_xml_events(xml) {
        None => Err(PsshFailure::Xml),
        Some(evs) => if !spec_all_written(evs) {
            Err(PsshFailure::Io)
        } else {
            match spec_read_wrm(spec_written(evs)) {
                Ok(h) => Ok(h),
                Err(e) => Err(PsshFailure::Wrm(e)),
            }
        },
    }
}

/// Whether `r` is the reading `e` of a WRM header.
pub open spec fn spec_wrm_result_is(r: Result<WRMHeader, ParseError>, e: Result<WrmHeaderView, PsshFailure>) -> bool {
    match e {
        Ok(h) => r matches Ok(x) && spec_header_view(x) == h,
        Err(f) => r matches Err(x) && spec_failure_is(x, f),
    }
}

/// Reads a WRM header from its XML text, by quick_xml: every event of the document, each
/// with the XML text quick_xml writes for it, then `read_wrm_events` reads the header
/// from them.
pub fn parse_wrm_header(xml: &str) -> (r: Result<WRMHeader, ParseError>)
    ensures
        spec_wrm_result_is(r, spec_wrm_expected(xml@)),
{
    let evs = match xml_events(xml) {
        Ok(v) => v,
        Err(e) => {
            return Err(ParseError::Xml(e));
        },
    };
    let mut events: Vec<(XmlEvent, Vec<u8>)> = Vec::new();
    let mut i: usize = 0;
    while i < evs.len()
        invariant
            i <= evs@.len(),
            spec_xml_events(xml@) == Some(evs@),
            events@.len() == i,
            forall|k: int| 0 <= k < i ==> (#[trigger] spec_event_xml(evs@[k])) is Some,
            forall|k: int| 0 <= k < i ==> #[trigger] spec_events_view(events@)[k] == spec_written(evs@)[k],
        decreases evs.len() - i,
    {
        let mut raw: Vec<u8> = Vec::new();
        if write_event(&mut raw, &evs[i]).is_err() {
            return Err(ParseError::Io);
        }
        assert(raw@ == spec_event_xml(evs@[i as int]).unwrap());
        let view = to_xml_event(&evs[i]);
        let ghost before = events@;
        events.push((view, raw));
        proof {
            assert forall|k: int| 0 <= k < i + 1 implies #[trigger] spec_events_view(events@)[k] == spec_written(evs@)[k] by {
                if k < i {
                    assert(events@[k] == before[k]);
                    assert(spec_events_view(before)[k] == spec_written(evs@)[k]);
                } else {
                    assert(events@[k] == (view, raw));
                }
            }
        }
        i = i + 1;
    }
    assert(spec_events_view(events@) =~= spec_written(evs@));
    read_wrm_events(events.as_slice())
}

/// The little-endian `u32` at `pos`, or `None` past the end.
fn read_le_u32(data: &[u8], pos: usize) -> (r: Option<u32>)
    ensures
        match r {
            Some(v) => pos + 4 <= data@.len() && v as nat == spec_le_value(data@, pos as int, 4),
            None => pos + 4 > data@.len(),
        },
{
    if pos > data.len() || data.len() - pos < 4 {
        return None;
    }
    let v = data[pos] as u32 + (data[pos + 1] as u32) * 256 + (data[pos + 2] as u32) * 65536
        + (data[pos + 3] as u32) * 16777216;
    proof {
        let s = data@;
        let p = pos as int;
        assert(spec_le_value(s, p + 4, 0) == 0);
        assert(spec_le_value(s, p + 3, 1) == s[p + 3] as nat);
        assert(spec_le_value(s, p + 2, 2) == s[p + 3] as nat * 256 + s[p + 2] as nat);
        assert(spec_le_value(s, p + 1, 3) == (s[p + 3] as nat * 256 + s[p + 2] as nat) * 256 + s[p + 1] as nat);
        assert(spec_le_value(s, p, 4) == ((s[p + 3] as nat * 256 + s[p + 2] as nat) * 256 + s[p + 1] as nat) * 256 + s[p] as nat);
    }
    Some(v)
}

/// The little-endian `u16` at `pos`, or `None` past the end.
fn read_le_u16(data: &[u8], pos: usize) -> (r: Option<u16>)
    ensures
        match r {
            Some(v) => pos + 2 <= data@.len() && v as nat == spec_le_value(data@, pos as int, 2),
            None => pos + 2 > data@.len(),
        },
{
    if pos > data.len() || data.len() - pos < 2 {
        return None;
    }
    proof {
        let s = data@;
        let p = pos as int;
        assert(spec_le_value(s, p + 2, 0) == 0);
        assert(spec_le_value(s, p + 1, 1) == s[p + 1] as nat);
        assert(spec_le_value(s, p, 2) == s[p + 1] as nat * 256 + s[p] as nat);
    }
    Some(data[pos] as u16 + (data[pos + 1] as u16) * 256)
}

/// Where the record at `pos` ends: past its type and length, and past as much of its
/// body as the data holds.
pub open spec fn spec_record_end(data: Seq<u8>, pos: int) -> int {
    let len = spec_le_value(data, pos + 2, 2) as int;
    let avail = data.len() - (pos + 4);
    pos + 4 + if len <= avail { len } else { avail }
}

/// Whether each of `count` records from `pos` on, as far as the framing reaches, has a
/// body of whole UTF-16 code units.
pub open spec fn spec_bodies_even(data: Seq<u8>, pos: int, count: nat) -> bool
    decreases count,
{
    if count == 0 || pos < 0 || pos + 4 > data.len() || spec_le_value(data, pos, 2) != 1 {
        true
    } else {
        (spec_record_end(data, pos) - (pos + 4)) % 2 == 0 && spec_bodies_even(data, spec_record_end(data, pos), (count - 1) as nat)
    }
}

/// What reading `count` records from `pos` on gives: each record's WRM header in turn, or
/// the first failure: a record header cut short, a type other than rights management (1),
/// a body that is not UTF-16, or a WRM header that cannot be read.
pub open spec fn spec_records(data: Seq<u8>, pos: int, count: nat) -> Result<Seq<WrmHeaderView>, PsshFailure>
    decreases count,
{
    if count == 0 {
        Ok(Seq::empty())
    } else if pos < 0 || pos + 2 > data.len() {
        Err(PsshFailure::Io)
    } else if spec_le_value(data, pos, 2) != 1 {
        Err(PsshFailure::UnknownType(spec_le_value(data, pos, 2) as u16))
    } else if pos + 4 > data.len() {
        Err(PsshFailure::Io)
    } else {
        let end = spec_record_end(data, pos);
        match spec_utf16_decode(spec_le_units(data.subrange(pos + 4, end))) {
            None => Err(PsshFailure::Utf16),
            Some(xml) => match spec_wrm_expected(xml) {
                Err(f) => Err(f),
                Ok(h) => match spec_records(data, end, (count - 1) as nat) {
                    Err(f) => Err(f),
                    Ok(rest) => Ok(seq![h] + rest),
                },
            },
        }
    }
}

/// What reading a PlayReady Object gives: its length field must equal the data's length
/// (as a `u32`), then come a record count and the records.
pub open spec fn spec_pssh(data: Seq<u8>) -> Result<Seq<WrmHeaderView>, PsshFailure> {
    if data.len() < 4 {
        Err(PsshFailure::Io)
    } else if spec_le_value(data, 0, 4) != (data.len() as u32) as nat {
        Err(PsshFailure::UnexpectedDataLength(data.len() as u32, spec_le_value(data, 0, 4) as u32))
    } else if data.len() < 6 {
        Err(PsshFailure::Io)
    } else {
        spec_records(data, 6, spec_le_value(data, 4, 2))
    }
}

/// The headers read so far, then what the rest gives.
pub open spec fn spec_prepend(prefix: Seq<WrmHeaderView>, rest: Result<Seq<WrmHeaderView>, PsshFailure>) -> Result<Seq<WrmHeaderView>, PsshFailure> {
    match rest {
        Ok(r) => Ok(prefix + r),
        Err(f) => Err(f),
    }
}

/// The WRM headers of the records.
pub open spec fn spec_record_headers(records: Seq<PlayReadyRecord>) -> Seq<WrmHeaderView> {
    records.map_values(|x: PlayReadyRecord| spec_header_view(x.record_value))
}

/// Whether `r` is the reading `e` of a PlayReady Object.
pub open spec fn spec_pssh_result_is(r: Result<PlayReadyPsshData, ParseError>, e: Result<Seq<WrmHeaderView>, PsshFailure>) -> bool {
    match e {
        Ok(hs) => r matches Ok(d) && spec_record_headers(d.record@) == hs
            && forall|i: int| 0 <= i < d.record@.len() ==> (#[trigger] d.record@[i]).record_type == PlayReadyRecordType::RightsManagement,
        Err(f) => r matches Err(x) && spec_failure_is(x, f),
    }
}

/// Whether `parse_pssh_data` can read `buf` at all: every record body that the framing
/// reaches holds whole UTF-16 code units.
pub open spec fn spec_pssh_readable(buf: Seq<u8>) -> bool {
    buf.len() >= 6 ==> spec_bodies_even(buf, 6, spec_le_value(buf, 4, 2))
}

/// Tells whether `parse_pssh_data` can read `buf`: whether every record body that the
/// framing reaches holds whole UTF-16 code units.
pub fn pssh_is_readable(buf: &[u8]) -> (r: bool)
    ensures
        r == spec_pssh_readable(buf@),
{
    if buf.len() < 6 {
        return true;
    }
    let count = match read_le_u16(buf, 4) {
        Some(v) => v,
        None => return true,
    };
    let mut pos: usize = 6;
    let mut k: u16 = 0;
    while k < count
        invariant
            6 <= pos <= buf@.len(),
            k <= count,
            count == spec_le_value(buf@, 4, 2),
            spec_bodies_even(buf@, 6, count as nat) == spec_bodies_even(buf@, pos as int, (count - k) as nat),
        decreases count - k,
    {
        if buf.len() - pos < 4 {
            return true;
        }
        let t = read_le_u16(buf, pos).unwrap();
        if t != 1 {
            return true;
        }
        let len = read_le_u16(buf, pos + 2).unwrap() as usize;
        let start = pos + 4;
        let avail = buf.len() - start;
        let take = if len <= avail { len } else { avail };
        if take % 2 != 0 {
            return false;
        }
        pos = start + take;
        k = k + 1;
    }
    true
}

/// Reads a PlayReady Object: a little-endian `u32` length that must equal the data's
/// length (as a `u32`), a `u16` record count, then each record: a `u16` type that must be
/// rights management (1), a `u16` length, and that many bytes of UTF-16LE WRM header XML
/// (or as many as the data holds). Each record body must be whole code units.
pub fn parse_pssh_data(buf: &[u8]) -> (r: Result<PlayReadyPsshData, ParseError>)
    requires
        spec_pssh_readable(buf@),
    ensures
        spec_pssh_result_is(r, spec_pssh(buf@)),
{
    let blen = #[verifier::truncate] (buf.len() as u32);
    let length = match read_le_u32(buf, 0) {
        Some(v) => v,
        None => {
            return Err(ParseError::Io);
        },
    };
    if length != blen {
        return Err(ParseError::UnexpectedDataLength { actual: blen, expected: length });
    }
    let count = match read_le_u16(buf, 4) {
        Some(v) => v,
        None => {
            return Err(ParseError::Io);
        },
    };
    let total = buf.len();
    let mut records: Vec<PlayReadyRecord> = Vec::new();
    let mut pos: usize = 6;
    let mut k: u16 = 0;
    while k < count
        invariant
            6 <= pos <= buf@.len(),
            k <= count,
            records@.len() == k,
            forall|i: int| 0 <= i < records@.len() ==> (#[trigger] records@[i]).record_type == PlayReadyRecordType::RightsManagement,
            spec_pssh(buf@) == spec_prepend(spec_record_headers(records@), spec_records(buf@, pos as int, (count - k) as nat)),
            spec_bodies_even(buf@, pos as int, (count - k) as nat),
            count == spec_le_value(buf@, 4, 2),
            buf@.len() >= 6,
            length == blen,
            length as nat == spec_le_value(buf@, 0, 4),
            blen == buf@.len() as u32,
            total == buf@.len(),
        decreases count - k,
    {
        let t = read_le_u16(buf, pos);
        if t.is_none() {
            return Err(ParseError::Io);
        }
        let record_type = t.unwrap();
        assert(pos + 2 <= buf@.len());
        if record_type != 1 {
            return Err(ParseError::UnknownType(record_type));
        }
        let l = read_le_u16(buf, pos + 2);
        if l.is_none() {
            return Err(ParseError::Io);
        }
        let len = l.unwrap() as usize;
        assert(pos + 4 <= buf@.len());
        let start = pos + 4;
        let avail = buf.len() - start;
        let take = if len <= avail { len } else { avail };
        let body = slice_of(buf, start, start + take);
        let units = le_units(body);
        let xml = match utf16_string(&units) {
            Some(x) => x,
            None => {
                return Err(ParseError::Utf16);
            },
        };
        let header = match parse_wrm_header(xml.as_str()) {
            Ok(h) => h,
            Err(e) => {
                return Err(e);
            },
        };
        let ghost before = records@;
        records.push(PlayReadyRecord { record_type: PlayReadyRecordType::RightsManagement, record_value: header });
        proof {
            assert(spec_record_headers(records@) =~= spec_record_headers(before).push(spec_header_view(header)));
            assert(spec_record_headers(before).push(spec_header_view(header)) =~= spec_record_headers(before) + seq![spec_header_view(header)]);
            match spec_records(buf@, (start + take) as int, (count - k - 1) as nat) {
                Ok(rest) => {
                    assert(spec_record_headers(before) + (seq![spec_header_view(header)] + rest)
                        =~= spec_record_headers(records@) + rest);
                },
                Err(_) => {},
            }
        }
        pos = start + take;
        k = k + 1;
    }
    assert(spec_record_headers(records@) + Seq::<WrmHeaderView>::empty() =~= spec_record_headers(records@));
    Ok(PlayReadyPsshData { record: records })
}

fn slice_of(data: &[u8], from: usize, to: usize) -> (r: &[u8])
    requires
        from <= to <= data@.len(),
    ensures
        r@ == data@.subrange(from as int, to as int),
{
    let s = data.split_at(to).0;
    s.split_at(from).1
}

} // verus!
