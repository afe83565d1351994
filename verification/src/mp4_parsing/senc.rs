use vstd::prelude::*;
use crate::bytes::{be_value, read_u16, read_u32, BoxBody, DecodeError, FourCC, Unsupported};
use crate::text::{push_char, push_hex, spec_hex};

verus! {

/// SampleEncryptionBox, ISO/IEC 23001-7:2016 Sect 7.2.
#[derive(Debug, Clone, PartialEq, Eq)]
pub struct Senc {
    pub entries: Vec<SencEntry>,
}

#[derive(Debug, Clone, PartialEq, Eq)]
pub struct SencEntry {
    pub initialization_vector: String,
    pub subsample_encryption: Vec<SencSubsampleEntry>,
}

#[derive(Debug, Clone, Copy, PartialEq, Eq, Structural)]
pub struct SencSubsampleEntry {
    pub bytes_of_clear_data: u16,
    pub bytes_of_protected_data: u32,
}

/// The most samples, and the most subsamples of one sample, that a body may announce.
pub const MAX_ENTRIES: u32 = 4096;

/// An entry as plain values: the IV as text and each subsample's two byte counts.
pub type SencEntryView = (Seq<char>, Seq<(u16, u32)>);

pub open spec fn spec_subsample_view(s: Seq<SencSubsampleEntry>) -> Seq<(u16, u32)> {
    s.map_values(|e: SencSubsampleEntry| (e.bytes_of_clear_data, e.bytes_of_protected_data))
}

pub open spec fn spec_entry_view(e: SencEntry) -> SencEntryView {
    (e.initialization_vector@, spec_subsample_view(e.subsample_encryption@))
}

pub open spec fn spec_entries_view(s: Seq<SencEntry>) -> Seq<SencEntryView> {
    s.map_values(|e: SencEntry| spec_entry_view(e))
}

/// How an IV of `size` bytes at `pos` is written: "0" when there is none, else "0x" and
/// its bytes in lower-case hexadecimal.
pub open spec fn spec_iv_text(b: Seq<u8>, pos: int, size: int) -> Seq<char> {
    if size == 0 {
        seq!['0']
    } else {
        seq!['0', 'x'] + spec_hex(b.subrange(pos, pos + size))
    }
}

/// The subsample list at `pos`: a 16-bit count, then six bytes per subsample. Gives the
/// subsamples and where they end.
pub open spec fn spec_subsamples(b: Seq<u8>, pos: int) -> Result<(Seq<(u16, u32)>, int), DecodeError> {
    if pos + 2 > b.len() {
        Err(DecodeError::OutOfBounds)
    } else {
        let n = be_value(b, pos, 2);
        if n > MAX_ENTRIES {
            Err(DecodeError::OutOfMemory)
        } else if pos + 2 + 6 * n > b.len() {
            Err(DecodeError::OutOfBounds)
        } else {
            Ok(
                (
                    Seq::new(
                        n,
                        |i: int|
                            (
                                be_value(b, pos + 2 + 6 * i, 2) as u16,
                                be_value(b, pos + 4 + 6 * i, 4) as u32,
                            ),
                    ),
                    pos + 2 + 6 * n,
                ),
            )
        }
    }
}

/// Reads `n` entries from `pos`, each an IV of `iv_size` bytes and its subsample list.
pub open spec fn spec_entries_with(b: Seq<u8>, pos: int, n: nat, iv_size: int) -> Result<
    (Seq<SencEntryView>, int),
    DecodeError,
>
    decreases n,
{
    if n == 0 {
        Ok((Seq::empty(), pos))
    } else if pos + iv_size > b.len() {
        Err(DecodeError::OutOfBounds)
    } else {
        match spec_subsamples(b, pos + iv_size) {
            Err(e) => Err(e),
            Ok((subs, next)) => match spec_entries_with(b, next, (n - 1) as nat, iv_size) {
                Err(e) => Err(e),
                Ok((rest, end)) => Ok(
                    (seq![(spec_iv_text(b, pos, iv_size), subs)] + rest, end),
                ),
            },
        }
    }
}

/// Whether reading the entries with IVs of `iv_size` bytes uses up the body exactly.
pub open spec fn spec_attempt_fits(b: Seq<u8>, n: nat, iv_size: int) -> bool {
    spec_entries_with(b, 8, n, iv_size) matches Ok((_, end)) && end == b.len()
}

/// The entries that IVs of `iv_size` bytes give, when they fit.
pub open spec fn spec_attempt(b: Seq<u8>, n: nat, iv_size: int) -> Seq<SencEntryView> {
    match spec_entries_with(b, 8, n, iv_size) {
        Ok((s, _)) => s,
        Err(_) => Seq::empty(),
    }
}

/// The IV size that subsample encryption uses: the first of 0, 8 and 16 bytes with which
/// the entries use up the body, or none.
pub open spec fn spec_subsample_iv_size(b: Seq<u8>, n: nat) -> Option<int> {
    if spec_attempt_fits(b, n, 0) {
        Some(0)
    } else if spec_attempt_fits(b, n, 8) {
        Some(8)
    } else if spec_attempt_fits(b, n, 16) {
        Some(16)
    } else {
        None
    }
}

pub open spec fn spec_sample_count(b: Seq<u8>) -> nat {
    be_value(b, 4, 4)
}

pub open spec fn spec_uses_subsamples(b: Seq<u8>) -> bool {
    b[3] & 2 == 2
}

/// Without subsample encryption every entry is an IV of the same size, which is what the
/// bytes after the count divide into.
pub open spec fn spec_plain_iv_size(b: Seq<u8>) -> int {
    (b.len() - 8) / (spec_sample_count(b) as int)
}

impl BoxBody for Senc {
    open spec fn spec_kind() -> FourCC {
        FourCC(0x73656e63)
    }

    /// Without subsample encryption the IV size comes from dividing the bytes left by the
    /// sample count, which is not defined for a count of zero.
    open spec fn spec_defined(b: Seq<u8>) -> bool {
        b.len() >= 8 && !spec_uses_subsamples(b) && spec_sample_count(b) <= MAX_ENTRIES
            ==> spec_sample_count(b) != 0
    }

    open spec fn spec_error(b: Seq<u8>) -> Option<DecodeError> {
        if b.len() < 8 {
            Some(DecodeError::OutOfBounds)
        } else if spec_sample_count(b) > MAX_ENTRIES {
            Some(DecodeError::OutOfMemory)
        } else if spec_uses_subsamples(b) {
            if spec_subsample_iv_size(b, spec_sample_count(b)) is Some {
                None
            } else {
                Some(DecodeError::Unsupported(Unsupported::IvSize))
            }
        } else {
            let size = spec_plain_iv_size(b);
            if size == 0 || size == 8 || size == 16 {
                None
            } else {
                Some(DecodeError::Unsupported(Unsupported::IvSize))
            }
        }
    }

    open spec fn spec_read(b: Seq<u8>) -> nat {
        if spec_uses_subsamples(b) {
            b.len()
        } else {
            (8 + spec_sample_count(b) * spec_plain_iv_size(b)) as nat
        }
    }

    open spec fn spec_decodes_to(b: Seq<u8>, v: Senc) -> bool {
        let n = spec_sample_count(b);
        if spec_uses_subsamples(b) {
            spec_entries_view(v.entries@) == spec_attempt(
                b,
                n,
                spec_subsample_iv_size(b, n)->0,
            )
        } else {
            let size = spec_plain_iv_size(b);
            if size == 0 {
                v.entries@.len() == 0
            } else {
                spec_entries_view(v.entries@) == Seq::new(
                    n,
                    |i: int| (spec_iv_text(b, 8 + size * i, size), Seq::<(u16, u32)>::empty()),
                )
            }
        }
    }

    fn kind() -> (k: FourCC) {
        FourCC(0x73656e63)
    }

    fn decode_body(data: &[u8]) -> (r: Result<(Senc, usize), DecodeError>) {
        let flags = read_u32(data, 0)?;
        let count = read_u32(data, 4)?;
        if count > MAX_ENTRIES {
            return Err(DecodeError::OutOfMemory);
        }
        if data[3] & 2 == 2 {
            let mut size: usize = 0;
            while size <= 16
                invariant
                    data@.len() >= 8,
                    count == spec_sample_count(data@),
                    count <= MAX_ENTRIES,
                    spec_uses_subsamples(data@),
                    size == 0 || size == 8 || size == 16 || size == 24,
                    size >= 8 ==> !spec_attempt_fits(data@, count as nat, 0),
                    size >= 16 ==> !spec_attempt_fits(data@, count as nat, 8),
                    size >= 24 ==> !spec_attempt_fits(data@, count as nat, 16),
                decreases 24 - size,
            {
                match decode_entries_with(data, count, size) {
                    Some(entries) => {
                        return Ok((Senc { entries }, data.len()));
                    },
                    None => {},
                }
                size = size + 8;
            }
            Err(DecodeError::Unsupported(Unsupported::IvSize))
        } else {
            let size = (data.len() - 8) / (count as usize);
            if size == 0 {
                Ok((Senc { entries: Vec::new() }, 8))
            } else if size == 8 || size == 16 {
                let entries = decode_plain_entries(data, count, size);
                proof {
                    assert(size * count <= data@.len() - 8) by (nonlinear_arith)
                        requires
                            size == (data@.len() - 8) / (count as int),
                            count > 0,
                            data@.len() >= 8,
                    ;
                }
                Ok((Senc { entries }, 8 + count as usize * size))
            } else {
                Err(DecodeError::Unsupported(Unsupported::IvSize))
            }
        }
    }
}

/// The IV text of `size` bytes at `pos`.
fn iv_text(data: &[u8], pos: usize, size: usize) -> (r: String)
    requires
        pos + size <= data.len(),
    ensures
        r@ == spec_iv_text(data@, pos as int, size as int),
{
    let mut s = String::new();
    if size == 0 {
        push_char(&mut s, '0');
    } else {
        push_char(&mut s, '0');
        push_char(&mut s, 'x');
        push_hex(&mut s, data, pos, pos + size);
    }
    s
}

/// The subsample list at `pos`, as [`spec_subsamples`] reads it.
fn decode_subsamples(data: &[u8], pos: usize) -> (r: Result<(Vec<SencSubsampleEntry>, usize), DecodeError>)
    requires
        pos <= data@.len(),
    ensures
        match r {
            Ok((v, end)) => spec_subsamples(data@, pos as int) == Ok::<(Seq<(u16, u32)>, int), DecodeError>(
                (spec_subsample_view(v@), end as int),
            ),
            Err(e) => spec_subsamples(data@, pos as int) == Err::<(Seq<(u16, u32)>, int), DecodeError>(e),
        },
{
    let n = read_u16(data, pos)?;
    if n as u32 > MAX_ENTRIES {
        return Err(DecodeError::OutOfMemory);
    }
    if data.len() - pos - 2 < 6 * n as usize {
        return Err(DecodeError::OutOfBounds);
    }
    let mut out: Vec<SencSubsampleEntry> = Vec::new();
    let mut i: u16 = 0;
    let ghost want = spec_subsamples(data@, pos as int)->Ok_0.0;
    while i < n
        invariant
            i <= n,
            n == be_value(data@, pos as int, 2),
            pos + 2 + 6 * n <= data.len(),
            n <= MAX_ENTRIES,
            want == spec_subsamples(data@, pos as int)->Ok_0.0,
            spec_subsamples(data@, pos as int) is Ok,
            spec_subsample_view(out@) =~= want.subrange(0, i as int),
        decreases n - i,
    {
        let at = pos + 2 + 6 * (i as usize);
        let clear = read_u16(data, at)?;
        let protected = read_u32(data, at + 2)?;
        let ghost before = out@;
        out.push(SencSubsampleEntry { bytes_of_clear_data: clear, bytes_of_protected_data: protected });
        proof {
            assert(spec_subsample_view(out@) =~= spec_subsample_view(before).push((clear, protected)));
            assert(want[i as int] == (clear, protected));
        }
        i = i + 1;
    }
    proof {
        assert(want.subrange(0, n as int) =~= want);
    }
    Ok((out, pos + 2 + 6 * n as usize))
}

/// Reads all entries with IVs of `size` bytes and succeeds only if they use up the body.
fn decode_entries_with(data: &[u8], count: u32, size: usize) -> (r: Option<Vec<SencEntry>>)
    requires
        data@.len() >= 8,
        size <= 16,
    ensures
        r is Some <==> spec_attempt_fits(data@, count as nat, size as int),
        r matches Some(v) ==> spec_entries_view(v@) == spec_attempt(
            data@,
            count as nat,
            size as int,
        ),
{
    let mut out: Vec<SencEntry> = Vec::new();
    let mut pos: usize = 8;
    let mut i: u32 = 0;
    proof {
        assert(spec_entries_view(out@) =~= Seq::<SencEntryView>::empty());
    }
    while i < count
        invariant
            i <= count,
            8 <= pos <= data.len(),
            size <= 16,
            spec_entries_with(data@, 8, count as nat, size as int) == spec_after(
                spec_entries_view(out@),
                spec_entries_with(data@, pos as int, (count - i) as nat, size as int),
            ),
        decreases count - i,
    {
        if data.len() - pos < size {
            return None;
        }
        let iv = iv_text(data, pos, size);
        let (subs, next) = match decode_subsamples(data, pos + size) {
            Ok(x) => x,
            Err(_) => {
                return None;
            },
        };
        let ghost before = spec_entries_view(out@);
        let ghost item = (iv@, spec_subsample_view(subs@));
        out.push(SencEntry { initialization_vector: iv, subsample_encryption: subs });
        proof {
            assert(spec_entries_view(out@) =~= before.push(item));
            let rest = spec_entries_with(data@, next as int, (count - i - 1) as nat, size as int);
            match rest {
                Ok((s, e)) => {
                    assert(before + (seq![item] + s) =~= before.push(item) + s);
                },
                Err(_) => {},
            }
        }
        pos = next;
        i = i + 1;
    }
    proof {
        assert(spec_entries_view(out@) + Seq::<SencEntryView>::empty() =~= spec_entries_view(out@));
    }
    if pos == data.len() {
        Some(out)
    } else {
        None
    }
}

/// `done` read so far, followed by what is still to be read.
pub open spec fn spec_after(
    done: Seq<SencEntryView>,
    rest: Result<(Seq<SencEntryView>, int), DecodeError>,
) -> Result<(Seq<SencEntryView>, int), DecodeError> {
    match rest {
        Ok((s, e)) => Ok((done + s, e)),
        Err(e) => Err(e),
    }
}

/// Entries without subsamples: `count` IVs of `size` bytes one after another.
fn decode_plain_entries(data: &[u8], count: u32, size: usize) -> (r: Vec<SencEntry>)
    requires
        data@.len() >= 8,
        count > 0,
        size == (data@.len() - 8) / (count as int),
        size == 8 || size == 16,
    ensures
        spec_entries_view(r@) == Seq::new(
            count as nat,
            |i: int| (spec_iv_text(data@, 8 + size * i, size as int), Seq::<(u16, u32)>::empty()),
        ),
{
    let ghost want = Seq::new(
        count as nat,
        |i: int| (spec_iv_text(data@, 8 + size * i, size as int), Seq::<(u16, u32)>::empty()),
    );
    let mut out: Vec<SencEntry> = Vec::new();
    let mut i: u32 = 0;
    proof {
        assert(size * count <= data@.len() - 8) by (nonlinear_arith)
            requires
                size == (data@.len() - 8) / (count as int),
                count > 0,
                data@.len() >= 8,
        ;
    }
    while i < count
        invariant
            i <= count,
            size * count <= data.len() - 8,
            size == 8 || size == 16,
            want == Seq::new(
                count as nat,
                |k: int| (spec_iv_text(data@, 8 + size * k, size as int), Seq::<(u16, u32)>::empty()),
            ),
            spec_entries_view(out@) =~= want.subrange(0, i as int),
        decreases count - i,
    {
        proof {
            assert(size * i + size <= size * count) by (nonlinear_arith)
                requires
                    i < count,
            ;
        }
        let pos = 8 + size * (i as usize);
        let iv = iv_text(data, pos, size);
        let ghost before = spec_entries_view(out@);
        out.push(SencEntry { initialization_vector: iv, subsample_encryption: Vec::new() });
        proof {
            assert(spec_subsample_view(Seq::<SencSubsampleEntry>::empty()) =~= Seq::<(u16, u32)>::empty());
            assert(spec_entries_view(out@) =~= before.push(want[i as int]));
        }
        i = i + 1;
    }
    proof {
        assert(want.subrange(0, count as int) =~= want);
    }
    out
}

} // verus!
