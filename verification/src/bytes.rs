//! Big-endian reading of fixed-width integers out of a byte slice, the box-coding
//! vocabulary shared by every box decoder, and the error a decode can end in.
use vstd::prelude::*;
use vstd::utf8::{decode_utf8, valid_utf8};

verus! {

/// The unsigned value of `n` bytes of `s` starting at `start`, most significant first.
pub open spec fn be_value(s: Seq<u8>, start: int, n: nat) -> nat
    decreases n,
{
    if n == 0 {
        0
    } else {
        be_value(s, start, (n - 1) as nat) * 256 + s[start + n - 1] as nat
    }
}

/// A four-character code, held as the big-endian value of its four bytes.
#[derive(Debug, Clone, Copy, PartialEq, Eq, Structural)]
pub struct FourCC(pub u32);

/// Why a box could not be decoded.
#[derive(Debug, Clone, Copy, PartialEq, Eq, Structural)]
pub enum DecodeError {
    /// A read ran past the end of the bytes it was given.
    OutOfBounds,
    /// A box body ran past the size its header declared.
    OverDecode(FourCC),
    /// A box body left bytes its decoder did not read.
    UnderDecode(FourCC),
    /// The header named another box than the one being decoded.
    UnexpectedBox(FourCC),
    /// A header declared a size smaller than the header itself.
    InvalidSize,
    /// A string was not UTF-8.
    InvalidString,
    /// The body uses a form this decoder does not read.
    Unsupported(Unsupported),
    /// A count asked for more entries than a decoder is willing to hold.
    OutOfMemory,
}

/// The forms of a box body that no decoder here reads.
#[derive(Debug, Clone, Copy, PartialEq, Eq, Structural)]
pub enum Unsupported {
    /// A `senc` whose per-sample IV size is none of 0, 8 or 16 bytes.
    IvSize,
    /// A `dac4` presentation longer than its declared `pres_bytes`.
    Dac4PresentationBytes,
}

/// Whether `n` bytes can be read from `data` at `pos`.
pub open spec fn can_read(data: Seq<u8>, pos: int, n: int) -> bool {
    0 <= pos && 0 <= n && pos + n <= data.len()
}

pub fn read_u8(data: &[u8], pos: usize) -> (r: Result<u8, DecodeError>)
    ensures
        match r {
            Ok(v) => can_read(data@, pos as int, 1) && v == data@[pos as int],
            Err(e) => !can_read(data@, pos as int, 1) && e == DecodeError::OutOfBounds,
        },
{
    if pos < data.len() {
        Ok(data[pos])
    } else {
        Err(DecodeError::OutOfBounds)
    }
}

pub fn read_u16(data: &[u8], pos: usize) -> (r: Result<u16, DecodeError>)
    ensures
        match r {
            Ok(v) => can_read(data@, pos as int, 2) && v as nat == be_value(data@, pos as int, 2),
            Err(e) => !can_read(data@, pos as int, 2) && e == DecodeError::OutOfBounds,
        },
{
    if pos < data.len() && data.len() - pos >= 2 {
        let v = (data[pos] as u16) * 256 + data[pos + 1] as u16;
        proof {
            reveal_with_fuel(be_value, 3);
        }
        Ok(v)
    } else {
        Err(DecodeError::OutOfBounds)
    }
}

pub fn read_u24(data: &[u8], pos: usize) -> (r: Result<u32, DecodeError>)
    ensures
        match r {
            Ok(v) => can_read(data@, pos as int, 3) && v as nat == be_value(data@, pos as int, 3),
            Err(e) => !can_read(data@, pos as int, 3) && e == DecodeError::OutOfBounds,
        },
{
    if pos < data.len() && data.len() - pos >= 3 {
        let v = (data[pos] as u32) * 65536 + (data[pos + 1] as u32) * 256 + data[pos + 2] as u32;
        proof {
            reveal_with_fuel(be_value, 4);
        }
        Ok(v)
    } else {
        Err(DecodeError::OutOfBounds)
    }
}

pub fn read_u32(data: &[u8], pos: usize) -> (r: Result<u32, DecodeError>)
    ensures
        match r {
            Ok(v) => can_read(data@, pos as int, 4) && v as nat == be_value(data@, pos as int, 4),
            Err(e) => !can_read(data@, pos as int, 4) && e == DecodeError::OutOfBounds,
        },
{
    if pos < data.len() && data.len() - pos >= 4 {
        let v = (data[pos] as u32) * 16777216 + (data[pos + 1] as u32) * 65536
            + (data[pos + 2] as u32) * 256 + data[pos + 3] as u32;
        proof {
            reveal_with_fuel(be_value, 5);
        }
        Ok(v)
    } else {
        Err(DecodeError::OutOfBounds)
    }
}


pub fn read_u64(data: &[u8], pos: usize) -> (r: Result<u64, DecodeError>)
    ensures
        match r {
            Ok(v) => can_read(data@, pos as int, 8) && v as nat == be_value(data@, pos as int, 8),
            Err(e) => !can_read(data@, pos as int, 8) && e == DecodeError::OutOfBounds,
        },
{
    if pos < data.len() && data.len() - pos >= 8 {
        let hi = read_u32(data, pos)?;
        let lo = read_u32(data, pos + 4)?;
        proof {
            lemma_be_value_split(data@, pos as int, 4, 4);
            assert(pow256(4) == 4294967296) by {
                reveal_with_fuel(pow256, 5);
            }
        }
        Ok((hi as u64) * 4294967296 + lo as u64)
    } else {
        Err(DecodeError::OutOfBounds)
    }
}

/// Reading `a + b` bytes is reading `a`, then `b` more.
pub proof fn lemma_be_value_split(s: Seq<u8>, start: int, a: nat, b: nat)
    ensures
        be_value(s, start, a + b) == be_value(s, start, a) * pow256(b) + be_value(s, start + a, b),
    decreases b,
{
    if b == 0 {
    } else {
        lemma_be_value_split(s, start, a, (b - 1) as nat);
        assert(be_value(s, start, a + b) == be_value(s, start, (a + b - 1) as nat) * 256 + s[start
            + a + b - 1] as nat);
        assert(be_value(s, start + a, b) == be_value(s, start + a, (b - 1) as nat) * 256 + s[start
            + a + b - 1] as nat);
        assert(pow256(b) == pow256((b - 1) as nat) * 256);
        let x = be_value(s, start, a);
        let p = pow256((b - 1) as nat);
        let y = be_value(s, start + a, (b - 1) as nat);
        assert((x * p + y) * 256 == x * (p * 256) + y * 256) by (nonlinear_arith);
    }
}

/// 256 to the power `n`.
pub open spec fn pow256(n: nat) -> nat
    decreases n,
{
    if n == 0 {
        1
    } else {
        pow256((n - 1) as nat) * 256
    }
}

/// A copy of `data[start..end]`.
pub fn copy_range(data: &[u8], start: usize, end: usize) -> (r: Vec<u8>)
    requires
        start <= end <= data@.len(),
    ensures
        r@ == data@.subrange(start as int, end as int),
{
    let mut out: Vec<u8> = Vec::new();
    let mut i = start;
    while i < end
        invariant
            start <= i <= end <= data@.len(),
            out@ == data@.subrange(start as int, i as int),
        decreases end - i,
    {
        out.push(data[i]);
        i = i + 1;
        assert(out@ == data@.subrange(start as int, i as int));
    }
    out
}

/// The index of the first zero byte of `s` at or after `i`, or the length of `s`.
pub open spec fn nul_index(s: Seq<u8>, i: int) -> int
    decreases s.len() - i,
{
    if i >= s.len() {
        s.len() as int
    } else if s[i] == 0 {
        i
    } else {
        nul_index(s, i + 1)
    }
}

pub proof fn lemma_nul_index(s: Seq<u8>, i: int)
    requires
        0 <= i <= s.len(),
    ensures
        i <= nul_index(s, i) <= s.len(),
        nul_index(s, i) < s.len() ==> s[nul_index(s, i)] == 0,
        forall|k: int| i <= k < nul_index(s, i) ==> s[k] != 0,
    decreases s.len() - i,
{
    if i < s.len() && s[i] != 0 {
        lemma_nul_index(s, i + 1);
    }
}

/// Where a null-terminated string starting at `pos` stops being read: past its terminator,
/// or at the end of the data when there is none.
pub open spec fn cstring_end(s: Seq<u8>, pos: int) -> int {
    if nul_index(s, pos) < s.len() {
        nul_index(s, pos) + 1
    } else {
        s.len() as int
    }
}

/// The text of some UTF-8 bytes, or `None` when they are not UTF-8.
#[verifier::external_body]
pub(crate) fn utf8_string(bytes: Vec<u8>) -> (r: Option<String>)
    ensures
        r is Some <==> valid_utf8(bytes@),
        r matches Some(t) ==> t@ == decode_utf8(bytes@),
{
    String::from_utf8(bytes).ok()
}

/// Reads a string that runs to its first zero byte or to the end of the data, whichever
/// comes first, and says where reading stopped. Bytes that are not UTF-8 are an error.
pub fn read_cstring(data: &[u8], pos: usize) -> (r: Result<(String, usize), DecodeError>)
    requires
        pos <= data@.len(),
    ensures
        match r {
            Ok((t, end)) => {
                &&& valid_utf8(data@.subrange(pos as int, nul_index(data@, pos as int)))
                &&& t@ == decode_utf8(data@.subrange(pos as int, nul_index(data@, pos as int)))
                &&& end == cstring_end(data@, pos as int)
            },
            Err(e) => !valid_utf8(data@.subrange(pos as int, nul_index(data@, pos as int)))
                && e == DecodeError::InvalidString,
        },
{
    proof {
        lemma_nul_index(data@, pos as int);
    }
    let mut i = pos;
    while i < data.len() && data[i] != 0
        invariant
            pos <= i <= data@.len(),
            nul_index(data@, i as int) == nul_index(data@, pos as int),
        decreases data.len() - i,
    {
        i = i + 1;
    }
    let text = copy_range(data, pos, i);
    let end = if i < data.len() { i + 1 } else { i };
    match utf8_string(text) {
        Some(t) => Ok((t, end)),
        None => Err(DecodeError::InvalidString),
    }
}

/// Where a box's body starts and ends in `data`, which begins with the box header, or why
/// no body could be framed. The header's size field counts the header; 0 means the box
/// runs to the end of the data and 1 moves the size into a 64-bit field after the type.
pub open spec fn spec_frame(data: Seq<u8>, kind: FourCC) -> Result<(int, int), DecodeError> {
    let size = be_value(data, 0, 4);
    if data.len() < 8 || (size == 1 && data.len() < 16) {
        Err(DecodeError::OutOfBounds)
    } else {
        let header: int = if size == 1 { 16 } else { 8 };
        let large = be_value(data, 8, 8);
        if (size == 1 && large < 16) || (2 <= size && size < 8) {
            Err(DecodeError::InvalidSize)
        } else if be_value(data, 4, 4) != kind.0 {
            Err(DecodeError::UnexpectedBox(FourCC(be_value(data, 4, 4) as u32)))
        } else {
            let body: int = if size == 0 {
                data.len() - header
            } else if size == 1 {
                large - 16
            } else {
                size - 8
            };
            if body > data.len() - header {
                Err(DecodeError::OutOfBounds)
            } else {
                Ok((header, header + body))
            }
        }
    }
}

/// Whether `data` is too short for the box header at its start: under 8 bytes, or under
/// 16 where the size field is 1.
pub open spec fn spec_header_short(data: Seq<u8>) -> bool {
    data.len() < 8 || (be_value(data, 0, 4) == 1 && data.len() < 16)
}

/// Whether the box header at the start of `data` declares a size smaller than itself.
pub open spec fn spec_header_size_invalid(data: Seq<u8>) -> bool {
    let size = be_value(data, 0, 4);
    (size == 1 && be_value(data, 8, 8) < 16) || (2 <= size && size < 8)
}

/// The type of the box header at the start of `data`, by
/// `mp4_atom::Header::decode_maybe` over the bytes: `Ok(None)` where too few bytes remain,
/// `Err` where the size is smaller than the header, else the fourCC as a big-endian
/// `u32`. It claims what `header.rs` does. (The body size it gives is a `usize`, so the
/// caller reads the size fields itself.)
#[verifier::external_body]
fn decode_header(data: &[u8]) -> (r: Result<Option<u32>, ()>)
    ensures
        match r {
            Ok(None) => spec_header_short(data@),
            Err(()) => !spec_header_short(data@) && spec_header_size_invalid(data@),
            Ok(Some(k)) => !spec_header_short(data@) && !spec_header_size_invalid(data@) && k as nat == be_value(data@, 4, 4),
        },
{
    let mut buf: &[u8] = data;
    match <mp4_atom::Header as mp4_atom::DecodeMaybe>::decode_maybe(&mut buf) {
        Ok(Some(header)) => Ok(Some(u32::from(header.kind))),
        Ok(None) => Ok(None),
        Err(_) => Err(()),
    }
}

/// Frames one box at the start of `data`, returning where its body starts and ends: the
/// header is read with mp4-atom, then its type is checked and its body must fit.
pub fn frame_box(data: &[u8], kind: FourCC) -> (r: Result<(usize, usize), DecodeError>)
    ensures
        match r {
            Ok((s, e)) => spec_frame(data@, kind) == Ok::<(int, int), DecodeError>(
                (s as int, e as int),
            ),
            Err(x) => spec_frame(data@, kind) == Err::<(int, int), DecodeError>(x),
        },
{
    let typ = match decode_header(data) {
        Ok(Some(h)) => h,
        Ok(None) => {
            return Err(DecodeError::OutOfBounds);
        },
        Err(()) => {
            return Err(DecodeError::InvalidSize);
        },
    };
    if typ != kind.0 {
        return Err(DecodeError::UnexpectedBox(FourCC(typ)));
    }
    let s32 = read_u32(data, 0)?;
    let header: usize = if s32 == 1 { 16 } else { 8 };
    let available = data.len() - header;
    let body: u64 = if s32 == 0 {
        available as u64
    } else if s32 == 1 {
        read_u64(data, 8)? - 16
    } else {
        (s32 - 8) as u64
    };
    if body > available as u64 {
        return Err(DecodeError::OutOfBounds);
    }
    Ok((header, header + body as usize))
}

/// The body of one box of kind `T::spec_kind()`.
///
/// `spec_error` says whether a body decodes and why not; for a body that does,
/// `spec_read` is how many of its bytes the decoder reads and `spec_decodes_to` says
/// exactly which value it gives. `spec_defined` leaves out the bodies on which the
/// format's reading is not defined.
pub trait BoxBody: Sized {
    spec fn spec_kind() -> FourCC;

    spec fn spec_defined(body: Seq<u8>) -> bool;

    spec fn spec_error(body: Seq<u8>) -> Option<DecodeError>;

    spec fn spec_read(body: Seq<u8>) -> nat;

    spec fn spec_decodes_to(body: Seq<u8>, value: Self) -> bool;

    fn kind() -> (k: FourCC)
        ensures
            k == Self::spec_kind(),
    ;

    fn decode_body(data: &[u8]) -> (r: Result<(Self, usize), DecodeError>)
        requires
            Self::spec_defined(data@),
        ensures
            match r {
                Ok((v, n)) => {
                    &&& Self::spec_error(data@) is None
                    &&& n == Self::spec_read(data@)
                    &&& n <= data@.len()
                    &&& Self::spec_decodes_to(data@, v)
                },
                Err(e) => Self::spec_error(data@) == Some(e),
            },
    ;
}

/// What decoding one whole box gives: its header frames the body, the body decoder reads
/// it, a read past the body is an over-decode and bytes left unread are an under-decode.
pub open spec fn spec_decode_box<T: BoxBody>(data: Seq<u8>, r: Result<T, DecodeError>) -> bool {
    let kind = T::spec_kind();
    match spec_frame(data, kind) {
        Err(e) => r == Err::<T, DecodeError>(e),
        Ok((s, e)) => {
            let body = data.subrange(s, e);
            match T::spec_error(body) {
                Some(DecodeError::OutOfBounds) => r == Err::<T, DecodeError>(
                    DecodeError::OverDecode(kind),
                ),
                Some(x) => r == Err::<T, DecodeError>(x),
                None => if T::spec_read(body) < e - s {
                    r == Err::<T, DecodeError>(DecodeError::UnderDecode(kind))
                } else {
                    r is Ok && T::spec_decodes_to(body, r->Ok_0)
                },
            }
        },
    }
}

/// Whether the body that the header of `data` frames, if it frames one, can be read.
pub open spec fn spec_box_defined<T: BoxBody>(data: Seq<u8>) -> bool {
    match spec_frame(data, T::spec_kind()) {
        Ok((s, e)) => T::spec_defined(data.subrange(s, e)),
        Err(_) => true,
    }
}

/// Decodes one whole box, header included, from the start of `data`.
pub fn decode_box<T: BoxBody>(data: &[u8]) -> (r: Result<T, DecodeError>)
    requires
        spec_box_defined::<T>(data@),
    ensures
        spec_decode_box::<T>(data@, r),
{
    let kind = T::kind();
    let (s, e) = frame_box(data, kind)?;
    let body = &data[s..e];
    assert(body@ == data@.subrange(s as int, e as int));
    match T::decode_body(body) {
        Err(DecodeError::OutOfBounds) => Err(DecodeError::OverDecode(kind)),
        Err(x) => Err(x),
        Ok((v, n)) => if n < e - s {
            Err(DecodeError::UnderDecode(kind))
        } else {
            Ok(v)
        },
    }
}

} // verus!
