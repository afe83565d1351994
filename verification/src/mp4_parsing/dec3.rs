use vstd::prelude::*;
use vstd::arithmetic::power2::lemma2_to64;
use crate::bits::{spec_bit, spec_bits, spec_has_bits, BitReader};
use crate::bytes::{BoxBody, DecodeError, FourCC};

verus! {

/// EC3SpecificBox, ETSI TS 102 366 V1.4.1 (2017-09) Sect F.6.
#[derive(Debug, Clone, PartialEq, Eq)]
pub struct Dec3 {
    pub data_rate: u16,
    pub independent_substreams: Vec<IndependentSubstream>,
}

#[derive(Debug, Clone, Copy, PartialEq, Eq, Structural)]
pub struct IndependentSubstream {
    pub fscod: u8,
    pub bsid: u8,
    pub asvc: u8,
    pub bsmod: u8,
    pub acmod: u8,
    pub lfeon: u8,
    pub num_dep_sub: u8,
    pub chan_loc: Option<u16>,
}

/// Channel locations of dependent substreams, ETSI TS 102 366 Table F.6.1.
#[derive(Debug, Clone, Copy, PartialEq, Eq, Structural)]
pub enum ChanLoc {
    LcRc,
    LrsRrs,
    Cs,
    Ts,
    LsdRsd,
    LwRw,
    LvhRvh,
    Cvh,
    LFE2,
}

/// The locations in the order of their bits, least significant first.
pub open spec fn spec_all_chan_locs() -> Seq<ChanLoc> {
    seq![
        ChanLoc::LcRc,
        ChanLoc::LrsRrs,
        ChanLoc::Cs,
        ChanLoc::Ts,
        ChanLoc::LsdRsd,
        ChanLoc::LwRw,
        ChanLoc::LvhRvh,
        ChanLoc::Cvh,
        ChanLoc::LFE2,
    ]
}

pub open spec fn spec_mask(l: ChanLoc) -> u16 {
    match l {
        ChanLoc::LcRc => 0b000000001,
        ChanLoc::LrsRrs => 0b000000010,
        ChanLoc::Cs => 0b000000100,
        ChanLoc::Ts => 0b000001000,
        ChanLoc::LsdRsd => 0b000010000,
        ChanLoc::LwRw => 0b000100000,
        ChanLoc::LvhRvh => 0b001000000,
        ChanLoc::Cvh => 0b010000000,
        ChanLoc::LFE2 => 0b100000000,
    }
}

pub open spec fn spec_shift(l: ChanLoc) -> u8 {
    match l {
        ChanLoc::LcRc => 0,
        ChanLoc::LrsRrs => 1,
        ChanLoc::Cs => 2,
        ChanLoc::Ts => 3,
        ChanLoc::LsdRsd => 4,
        ChanLoc::LwRw => 5,
        ChanLoc::LvhRvh => 6,
        ChanLoc::Cvh => 7,
        ChanLoc::LFE2 => 8,
    }
}

impl ChanLoc {
    fn mask(&self) -> (r: u16)
        ensures
            r == spec_mask(*self),
    {
        match self {
            ChanLoc::LcRc => 0b000000001,
            ChanLoc::LrsRrs => 0b000000010,
            ChanLoc::Cs => 0b000000100,
            ChanLoc::Ts => 0b000001000,
            ChanLoc::LsdRsd => 0b000010000,
            ChanLoc::LwRw => 0b000100000,
            ChanLoc::LvhRvh => 0b001000000,
            ChanLoc::Cvh => 0b010000000,
            ChanLoc::LFE2 => 0b100000000,
        }
    }

    fn shift(&self) -> (r: u8)
        ensures
            r == spec_shift(*self),
    {
        match self {
            ChanLoc::LcRc => 0,
            ChanLoc::LrsRrs => 1,
            ChanLoc::Cs => 2,
            ChanLoc::Ts => 3,
            ChanLoc::LsdRsd => 4,
            ChanLoc::LwRw => 5,
            ChanLoc::LvhRvh => 6,
            ChanLoc::Cvh => 7,
            ChanLoc::LFE2 => 8,
        }
    }
}

/// Whether the `chan_loc` bits of a substream mark location `l`.
pub open spec fn spec_contains(s: IndependentSubstream, l: ChanLoc) -> bool {
    match s.chan_loc {
        None => false,
        Some(c) => ((c & spec_mask(l)) >> spec_shift(l)) == 1,
    }
}

/// The marked locations among the first `k` in bit order.
pub open spec fn spec_described(s: IndependentSubstream, k: int) -> Seq<ChanLoc>
    decreases k,
{
    if k <= 0 {
        Seq::empty()
    } else {
        let l = spec_all_chan_locs()[k - 1];
        spec_described(s, k - 1) + if spec_contains(s, l) {
            seq![l]
        } else {
            Seq::empty()
        }
    }
}

impl IndependentSubstream {
    /// Whether the dependent substreams carry location `chan_loc`.
    pub fn contains(&self, chan_loc: ChanLoc) -> (r: bool)
        ensures
            r == spec_contains(*self, chan_loc),
    {
        match self.chan_loc {
            None => false,
            Some(c) => ((c & chan_loc.mask()) >> chan_loc.shift()) == 1,
        }
    }

    /// Every location that the dependent substreams carry, in bit order.
    pub fn descriptive_chan_loc(&self) -> (r: Vec<ChanLoc>)
        ensures
            r@ == spec_described(*self, 9),
            forall|l: ChanLoc| r@.contains(l) <==> spec_contains(*self, l),
    {
        let all = [
            ChanLoc::LcRc,
            ChanLoc::LrsRrs,
            ChanLoc::Cs,
            ChanLoc::Ts,
            ChanLoc::LsdRsd,
            ChanLoc::LwRw,
            ChanLoc::LvhRvh,
            ChanLoc::Cvh,
            ChanLoc::LFE2,
        ];
        assert(all@ == spec_all_chan_locs());
        let mut v: Vec<ChanLoc> = Vec::new();
        let mut k: usize = 0;
        while k < 9
            invariant
                k <= 9,
                all@ == spec_all_chan_locs(),
                v@ == spec_described(*self, k as int),
            decreases 9 - k,
        {
            let l = all[k];
            if self.contains(l) {
                v.push(l);
            }
            k = k + 1;
        }
        proof {
            lemma_described_members(*self, 9);
        }
        v
    }
}

proof fn lemma_described_members(s: IndependentSubstream, k: int)
    requires
        0 <= k <= 9,
    ensures
        forall|l: ChanLoc| #[trigger] spec_described(s, k).contains(l) <==> (spec_contains(s, l)
            && (spec_shift(l) as int) < k),
    decreases k,
{
    if k > 0 {
        lemma_described_members(s, k - 1);
        let l = spec_all_chan_locs()[k - 1];
        assert(spec_shift(l) == k - 1);
        let d0 = spec_described(s, k - 1);
        let d1 = spec_described(s, k);
        assert forall|m: ChanLoc| #[trigger] d1.contains(m) <==> (spec_contains(s, m)
            && (spec_shift(m) as int) < k) by {
            if d1.contains(m) {
                let i = choose|i: int| 0 <= i < d1.len() && d1[i] == m;
                if i < d0.len() {
                    assert(d0[i] == m);
                    assert(d0.contains(m));
                } else {
                    assert(m == l);
                }
            }
            if spec_contains(s, m) && (spec_shift(m) as int) < k {
                if (spec_shift(m) as int) < k - 1 {
                    assert(d0.contains(m));
                    let i = choose|i: int| 0 <= i < d0.len() && d0[i] == m;
                    assert(d1[i] == m);
                } else {
                    assert(m == l) by {
                        match m {
                            ChanLoc::LcRc => {},
                            ChanLoc::LrsRrs => {},
                            ChanLoc::Cs => {},
                            ChanLoc::Ts => {},
                            ChanLoc::LsdRsd => {},
                            ChanLoc::LwRw => {},
                            ChanLoc::LvhRvh => {},
                            ChanLoc::Cvh => {},
                            ChanLoc::LFE2 => {},
                        }
                    }
                    assert(d1[d0.len() as int] == m);
                }
            }
        }
    }
}

/// Bits taken by one independent substream at bit `pos`: 23, then nine channel-location
/// bits when it has dependent substreams, else one reserved bit.
pub open spec fn spec_substream_len(b: Seq<u8>, pos: int) -> int {
    if spec_bits(b, pos + 19, 4) > 0 {
        32
    } else {
        24
    }
}

/// The independent substream at bit `pos`.
pub open spec fn spec_substream(b: Seq<u8>, pos: int) -> IndependentSubstream {
    let nd = spec_bits(b, pos + 19, 4);
    IndependentSubstream {
        fscod: spec_bits(b, pos, 2) as u8,
        bsid: spec_bits(b, pos + 2, 5) as u8,
        asvc: spec_bits(b, pos + 8, 1) as u8,
        bsmod: spec_bits(b, pos + 9, 3) as u8,
        acmod: spec_bits(b, pos + 12, 3) as u8,
        lfeon: spec_bits(b, pos + 15, 1) as u8,
        num_dep_sub: nd as u8,
        chan_loc: if nd > 0 {
            Some(spec_bits(b, pos + 23, 9) as u16)
        } else {
            None
        },
    }
}

/// Whether a whole substream can be read at bit `pos`.
pub open spec fn spec_substream_fits(b: Seq<u8>, pos: int) -> bool {
    spec_has_bits(b, pos, 23) && spec_has_bits(b, pos, spec_substream_len(b, pos))
}

/// `n` substreams from bit `pos` and where they end, or `None` when the bits run out.
pub open spec fn spec_substreams(b: Seq<u8>, pos: int, n: nat) -> Option<(Seq<IndependentSubstream>, int)>
    decreases n,
{
    if n == 0 {
        Some((Seq::empty(), pos))
    } else if !spec_substream_fits(b, pos) {
        None
    } else {
        match spec_substreams(b, pos + spec_substream_len(b, pos), (n - 1) as nat) {
            None => None,
            Some((rest, end)) => Some((seq![spec_substream(b, pos)] + rest, end)),
        }
    }
}

/// The substreams of a body: one more than the three-bit count after the data rate.
pub open spec fn spec_dec3_substreams(b: Seq<u8>) -> Option<(Seq<IndependentSubstream>, int)> {
    spec_substreams(b, 16, spec_bits(b, 13, 3) + 1)
}

pub open spec fn spec_then(
    done: Seq<IndependentSubstream>,
    rest: Option<(Seq<IndependentSubstream>, int)>,
) -> Option<(Seq<IndependentSubstream>, int)> {
    match rest {
        Some((s, e)) => Some((done + s, e)),
        None => None,
    }
}

/// Reads one substream, as [`spec_substream`] says, or fails without a full one.
fn read_substream(reader: &mut BitReader) -> (r: Option<IndependentSubstream>)
    requires
        old(reader).pos <= 8 * old(reader).data@.len(),
        8 * old(reader).data@.len() <= usize::MAX,
    ensures
        final(reader).data@ == old(reader).data@,
        final(reader).pos <= 8 * final(reader).data@.len(),
        match r {
            Some(s) => {
                &&& spec_substream_fits(old(reader).data@, old(reader).pos as int)
                &&& s == spec_substream(old(reader).data@, old(reader).pos as int)
                &&& final(reader).pos == old(reader).pos + spec_substream_len(
                    old(reader).data@,
                    old(reader).pos as int,
                )
            },
            None => !spec_substream_fits(old(reader).data@, old(reader).pos as int),
        },
{
    let ghost d = reader.data@;
    let ghost p = reader.pos as int;
    proof {
        lemma2_to64();
    }
    if reader.data.len() as u128 * 8 - (reader.pos as u128) < 23 {
        return None;
    }
    let fscod = reader.read_bits(2).unwrap() as u8;
    let bsid = reader.read_bits(5).unwrap() as u8;
    let _ = reader.read_bits(1).unwrap();
    let asvc = reader.read_bits(1).unwrap() as u8;
    let bsmod = reader.read_bits(3).unwrap() as u8;
    let acmod = reader.read_bits(3).unwrap() as u8;
    let lfeon = reader.read_bits(1).unwrap() as u8;
    let _ = reader.read_bits(3).unwrap();
    let num_dep_sub = reader.read_bits(4).unwrap() as u8;
    let chan_loc = if num_dep_sub > 0 {
        match reader.read_bits(9) {
            Some(c) => Some(c as u16),
            None => {
                return None;
            },
        }
    } else {
        match reader.read_bits(1) {
            Some(_) => None,
            None => {
                return None;
            },
        }
    };
    Some(IndependentSubstream { fscod, bsid, asvc, bsmod, acmod, lfeon, num_dep_sub, chan_loc })
}

impl BoxBody for Dec3 {
    open spec fn spec_kind() -> FourCC {
        FourCC(0x64656333)
    }

    /// Bit positions must fit in a `usize`.
    open spec fn spec_defined(b: Seq<u8>) -> bool {
        8 * b.len() <= usize::MAX
    }

    /// A 13-bit data rate and a 3-bit substream count, then the substreams; every bit that
    /// is missing is an out-of-bounds read.
    open spec fn spec_error(b: Seq<u8>) -> Option<DecodeError> {
        if !spec_has_bits(b, 0, 16) || spec_dec3_substreams(b) is None {
            Some(DecodeError::OutOfBounds)
        } else {
            None
        }
    }

    /// The whole body counts as read.
    open spec fn spec_read(b: Seq<u8>) -> nat {
        b.len()
    }

    open spec fn spec_decodes_to(b: Seq<u8>, v: Dec3) -> bool {
        &&& v.data_rate == spec_bits(b, 0, 13)
        &&& spec_dec3_substreams(b) matches Some((s, _)) && v.independent_substreams@ == s
    }

    fn kind() -> (k: FourCC) {
        FourCC(0x64656333)
    }

    fn decode_body(data: &[u8]) -> (r: Result<(Dec3, usize), DecodeError>) {
        proof {
            lemma2_to64();
        }
        let mut reader = BitReader::new(data);
        let data_rate = match reader.read_bits(13) {
            Some(v) => v as u16,
            None => {
                return Err(DecodeError::OutOfBounds);
            },
        };
        let count = match reader.read_bits(3) {
            Some(v) => v,
            None => {
                return Err(DecodeError::OutOfBounds);
            },
        };
        assert(spec_has_bits(data@, 0, 16));
        let mut independent_substreams: Vec<IndependentSubstream> = Vec::new();
        let mut i: u32 = 0;
        while i < count + 1
            invariant
                i <= count + 1,
                count < 8,
                count == spec_bits(data@, 13, 3),
                reader.data@ == data@,
                reader.pos <= 8 * data@.len(),
                8 * data@.len() <= usize::MAX,
                spec_dec3_substreams(data@) == spec_then(
                    independent_substreams@,
                    spec_substreams(data@, reader.pos as int, (count + 1 - i) as nat),
                ),
            decreases count + 1 - i,
        {
            let ghost before = independent_substreams@;
            let ghost p = reader.pos as int;
            match read_substream(&mut reader) {
                Some(s) => {
                    independent_substreams.push(s);
                    proof {
                        match spec_substreams(data@, reader.pos as int, (count - i) as nat) {
                            Some((rest, e)) => {
                                assert(before + (seq![s] + rest) =~= independent_substreams@ + rest);
                            },
                            None => {},
                        }
                    }
                },
                None => {
                    return Err(DecodeError::OutOfBounds);
                },
            }
            i = i + 1;
        }
        assert(independent_substreams@ + Seq::<IndependentSubstream>::empty() =~= independent_substreams@);
        Ok((Dec3 { data_rate, independent_substreams }, data.len()))
    }
}


/// The field layout of the first independent substream (ETSI TS 102 366 Annex F.6): after
/// the 13-bit data rate and the 3-bit count, byte 2 holds fscod (2 bits), bsid (5) and a
/// reserved bit, and byte 3 holds asvc (1), bsmod (3), acmod (3) and then lfeon, its last
/// bit. So whatever a decoded `dec3` body holds, its first substream's fields are these
/// bits of bytes 2 and 3.
pub proof fn lemma_first_substream_layout(b: Seq<u8>, v: Dec3)
    requires
        <Dec3 as BoxBody>::spec_decodes_to(b, v),
        v.independent_substreams@.len() > 0,
    ensures
        v.independent_substreams@[0].fscod == b[2] >> 6u8,
        v.independent_substreams@[0].bsid == (b[2] >> 1u8) & 0x1fu8,
        v.independent_substreams@[0].asvc == b[3] >> 7u8,
        v.independent_substreams@[0].bsmod == (b[3] >> 4u8) & 7u8,
        v.independent_substreams@[0].acmod == (b[3] >> 1u8) & 7u8,
        v.independent_substreams@[0].lfeon == b[3] & 1u8,
{
    let n = spec_bits(b, 13, 3) + 1;
    assert(spec_substream_fits(b, 16));
    let s = spec_substream(b, 16);
    assert(v.independent_substreams@[0] == s);
    let x = b[2];
    let y = b[3];
    reveal_with_fuel(spec_bits, 6);
    assert(spec_bit(b, 16) == (x >> 7u8) & 1u8);
    assert(spec_bit(b, 17) == (x >> 6u8) & 1u8);
    assert(spec_bit(b, 18) == (x >> 5u8) & 1u8);
    assert(spec_bit(b, 19) == (x >> 4u8) & 1u8);
    assert(spec_bit(b, 20) == (x >> 3u8) & 1u8);
    assert(spec_bit(b, 21) == (x >> 2u8) & 1u8);
    assert(spec_bit(b, 22) == (x >> 1u8) & 1u8);
    assert(spec_bit(b, 24) == (y >> 7u8) & 1u8);
    assert(spec_bit(b, 25) == (y >> 6u8) & 1u8);
    assert(spec_bit(b, 26) == (y >> 5u8) & 1u8);
    assert(spec_bit(b, 27) == (y >> 4u8) & 1u8);
    assert(spec_bit(b, 28) == (y >> 3u8) & 1u8);
    assert(spec_bit(b, 29) == (y >> 2u8) & 1u8);
    assert(spec_bit(b, 30) == (y >> 1u8) & 1u8);
    assert(spec_bit(b, 31) == (y >> 0u8) & 1u8);
    assert(((x >> 7u8) & 1u8) * 2 + ((x >> 6u8) & 1u8) == x >> 6u8) by (bit_vector);
    assert(((((x >> 5u8) & 1u8) * 2 + ((x >> 4u8) & 1u8)) * 2 + ((x >> 3u8) & 1u8)) * 2 * 2
        + ((x >> 2u8) & 1u8) * 2 + ((x >> 1u8) & 1u8) == (x >> 1u8) & 0x1fu8) by (bit_vector);
    assert((((y >> 6u8) & 1u8) * 2 + ((y >> 5u8) & 1u8)) * 2 + ((y >> 4u8) & 1u8) == (y >> 4u8) & 7u8) by (bit_vector);
    assert((((y >> 3u8) & 1u8) * 2 + ((y >> 2u8) & 1u8)) * 2 + ((y >> 1u8) & 1u8) == (y >> 1u8) & 7u8) by (bit_vector);
    assert((y >> 7u8) & 1u8 == y >> 7u8) by (bit_vector);
    assert((y >> 0u8) & 1u8 == y & 1u8) by (bit_vector);
}

} // verus!
