use vstd::prelude::*;
use vstd::arithmetic::power2::{pow2, lemma_pow2_unfold, lemma_pow2_strictly_increases, lemma2_to64};

verus! {

/// Bit `i` of `d`, counting from the most significant bit of the first byte.
pub open spec fn spec_bit(d: Seq<u8>, i: int) -> u8 {
    (d[i / 8] >> ((7 - i % 8) as u8)) & 1u8
}

/// The `n` bits of `d` from bit `pos` on, read as a big-endian unsigned number.
pub open spec fn spec_bits(d: Seq<u8>, pos: int, n: nat) -> nat
    decreases n,
{
    if n == 0 {
        0
    } else {
        spec_bits(d, pos, (n - 1) as nat) * 2 + spec_bit(d, pos + n - 1) as nat
    }
}

/// Whether `n` more bits can be read from bit `pos` of `d`.
pub open spec fn spec_has_bits(d: Seq<u8>, pos: int, n: int) -> bool {
    0 <= pos && 0 <= n && pos + n <= 8 * d.len()
}

proof fn lemma_masked_bit(b: u8, s: u8)
    ensures
        (b >> s) & 1u8 <= 1,
{
    assert((b >> s) & 1u8 <= 1) by (bit_vector);
}

pub proof fn lemma_bits_bound(d: Seq<u8>, pos: int, n: nat)
    ensures
        spec_bits(d, pos, n) < pow2(n),
    decreases n,
{
    if n > 0 {
        lemma_bits_bound(d, pos, (n - 1) as nat);
        lemma_pow2_unfold(n);
        let i = pos + n - 1;
        lemma_masked_bit(d[i / 8], (7 - i % 8) as u8);
    } else {
        lemma2_to64();
    }
}

/// Reads a big-endian bit stream: each read takes the next bits and fails, leaving the
/// position where it was, when too few are left. Positions count bits, so the data must
/// be small enough that eight times its length fits in a `usize`.
pub struct BitReader<'a> {
    pub data: &'a [u8],
    pub pos: usize,
}

impl<'a> BitReader<'a> {
    pub fn new(data: &'a [u8]) -> (r: BitReader<'a>)
        ensures
            r.data@ == data@,
            r.pos == 0,
    {
        BitReader { data, pos: 0 }
    }

    /// The next `n` bits as a number, or `None` when fewer than `n` are left.
    pub fn read_bits(&mut self, n: u32) -> (r: Option<u32>)
        requires
            n <= 32,
            old(self).pos <= 8 * old(self).data@.len(),
            8 * old(self).data@.len() <= usize::MAX,
        ensures
            final(self).data@ == old(self).data@,
            match r {
                Some(v) => {
                    &&& spec_has_bits(old(self).data@, old(self).pos as int, n as int)
                    &&& v == spec_bits(old(self).data@, old(self).pos as int, n as nat)
                    &&& (v as nat) < pow2(n as nat)
                    &&& final(self).pos == old(self).pos + n
                },
                None => {
                    &&& !spec_has_bits(old(self).data@, old(self).pos as int, n as int)
                    &&& final(self).pos == old(self).pos
                },
            },
    {
        let total = self.data.len();
        if (total as u128) * 8 - (self.pos as u128) < n as u128 {
            return None;
        }
        let start = self.pos;
        let mut v: u64 = 0;
        let mut k: u32 = 0;
        while k < n
            invariant
                k <= n <= 32,
                start + n <= 8 * self.data@.len(),
                8 * self.data@.len() <= usize::MAX,
                v == spec_bits(self.data@, start as int, k as nat),
                self.pos == start,
            decreases n - k,
        {
            let i = start + k as usize;
            let bit = (self.data[i / 8] >> ((7 - i % 8) as u8)) & 1u8;
            proof {
                lemma_bits_bound(self.data@, start as int, k as nat);
                if k < 32 {
                    lemma_pow2_strictly_increases(k as nat, 32);
                }
                lemma2_to64();
            }
            v = v * 2 + bit as u64;
            k = k + 1;
        }
        proof {
            lemma_bits_bound(self.data@, start as int, n as nat);
            if n < 32 {
                lemma_pow2_strictly_increases(n as nat, 32);
            }
            lemma2_to64();
        }
        self.pos = start + n as usize;
        Some(v as u32)
    }

    /// The next bit as a flag.
    pub fn read_bit(&mut self) -> (r: Option<bool>)
        requires
            old(self).pos <= 8 * old(self).data@.len(),
            8 * old(self).data@.len() <= usize::MAX,
        ensures
            final(self).data@ == old(self).data@,
            match r {
                Some(v) => {
                    &&& spec_has_bits(old(self).data@, old(self).pos as int, 1)
                    &&& v == (spec_bits(old(self).data@, old(self).pos as int, 1) == 1)
                    &&& final(self).pos == old(self).pos + 1
                },
                None => {
                    &&& !spec_has_bits(old(self).data@, old(self).pos as int, 1)
                    &&& final(self).pos == old(self).pos
                },
            },
    {
        match self.read_bits(1) {
            Some(v) => Some(v == 1),
            None => None,
        }
    }
}

/// The bit position after skipping to the next byte boundary.
pub open spec fn spec_aligned(pos: int) -> int {
    if pos % 8 == 0 {
        pos
    } else {
        pos + 8 - pos % 8
    }
}

/// How many whole bytes are left after bit `pos`.
pub open spec fn spec_bytes_remaining(d: Seq<u8>, pos: int) -> int {
    (8 * d.len() - pos) / 8
}

/// `k` bytes read one after another from bit `pos`, each as eight bits.
pub open spec fn spec_bit_bytes(d: Seq<u8>, pos: int, k: nat) -> Seq<u8> {
    Seq::new(k, |i: int| spec_bits(d, pos + 8 * i, 8) as u8)
}

impl<'a> BitReader<'a> {
    /// Whether `n` more bits can be read.
    pub fn has_bits(&self, n: usize) -> (r: bool)
        requires
            self.pos <= 8 * self.data@.len(),
        ensures
            r == spec_has_bits(self.data@, self.pos as int, n as int),
    {
        (self.data.len() as u128) * 8 - (self.pos as u128) >= n as u128
    }

    /// How many whole bytes are left.
    pub fn bytes_remaining(&self) -> (r: usize)
        requires
            self.pos <= 8 * self.data@.len(),
            8 * self.data@.len() <= usize::MAX,
        ensures
            r == spec_bytes_remaining(self.data@, self.pos as int),
    {
        (self.data.len() * 8 - self.pos) / 8
    }

    /// Skips to the next byte boundary, if not on one already.
    pub fn align(&mut self)
        requires
            old(self).pos <= 8 * old(self).data@.len(),
            8 * old(self).data@.len() <= usize::MAX,
        ensures
            final(self).data@ == old(self).data@,
            final(self).pos == spec_aligned(old(self).pos as int),
            final(self).pos <= 8 * final(self).data@.len(),
            final(self).pos >= old(self).pos,
    {
        if self.pos % 8 != 0 {
            self.pos = self.pos + 8 - self.pos % 8;
        }
    }

    /// The next `k` bytes, each read as eight bits, or `None` when too few bits are left.
    pub fn read_bytes(&mut self, k: usize) -> (r: Option<Vec<u8>>)
        requires
            old(self).pos <= 8 * old(self).data@.len(),
            8 * old(self).data@.len() <= usize::MAX,
        ensures
            final(self).data@ == old(self).data@,
            final(self).pos <= 8 * final(self).data@.len(),
            final(self).pos >= old(self).pos,
            match r {
                Some(v) => {
                    &&& spec_has_bits(old(self).data@, old(self).pos as int, 8 * k)
                    &&& v@ == spec_bit_bytes(old(self).data@, old(self).pos as int, k as nat)
                    &&& final(self).pos == old(self).pos + 8 * k
                },
                None => !spec_has_bits(old(self).data@, old(self).pos as int, 8 * k),
            },
    {
        if !self.has_bits(0) || (self.data.len() * 8 - self.pos) / 8 < k {
            return None;
        }
        let start = self.pos;
        let mut out: Vec<u8> = Vec::new();
        let mut i: usize = 0;
        while i < k
            invariant
                i <= k,
                self.data@ == old(self).data@,
                start == old(self).pos,
                start + 8 * k <= 8 * self.data@.len(),
                8 * self.data@.len() <= usize::MAX,
                self.pos == start + 8 * i,
                out@ == spec_bit_bytes(self.data@, start as int, i as nat),
            decreases k - i,
        {
            let ghost before = out@;
            let v = self.read_bits(8).unwrap();
            proof {
                lemma2_to64();
            }
            out.push(v as u8);
            assert(out@ =~= spec_bit_bytes(self.data@, start as int, (i + 1) as nat));
            i = i + 1;
        }
        Some(out)
    }
}

} // verus!
