use vstd::prelude::*;
use crate::bytes::{be_value, BoxBody, DecodeError, FourCC, read_u16, read_u8};

verus! {

/// AC3SpecificBox, ETSI TS 102 366 V1.4.1 (2017-09) Sect F.4.
#[derive(Debug, Clone, PartialEq, Eq, Structural)]
pub struct Dac3 {
    pub fscod: u8,
    pub bsid: u8,
    pub bsmod: u8,
    pub acmod: u8,
    pub lfeon: u8,
    pub bit_rate_code: u8,
}

/// Nominal bit rates in kbit/s, indexed by `bit_rate_code` (ETSI TS 102 366 Table F.4.1).
pub open spec fn dac3_bit_rates() -> Seq<u16> {
    seq![32, 40, 48, 56, 64, 80, 96, 112, 128, 160, 192, 224, 256, 320, 384, 448, 512, 576, 640]
}

/// The nominal bit rate of a `bit_rate_code`, or 0 for a code the table does not define.
pub open spec fn spec_dac3_bit_rate(code: u8) -> u16 {
    if code < 19 {
        dac3_bit_rates()[code as int]
    } else {
        0
    }
}


impl Dac3 {
    /// The nominal bit rate in kbit/s that `bit_rate_code` stands for; 0 when the code is
    /// outside the table.
    pub fn bit_rate(&self) -> (r: u16)
        ensures
            r == spec_dac3_bit_rate(self.bit_rate_code),
    {
        match self.bit_rate_code {
            0b00000 => 32,
            0b00001 => 40,
            0b00010 => 48,
            0b00011 => 56,
            0b00100 => 64,
            0b00101 => 80,
            0b00110 => 96,
            0b00111 => 112,
            0b01000 => 128,
            0b01001 => 160,
            0b01010 => 192,
            0b01011 => 224,
            0b01100 => 256,
            0b01101 => 320,
            0b01110 => 384,
            0b01111 => 448,
            0b10000 => 512,
            0b10001 => 576,
            0b10010 => 640,
            _ => 0,
        }
    }
}

/// fscod: the two most significant of the 24 bits.
fn fscod_from(bits: u32) -> (r: u8)
    ensures
        r == (bits / 4194304) % 4,
{
    assert(((bits >> 22u32) & 0x03u32) == (bits / 4194304) % 4) by (bit_vector);
    ((bits >> 22u32) & 0x03u32) as u8
}

/// bsid: five bits below fscod.
fn bsid_from(bits: u32) -> (r: u8)
    ensures
        r == (bits / 131072) % 32,
{
    assert(((bits >> 17u32) & 0x1Fu32) == (bits / 131072) % 32) by (bit_vector);
    ((bits >> 17u32) & 0x1Fu32) as u8
}

/// bsmod: three bits below bsid.
fn bsmod_from(bits: u32) -> (r: u8)
    ensures
        r == (bits / 16384) % 8,
{
    assert(((bits >> 14u32) & 0x07u32) == (bits / 16384) % 8) by (bit_vector);
    ((bits >> 14u32) & 0x07u32) as u8
}

/// acmod: three bits below bsmod.
fn acmod_from(bits: u32) -> (r: u8)
    ensures
        r == (bits / 2048) % 8,
{
    assert(((bits >> 11u32) & 0x07u32) == (bits / 2048) % 8) by (bit_vector);
    ((bits >> 11u32) & 0x07u32) as u8
}

/// lfeon: one bit below acmod.
fn lfeon_from(bits: u32) -> (r: u8)
    ensures
        r == (bits / 1024) % 2,
{
    assert(((bits >> 10u32) & 0x01u32) == (bits / 1024) % 2) by (bit_vector);
    ((bits >> 10u32) & 0x01u32) as u8
}

/// bit_rate_code: five bits below lfeon; the five below it are reserved.
fn bit_rate_code_from(bits: u32) -> (r: u8)
    ensures
        r == (bits / 32) % 32,
{
    assert(((bits >> 5u32) & 0x1Fu32) == (bits / 32) % 32) by (bit_vector);
    ((bits >> 5u32) & 0x1Fu32) as u8
}

impl BoxBody for Dac3 {
    open spec fn spec_kind() -> FourCC {
        FourCC(0x64616333)
    }

    open spec fn spec_defined(b: Seq<u8>) -> bool {
        true
    }

    /// Three bytes read as one 24-bit big-endian value: fscod(2) bsid(5) bsmod(3) acmod(3)
    /// lfeon(1) bit_rate_code(5) reserved(5).
    open spec fn spec_error(b: Seq<u8>) -> Option<DecodeError> {
        if b.len() >= 3 {
            None
        } else {
            Some(DecodeError::OutOfBounds)
        }
    }

    open spec fn spec_read(b: Seq<u8>) -> nat {
        3
    }

    open spec fn spec_decodes_to(b: Seq<u8>, v: Dac3) -> bool {
        let bits = be_value(b, 0, 3);
        &&& v.fscod == (bits / 4194304) % 4
        &&& v.bsid == (bits / 131072) % 32
        &&& v.bsmod == (bits / 16384) % 8
        &&& v.acmod == (bits / 2048) % 8
        &&& v.lfeon == (bits / 1024) % 2
        &&& v.bit_rate_code == (bits / 32) % 32
    }

    fn kind() -> (k: FourCC) {
        FourCC(0x64616333)
    }

    fn decode_body(data: &[u8]) -> (r: Result<(Dac3, usize), DecodeError>) {
        let first_16 = read_u16(data, 0)?;
        let last_8 = read_u8(data, 2)?;
        let bits = ((first_16 as u32) << 8u32) | (last_8 as u32);
        assert(((first_16 as u32) << 8u32) | (last_8 as u32) == (first_16 as u32) * 256 + (
        last_8 as u32)) by (bit_vector);
        proof {
            reveal_with_fuel(be_value, 4);
        }
        let d = Dac3 {
            fscod: fscod_from(bits),
            bsid: bsid_from(bits),
            bsmod: bsmod_from(bits),
            acmod: acmod_from(bits),
            lfeon: lfeon_from(bits),
            bit_rate_code: bit_rate_code_from(bits),
        };
        Ok((d, 3))
    }
}

} // verus!
