use vstd::prelude::*;
use vstd::utf8::{decode_utf8, valid_utf8};
use crate::bytes::{be_value, read_u32, copy_range, BoxBody, DecodeError, FourCC};

verus! {

/// MetadataDatatypeDefinitionBox, QuickTime:
/// https://developer.apple.com/documentation/quicktime-file-format/metadata_datatype_definition_atom
#[derive(Debug, Clone, PartialEq, Eq)]
pub struct Dtyp {
    pub data_namespace: u32,
    pub data_value: Vec<u8>,
}

impl BoxBody for Dtyp {
    open spec fn spec_kind() -> FourCC {
        FourCC(0x64747970)
    }

    open spec fn spec_defined(b: Seq<u8>) -> bool {
        true
    }

    /// A 32-bit namespace, then the rest of the body as the value.
    open spec fn spec_error(b: Seq<u8>) -> Option<DecodeError> {
        if b.len() < 4 {
            Some(DecodeError::OutOfBounds)
        } else {
            None
        }
    }

    open spec fn spec_read(b: Seq<u8>) -> nat {
        b.len()
    }

    open spec fn spec_decodes_to(b: Seq<u8>, v: Dtyp) -> bool {
        &&& v.data_namespace == be_value(b, 0, 4)
        &&& v.data_value@ == b.subrange(4, b.len() as int)
    }

    fn kind() -> (k: FourCC) {
        FourCC(0x64747970)
    }

    fn decode_body(data: &[u8]) -> (r: Result<(Dtyp, usize), DecodeError>) {
        let data_namespace = read_u32(data, 0)?;
        let data_value = copy_range(data, 4, data.len());
        Ok((Dtyp { data_namespace, data_value }, data.len()))
    }
}

/// What the value of a [`Dtyp`] names, by its namespace: a well-known type code
/// (namespace 0, four bytes), a reverse-DNS address (namespace 1, UTF-8), or bytes
/// that fit neither.
#[derive(Debug, Clone, PartialEq, Eq)]
pub enum DtypArrayValue<'a> {
    WellKnownType(WellKnownType),
    ReverseAddress(&'a str),
    Unknown(&'a [u8]),
}

/// The text of `bytes`, or `None` when they are not UTF-8.
#[verifier::external_body]
fn str_from_utf8(bytes: &[u8]) -> (r: Option<&str>)
    ensures
        r is Some <==> valid_utf8(bytes@),
        r matches Some(s) ==> s@ == decode_utf8(bytes@),
{
    std::str::from_utf8(bytes).ok()
}

/// How [`DtypArrayValue::from`] reads a [`Dtyp`], as a relation on the result.
pub open spec fn spec_array_value(d: Dtyp, v: DtypArrayValue) -> bool {
    if d.data_namespace == 0 && d.data_value@.len() == 4 {
        v == DtypArrayValue::WellKnownType(spec_well_known_from(be_value(d.data_value@, 0, 4) as u32))
    } else if d.data_namespace == 1 && valid_utf8(d.data_value@) {
        v matches DtypArrayValue::ReverseAddress(s) && s@ == decode_utf8(d.data_value@)
    } else {
        v matches DtypArrayValue::Unknown(b) && b@ == d.data_value@
    }
}

impl<'a> DtypArrayValue<'a> {
    /// Reads the value of a [`Dtyp`] by its namespace.
    pub fn from_dtyp(value: &'a Dtyp) -> (r: DtypArrayValue<'a>)
        ensures
            spec_array_value(*value, r),
    {
        if value.data_namespace == 0 {
            if value.data_value.len() == 4 {
                let code = read_u32(value.data_value.as_slice(), 0);
                match code {
                    Ok(c) => {
                        return DtypArrayValue::WellKnownType(WellKnownType::from(c));
                    },
                    Err(_) => {},
                }
            }
        } else if value.data_namespace == 1 {
            match str_from_utf8(value.data_value.as_slice()) {
                Some(s) => {
                    return DtypArrayValue::ReverseAddress(s);
                },
                None => {},
            }
        }
        DtypArrayValue::Unknown(value.data_value.as_slice())
    }
}

/// Data type codes of the QuickTime well-known types table:
/// https://developer.apple.com/documentation/quicktime-file-format/well-known_types
#[derive(Debug, Clone, Copy, PartialEq, Eq, Structural)]
pub enum WellKnownType {
    Reserved,
    Utf8,
    Utf16,
    SJis,
    Utf8Sort,
    Utf16Sort,
    Jpeg,
    Png,
    BeSignedInteger,
    BeUnsignedInteger,
    BeFloat32,
    BeFloat64,
    Bmp,
    QuicktimeMetadataAtom,
    ByteSignedInteger,
    Be16BitSignedInteger,
    Be32BitSignedInteger,
    BePointF32,
    BeDimensionsF32,
    BeRectF32,
    Be64BitSignedInteger,
    ByteUnsignedInteger,
    Be16BitUnsignedInteger,
    Be32BitUnsignedInteger,
    Be64BitUnsignedInteger,
    AffineTransformF64,
    Unknown(u32),
}

/// The code of each well-known type; an unknown type carries its own.
pub open spec fn spec_well_known_code(t: WellKnownType) -> u32 {
    match t {
        WellKnownType::Reserved => 0,
        WellKnownType::Utf8 => 1,
        WellKnownType::Utf16 => 2,
        WellKnownType::SJis => 3,
        WellKnownType::Utf8Sort => 4,
        WellKnownType::Utf16Sort => 5,
        WellKnownType::Jpeg => 13,
        WellKnownType::Png => 14,
        WellKnownType::BeSignedInteger => 21,
        WellKnownType::BeUnsignedInteger => 22,
        WellKnownType::BeFloat32 => 23,
        WellKnownType::BeFloat64 => 24,
        WellKnownType::Bmp => 27,
        WellKnownType::QuicktimeMetadataAtom => 28,
        WellKnownType::ByteSignedInteger => 65,
        WellKnownType::Be16BitSignedInteger => 66,
        WellKnownType::Be32BitSignedInteger => 67,
        WellKnownType::BePointF32 => 70,
        WellKnownType::BeDimensionsF32 => 71,
        WellKnownType::BeRectF32 => 72,
        WellKnownType::Be64BitSignedInteger => 74,
        WellKnownType::ByteUnsignedInteger => 75,
        WellKnownType::Be16BitUnsignedInteger => 76,
        WellKnownType::Be32BitUnsignedInteger => 77,
        WellKnownType::Be64BitUnsignedInteger => 78,
        WellKnownType::AffineTransformF64 => 79,
        WellKnownType::Unknown(n) => n,
    }
}

/// The type a code names; a code outside the table is `Unknown`.
pub open spec fn spec_well_known_from(c: u32) -> WellKnownType {
    if c == 0 {
        WellKnownType::Reserved
    } else if c == 1 {
        WellKnownType::Utf8
    } else if c == 2 {
        WellKnownType::Utf16
    } else if c == 3 {
        WellKnownType::SJis
    } else if c == 4 {
        WellKnownType::Utf8Sort
    } else if c == 5 {
        WellKnownType::Utf16Sort
    } else if c == 13 {
        WellKnownType::Jpeg
    } else if c == 14 {
        WellKnownType::Png
    } else if c == 21 {
        WellKnownType::BeSignedInteger
    } else if c == 22 {
        WellKnownType::BeUnsignedInteger
    } else if c == 23 {
        WellKnownType::BeFloat32
    } else if c == 24 {
        WellKnownType::BeFloat64
    } else if c == 27 {
        WellKnownType::Bmp
    } else if c == 28 {
        WellKnownType::QuicktimeMetadataAtom
    } else if c == 65 {
        WellKnownType::ByteSignedInteger
    } else if c == 66 {
        WellKnownType::Be16BitSignedInteger
    } else if c == 67 {
        WellKnownType::Be32BitSignedInteger
    } else if c == 70 {
        WellKnownType::BePointF32
    } else if c == 71 {
        WellKnownType::BeDimensionsF32
    } else if c == 72 {
        WellKnownType::BeRectF32
    } else if c == 74 {
        WellKnownType::Be64BitSignedInteger
    } else if c == 75 {
        WellKnownType::ByteUnsignedInteger
    } else if c == 76 {
        WellKnownType::Be16BitUnsignedInteger
    } else if c == 77 {
        WellKnownType::Be32BitUnsignedInteger
    } else if c == 78 {
        WellKnownType::Be64BitUnsignedInteger
    } else if c == 79 {
        WellKnownType::AffineTransformF64
    } else {
        WellKnownType::Unknown(c)
    }
}

/// Whether `c` is one of the codes in the table.
pub open spec fn spec_is_listed_code(c: u32) -> bool {
    !(spec_well_known_from(c) is Unknown)
}

/// The display name of each well-known type.
pub open spec fn spec_well_known_name(t: WellKnownType) -> Seq<char> {
    match t {
        WellKnownType::Reserved => "RESERVED"@,
        WellKnownType::Utf8 => "UTF-8"@,
        WellKnownType::Utf16 => "UTF-16"@,
        WellKnownType::SJis => "S/JIS"@,
        WellKnownType::Utf8Sort => "UTF-8 sort"@,
        WellKnownType::Utf16Sort => "UTF-16 sort"@,
        WellKnownType::Jpeg => "JPEG"@,
        WellKnownType::Png => "PNG"@,
        WellKnownType::BeSignedInteger => "BE Signed Integer"@,
        WellKnownType::BeUnsignedInteger => "BE Unsigned Integer"@,
        WellKnownType::BeFloat32 => "BE Float32"@,
        WellKnownType::BeFloat64 => "BE Float64"@,
        WellKnownType::Bmp => "BMP"@,
        WellKnownType::QuicktimeMetadataAtom => "QuickTime Metadata atom"@,
        WellKnownType::ByteSignedInteger => "8-bit Signed Integer"@,
        WellKnownType::Be16BitSignedInteger => "BE 16-bit Signed Integer"@,
        WellKnownType::Be32BitSignedInteger => "BE 32-bit Signed Integer"@,
        WellKnownType::BePointF32 => "BE PointF32"@,
        WellKnownType::BeDimensionsF32 => "BE DimensionsF32"@,
        WellKnownType::BeRectF32 => "BE RectF32"@,
        WellKnownType::Be64BitSignedInteger => "BE 64-bit Signed Integer"@,
        WellKnownType::ByteUnsignedInteger => "8-bit Unsigned Integer"@,
        WellKnownType::Be16BitUnsignedInteger => "BE 16-bit Unsigned Integer"@,
        WellKnownType::Be32BitUnsignedInteger => "BE 32-bit Unsigned Integer"@,
        WellKnownType::Be64BitUnsignedInteger => "BE 64-bit Unsigned Integer"@,
        WellKnownType::AffineTransformF64 => "AffineTransformF64"@,
        WellKnownType::Unknown(_) => "Unknown type"@,
    }
}

/// The descriptive comment of each well-known type.
pub open spec fn spec_well_known_comment(t: WellKnownType) -> Seq<char> {
    match t {
        WellKnownType::Reserved => "Reserved for use where no type needs to be indicated"@,
        WellKnownType::Utf8 => "Without any count or NULL terminator"@,
        WellKnownType::Utf16 => "Also known as UTF-16BE"@,
        WellKnownType::SJis => "Deprecated unless it is needed for special Japanese characters"@,
        WellKnownType::Utf8Sort => "Variant storage of a string for sorting only"@,
        WellKnownType::Utf16Sort => "Variant storage of a string for sorting only"@,
        WellKnownType::Jpeg => "In a JFIF wrapper"@,
        WellKnownType::Png => "In a PNG wrapper"@,
        WellKnownType::BeSignedInteger => "A big-endian signed integer in 1,2,3 or 4 bytes. Note: This data type is not supported in Timed metadata media. Use one of the fixed-size signed integer data types (that is, type codes 65, 66, or 67) instead."@,
        WellKnownType::BeUnsignedInteger => "A big-endian unsigned integer in 1,2,3 or 4 bytes; size of value determines integer size. Note: This data type is not supported in Timed metadata media. Use one of the fixed-size unsigned integer data types (that is, type codes 75, 76, or 77) instead."@,
        WellKnownType::BeFloat32 => "A big-endian 32-bit floating point value (IEEE754)"@,
        WellKnownType::BeFloat64 => "A big-endian 64-bit floating point value (IEEE754)"@,
        WellKnownType::Bmp => "Windows bitmap format graphics"@,
        WellKnownType::QuicktimeMetadataAtom => "A block of data having the structure of the Metadata atom defined in this specification"@,
        WellKnownType::ByteSignedInteger => "An 8-bit signed integer"@,
        WellKnownType::Be16BitSignedInteger => "A big-endian 16-bit signed integer"@,
        WellKnownType::Be32BitSignedInteger => "A big-endian 32-bit signed integer"@,
        WellKnownType::BePointF32 => "A block of data representing a two dimensional (2D) point with 32-bit big-endian floating point x and y coordinates. It has the structure: struct { BEFloat32 x; BEFloat32 y; }"@,
        WellKnownType::BeDimensionsF32 => "A block of data representing 2D dimensions with 32-bit big-endian floating point width and height. It has the structure: struct { BEFloat32 width; BEFloat32 height; }"@,
        WellKnownType::BeRectF32 => "A block of data representing a 2D rectangle with 32-bit big-endian floating point x and y coordinates and a 32-bit big-endian floating point width and height size. It has the structure: struct { BEFloat32 x; BEFloat32 y; BEFloat32 width; BEFloat32 height;} or the equivalent structure: struct { PointF32 origin; DimensionsF32 size; }"@,
        WellKnownType::Be64BitSignedInteger => "A big-endian 64-bit signed integer"@,
        WellKnownType::ByteUnsignedInteger => "An 8-bit unsigned integer"@,
        WellKnownType::Be16BitUnsignedInteger => "A big-endian 16-bit unsigned integer"@,
        WellKnownType::Be32BitUnsignedInteger => "A big-endian 32-bit unsigned integer"@,
        WellKnownType::Be64BitUnsignedInteger => "A big-endian 64-bit unsigned integer"@,
        WellKnownType::AffineTransformF64 => "A block of data representing a 3x3 transformation matrix. It has the structure: struct { BEFloat64 matrix[3][3]; }"@,
        WellKnownType::Unknown(_) => "Unknown data code per table found on https://developer.apple.com/documentation/quicktime-file-format/well-known_types"@,
    }
}

impl WellKnownType {
    /// The type's code in the well-known types table.
    pub fn code(&self) -> (r: u32)
        ensures
            r == spec_well_known_code(*self),
    {
        match self {
            WellKnownType::Reserved => 0,
            WellKnownType::Utf8 => 1,
            WellKnownType::Utf16 => 2,
            WellKnownType::SJis => 3,
            WellKnownType::Utf8Sort => 4,
            WellKnownType::Utf16Sort => 5,
            WellKnownType::Jpeg => 13,
            WellKnownType::Png => 14,
            WellKnownType::BeSignedInteger => 21,
            WellKnownType::BeUnsignedInteger => 22,
            WellKnownType::BeFloat32 => 23,
            WellKnownType::BeFloat64 => 24,
            WellKnownType::Bmp => 27,
            WellKnownType::QuicktimeMetadataAtom => 28,
            WellKnownType::ByteSignedInteger => 65,
            WellKnownType::Be16BitSignedInteger => 66,
            WellKnownType::Be32BitSignedInteger => 67,
            WellKnownType::BePointF32 => 70,
            WellKnownType::BeDimensionsF32 => 71,
            WellKnownType::BeRectF32 => 72,
            WellKnownType::Be64BitSignedInteger => 74,
            WellKnownType::ByteUnsignedInteger => 75,
            WellKnownType::Be16BitUnsignedInteger => 76,
            WellKnownType::Be32BitUnsignedInteger => 77,
            WellKnownType::Be64BitUnsignedInteger => 78,
            WellKnownType::AffineTransformF64 => 79,
            WellKnownType::Unknown(n) => *n,
        }
    }

    /// The type's name in the well-known types table.
    pub fn name(&self) -> (r: &'static str)
        ensures
            r@ == spec_well_known_name(*self),
    {
        match self {
            WellKnownType::Reserved => "RESERVED",
            WellKnownType::Utf8 => "UTF-8",
            WellKnownType::Utf16 => "UTF-16",
            WellKnownType::SJis => "S/JIS",
            WellKnownType::Utf8Sort => "UTF-8 sort",
            WellKnownType::Utf16Sort => "UTF-16 sort",
            WellKnownType::Jpeg => "JPEG",
            WellKnownType::Png => "PNG",
            WellKnownType::BeSignedInteger => "BE Signed Integer",
            WellKnownType::BeUnsignedInteger => "BE Unsigned Integer",
            WellKnownType::BeFloat32 => "BE Float32",
            WellKnownType::BeFloat64 => "BE Float64",
            WellKnownType::Bmp => "BMP",
            WellKnownType::QuicktimeMetadataAtom => "QuickTime Metadata atom",
            WellKnownType::ByteSignedInteger => "8-bit Signed Integer",
            WellKnownType::Be16BitSignedInteger => "BE 16-bit Signed Integer",
            WellKnownType::Be32BitSignedInteger => "BE 32-bit Signed Integer",
            WellKnownType::BePointF32 => "BE PointF32",
            WellKnownType::BeDimensionsF32 => "BE DimensionsF32",
            WellKnownType::BeRectF32 => "BE RectF32",
            WellKnownType::Be64BitSignedInteger => "BE 64-bit Signed Integer",
            WellKnownType::ByteUnsignedInteger => "8-bit Unsigned Integer",
            WellKnownType::Be16BitUnsignedInteger => "BE 16-bit Unsigned Integer",
            WellKnownType::Be32BitUnsignedInteger => "BE 32-bit Unsigned Integer",
            WellKnownType::Be64BitUnsignedInteger => "BE 64-bit Unsigned Integer",
            WellKnownType::AffineTransformF64 => "AffineTransformF64",
            WellKnownType::Unknown(_) => "Unknown type",
        }
    }

    /// The table's comment on the type.
    pub fn comment(&self) -> (r: &'static str)
        ensures
            r@ == spec_well_known_comment(*self),
    {
        match self {
            WellKnownType::Reserved => "Reserved for use where no type needs to be indicated",
            WellKnownType::Utf8 => "Without any count or NULL terminator",
            WellKnownType::Utf16 => "Also known as UTF-16BE",
            WellKnownType::SJis => "Deprecated unless it is needed for special Japanese characters",
            WellKnownType::Utf8Sort => "Variant storage of a string for sorting only",
            WellKnownType::Utf16Sort => "Variant storage of a string for sorting only",
            WellKnownType::Jpeg => "In a JFIF wrapper",
            WellKnownType::Png => "In a PNG wrapper",
            WellKnownType::BeSignedInteger => "A big-endian signed integer in 1,2,3 or 4 bytes. Note: This data type is not supported in Timed metadata media. Use one of the fixed-size signed integer data types (that is, type codes 65, 66, or 67) instead.",
            WellKnownType::BeUnsignedInteger => "A big-endian unsigned integer in 1,2,3 or 4 bytes; size of value determines integer size. Note: This data type is not supported in Timed metadata media. Use one of the fixed-size unsigned integer data types (that is, type codes 75, 76, or 77) instead.",
            WellKnownType::BeFloat32 => "A big-endian 32-bit floating point value (IEEE754)",
            WellKnownType::BeFloat64 => "A big-endian 64-bit floating point value (IEEE754)",
            WellKnownType::Bmp => "Windows bitmap format graphics",
            WellKnownType::QuicktimeMetadataAtom => "A block of data having the structure of the Metadata atom defined in this specification",
            WellKnownType::ByteSignedInteger => "An 8-bit signed integer",
            WellKnownType::Be16BitSignedInteger => "A big-endian 16-bit signed integer",
            WellKnownType::Be32BitSignedInteger => "A big-endian 32-bit signed integer",
            WellKnownType::BePointF32 => "A block of data representing a two dimensional (2D) point with 32-bit big-endian floating point x and y coordinates. It has the structure: struct { BEFloat32 x; BEFloat32 y; }",
            WellKnownType::BeDimensionsF32 => "A block of data representing 2D dimensions with 32-bit big-endian floating point width and height. It has the structure: struct { BEFloat32 width; BEFloat32 height; }",
            WellKnownType::BeRectF32 => "A block of data representing a 2D rectangle with 32-bit big-endian floating point x and y coordinates and a 32-bit big-endian floating point width and height size. It has the structure: struct { BEFloat32 x; BEFloat32 y; BEFloat32 width; BEFloat32 height;} or the equivalent structure: struct { PointF32 origin; DimensionsF32 size; }",
            WellKnownType::Be64BitSignedInteger => "A big-endian 64-bit signed integer",
            WellKnownType::ByteUnsignedInteger => "An 8-bit unsigned integer",
            WellKnownType::Be16BitUnsignedInteger => "A big-endian 16-bit unsigned integer",
            WellKnownType::Be32BitUnsignedInteger => "A big-endian 32-bit unsigned integer",
            WellKnownType::Be64BitUnsignedInteger => "A big-endian 64-bit unsigned integer",
            WellKnownType::AffineTransformF64 => "A block of data representing a 3x3 transformation matrix. It has the structure: struct { BEFloat64 matrix[3][3]; }",
            WellKnownType::Unknown(_) => "Unknown data code per table found on https://developer.apple.com/documentation/quicktime-file-format/well-known_types",
        }
    }
}

impl From<u32> for WellKnownType {
    fn from(value: u32) -> (r: WellKnownType) {
        match value {
            0 => WellKnownType::Reserved,
            1 => WellKnownType::Utf8,
            2 => WellKnownType::Utf16,
            3 => WellKnownType::SJis,
            4 => WellKnownType::Utf8Sort,
            5 => WellKnownType::Utf16Sort,
            13 => WellKnownType::Jpeg,
            14 => WellKnownType::Png,
            21 => WellKnownType::BeSignedInteger,
            22 => WellKnownType::BeUnsignedInteger,
            23 => WellKnownType::BeFloat32,
            24 => WellKnownType::BeFloat64,
            27 => WellKnownType::Bmp,
            28 => WellKnownType::QuicktimeMetadataAtom,
            65 => WellKnownType::ByteSignedInteger,
            66 => WellKnownType::Be16BitSignedInteger,
            67 => WellKnownType::Be32BitSignedInteger,
            70 => WellKnownType::BePointF32,
            71 => WellKnownType::BeDimensionsF32,
            72 => WellKnownType::BeRectF32,
            74 => WellKnownType::Be64BitSignedInteger,
            75 => WellKnownType::ByteUnsignedInteger,
            76 => WellKnownType::Be16BitUnsignedInteger,
            77 => WellKnownType::Be32BitUnsignedInteger,
            78 => WellKnownType::Be64BitUnsignedInteger,
            79 => WellKnownType::AffineTransformF64,
            n => WellKnownType::Unknown(n),
        }
    }
}

impl vstd::std_specs::convert::FromSpecImpl<u32> for WellKnownType {
    open spec fn obeys_from_spec() -> bool {
        true
    }

    open spec fn from_spec(v: u32) -> WellKnownType {
        spec_well_known_from(v)
    }
}

/// Reading a code and writing it back gives the same code, for every code.
pub proof fn lemma_code_of_from(c: u32)
    ensures
        spec_well_known_code(spec_well_known_from(c)) == c,
{
}

/// A type read back from its own code is the same type, for every type but an
/// `Unknown` that carries a code the table lists.
pub proof fn lemma_from_of_code(t: WellKnownType)
    requires
        t matches WellKnownType::Unknown(n) ==> !spec_is_listed_code(n),
    ensures
        spec_well_known_from(spec_well_known_code(t)) == t,
{
}

} // verus!
