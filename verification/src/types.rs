//! Catalog of the language's primitive value kinds: name lookup, bit width,
//! byte size, inclusive value range, and the bit-packing decision.

use vstd::prelude::*;
use vstd::arithmetic::power2::{pow2, lemma2_to64, lemma2_to64_rest};
use crate::text::str_eq;

verus! {

/// The closed set of primitive kinds the language knows about.
#[derive(Debug, Clone, PartialEq, Eq, Structural)]
pub enum PrimitiveType {
    /// Single bit, the boolean-like kind; the only kind that is bit-packed.
    Bit,
    UInt2,
    UInt4,
    UInt8,
    UInt16,
    UInt32,
    UInt64,
    Int8,
    Int16,
    Int32,
    Int64,
}

/// The kind a type-name string denotes, or `None` for an unknown name.
pub open spec fn spec_type_of_name(s: Seq<char>) -> Option<PrimitiveType> {
    if s == "bit"@ || s == "bool"@ {
        Some(PrimitiveType::Bit)
    } else if s == "uint2"@ {
        Some(PrimitiveType::UInt2)
    } else if s == "uint4"@ {
        Some(PrimitiveType::UInt4)
    } else if s == "uint8"@ {
        Some(PrimitiveType::UInt8)
    } else if s == "uint16"@ {
        Some(PrimitiveType::UInt16)
    } else if s == "uint32"@ {
        Some(PrimitiveType::UInt32)
    } else if s == "uint64"@ {
        Some(PrimitiveType::UInt64)
    } else if s == "int8"@ {
        Some(PrimitiveType::Int8)
    } else if s == "int16"@ {
        Some(PrimitiveType::Int16)
    } else if s == "int32"@ {
        Some(PrimitiveType::Int32)
    } else if s == "int64"@ {
        Some(PrimitiveType::Int64)
    } else {
        None
    }
}

impl PrimitiveType {
    /// Fixed width of the kind, in bits.
    pub open spec fn spec_bit_width(&self) -> nat {
        match self {
            PrimitiveType::Bit => 1,
            PrimitiveType::UInt2 => 2,
            PrimitiveType::UInt4 => 4,
            PrimitiveType::UInt8 | PrimitiveType::Int8 => 8,
            PrimitiveType::UInt16 | PrimitiveType::Int16 => 16,
            PrimitiveType::UInt32 | PrimitiveType::Int32 => 32,
            PrimitiveType::UInt64 | PrimitiveType::Int64 => 64,
        }
    }

    /// Whether the kind is a signed integer kind.
    pub open spec fn spec_signed(&self) -> bool {
        match self {
            PrimitiveType::Int8
            | PrimitiveType::Int16
            | PrimitiveType::Int32
            | PrimitiveType::Int64 => true,
            _ => false,
        }
    }

    /// Inclusive bounds of the values the kind can hold. The result type is
    /// wide enough for both the signed 64-bit minimum and the unsigned
    /// 64-bit maximum.
    pub open spec fn spec_value_range(&self) -> (i128, i128) {
        match self {
            PrimitiveType::Bit => (0, 1),
            PrimitiveType::UInt2 => (0, 3),
            PrimitiveType::UInt4 => (0, 15),
            PrimitiveType::UInt8 => (0, 255),
            PrimitiveType::UInt16 => (0, 65_535),
            PrimitiveType::UInt32 => (0, 4_294_967_295),
            PrimitiveType::UInt64 => (0, 18_446_744_073_709_551_615),
            PrimitiveType::Int8 => (-128i128, 127i128),
            PrimitiveType::Int16 => (-32_768i128, 32_767i128),
            PrimitiveType::Int32 => (-2_147_483_648i128, 2_147_483_647i128),
            PrimitiveType::Int64 => (
                -9_223_372_036_854_775_808i128,
                9_223_372_036_854_775_807i128,
            ),
        }
    }

    /// Looks a primitive kind up by its source-level type name.
    /// `bit` and `bool` both denote the single-bit kind; every other name
    /// of the catalog denotes its kind exactly; unknown names yield `None`.
    pub fn from_str(s: &str) -> (r: Option<PrimitiveType>)
        ensures
            r == spec_type_of_name(s@),
    {
        if str_eq(s, "bit") || str_eq(s, "bool") {
            Some(PrimitiveType::Bit)
        } else if str_eq(s, "uint2") {
            Some(PrimitiveType::UInt2)
        } else if str_eq(s, "uint4") {
            Some(PrimitiveType::UInt4)
        } else if str_eq(s, "uint8") {
            Some(PrimitiveType::UInt8)
        } else if str_eq(s, "uint16") {
            Some(PrimitiveType::UInt16)
        } else if str_eq(s, "uint32") {
            Some(PrimitiveType::UInt32)
        } else if str_eq(s, "uint64") {
            Some(PrimitiveType::UInt64)
        } else if str_eq(s, "int8") {
            Some(PrimitiveType::Int8)
        } else if str_eq(s, "int16") {
            Some(PrimitiveType::Int16)
        } else if str_eq(s, "int32") {
            Some(PrimitiveType::Int32)
        } else if str_eq(s, "int64") {
            Some(PrimitiveType::Int64)
        } else {
            None
        }
    }

    /// Width of the kind in bits.
    pub fn size_in_bits(&self) -> (r: u8)
        ensures
            r == self.spec_bit_width(),
    {
        match self {
            PrimitiveType::Bit => 1,
            PrimitiveType::UInt2 => 2,
            PrimitiveType::UInt4 => 4,
            PrimitiveType::UInt8 | PrimitiveType::Int8 => 8,
            PrimitiveType::UInt16 | PrimitiveType::Int16 => 16,
            PrimitiveType::UInt32 | PrimitiveType::Int32 => 32,
            PrimitiveType::UInt64 | PrimitiveType::Int64 => 64,
        }
    }

    /// Size the kind occupies in memory, in whole bytes: widths under one
    /// byte are aligned up to one byte.
    pub fn size_in_bytes(&self) -> (r: u8)
        ensures
            r == (self.spec_bit_width() + 7) / 8,
    {
        let bits = self.size_in_bits();
        (bits + 7) / 8
    }

    /// Alignment figure of the kind, reported as its width in bits.
    pub fn memory_alignment(&self) -> (r: u8)
        ensures
            r == self.spec_bit_width(),
    {
        self.size_in_bits()
    }

    /// Inclusive range of values the kind can hold.
    pub fn value_range(&self) -> (r: (i128, i128))
        ensures
            r == self.spec_value_range(),
    {
        match self {
            PrimitiveType::Bit => (0, 1),
            PrimitiveType::UInt2 => (0, 3),
            PrimitiveType::UInt4 => (0, 15),
            PrimitiveType::UInt8 => (0, 255),
            PrimitiveType::UInt16 => (0, 65_535),
            PrimitiveType::UInt32 => (0, 4_294_967_295),
            PrimitiveType::UInt64 => (0, 18_446_744_073_709_551_615),
            PrimitiveType::Int8 => (-128, 127),
            PrimitiveType::Int16 => (-32_768, 32_767),
            PrimitiveType::Int32 => (-2_147_483_648, 2_147_483_647),
            PrimitiveType::Int64 => (-9_223_372_036_854_775_808, 9_223_372_036_854_775_807),
        }
    }

    /// Whether values of the kind are laid out through the bit packer.
    /// True exactly for the single-bit kind.
    pub fn should_use_bitset(&self) -> (r: bool)
        ensures
            r == (*self == PrimitiveType::Bit),
    {
        matches!(self, PrimitiveType::Bit)
    }
}

/// The value range of every kind is exactly the range of an N-bit integer
/// of the kind's width and signedness: `[0, 2^N - 1]` for the unsigned
/// kinds and `[-2^(N-1), 2^(N-1) - 1]` for the signed ones.
pub proof fn lemma_value_range_matches_width(k: PrimitiveType)
    ensures
        !k.spec_signed() ==> k.spec_value_range().0 == 0 && k.spec_value_range().1 as int == pow2(
            k.spec_bit_width(),
        ) - 1,
        k.spec_signed() ==> k.spec_value_range().0 as int == -(pow2(
            (k.spec_bit_width() - 1) as nat,
        ) as int) && k.spec_value_range().1 as int == pow2((k.spec_bit_width() - 1) as nat) - 1,
{
    lemma2_to64();
    lemma2_to64_rest();
}

/// Every supported type name denotes its kind of the catalog, and the
/// kind carries the width, byte size and value range of the table:
/// `bit` and `bool` the 1-bit kind, `uintN` and `intN` the N-bit kinds.
pub proof fn lemma_catalog_table()
    ensures
        spec_type_of_name("bit"@) == Some(PrimitiveType::Bit),
        spec_type_of_name("bool"@) == Some(PrimitiveType::Bit),
        spec_type_of_name("uint2"@) == Some(PrimitiveType::UInt2),
        spec_type_of_name("uint4"@) == Some(PrimitiveType::UInt4),
        spec_type_of_name("uint8"@) == Some(PrimitiveType::UInt8),
        spec_type_of_name("uint16"@) == Some(PrimitiveType::UInt16),
        spec_type_of_name("uint32"@) == Some(PrimitiveType::UInt32),
        spec_type_of_name("uint64"@) == Some(PrimitiveType::UInt64),
        spec_type_of_name("int8"@) == Some(PrimitiveType::Int8),
        spec_type_of_name("int16"@) == Some(PrimitiveType::Int16),
        spec_type_of_name("int32"@) == Some(PrimitiveType::Int32),
        spec_type_of_name("int64"@) == Some(PrimitiveType::Int64),
        PrimitiveType::Bit.spec_bit_width() == 1 && PrimitiveType::Bit.spec_value_range() == (
            0i128,
            1i128,
        ),
        PrimitiveType::UInt2.spec_bit_width() == 2 && PrimitiveType::UInt2.spec_value_range() == (
            0i128,
            3i128,
        ),
        PrimitiveType::UInt4.spec_bit_width() == 4 && PrimitiveType::UInt4.spec_value_range() == (
            0i128,
            15i128,
        ),
        PrimitiveType::UInt8.spec_bit_width() == 8 && PrimitiveType::UInt8.spec_value_range() == (
            0i128,
            255i128,
        ),
        PrimitiveType::UInt16.spec_bit_width() == 16 && PrimitiveType::UInt16.spec_value_range()
            == (0i128, 65_535i128),
        PrimitiveType::UInt32.spec_bit_width() == 32 && PrimitiveType::UInt32.spec_value_range()
            == (0i128, 4_294_967_295i128),
        PrimitiveType::UInt64.spec_bit_width() == 64 && PrimitiveType::UInt64.spec_value_range()
            == (0i128, 18_446_744_073_709_551_615i128),
        PrimitiveType::Int8.spec_bit_width() == 8 && PrimitiveType::Int8.spec_value_range() == (
            -128i128,
            127i128,
        ),
        PrimitiveType::Int16.spec_bit_width() == 16 && PrimitiveType::Int16.spec_value_range() == (
            -32_768i128,
            32_767i128,
        ),
        PrimitiveType::Int32.spec_bit_width() == 32 && PrimitiveType::Int32.spec_value_range() == (
            -2_147_483_648i128,
            2_147_483_647i128,
        ),
        PrimitiveType::Int64.spec_bit_width() == 64 && PrimitiveType::Int64.spec_value_range() == (
            -9_223_372_036_854_775_808i128,
            9_223_372_036_854_775_807i128,
        ),
{
    reveal_strlit("bit");
    reveal_strlit("bool");
    reveal_strlit("uint2");
    reveal_strlit("uint4");
    reveal_strlit("uint8");
    reveal_strlit("uint16");
    reveal_strlit("uint32");
    reveal_strlit("uint64");
    reveal_strlit("int8");
    reveal_strlit("int16");
    reveal_strlit("int32");
    reveal_strlit("int64");
    assert("bit"@.len() == 3 && "bool"@.len() == 4);
    assert("uint2"@.len() == 5 && "uint4"@.len() == 5 && "uint8"@.len() == 5);
    assert("uint16"@.len() == 6 && "uint32"@.len() == 6 && "uint64"@.len() == 6);
    assert("int8"@.len() == 4);
    assert("int8"@[0] == 'i' && "bool"@[0] == 'b');
    assert("int16"@.len() == 5 && "int32"@.len() == 5 && "int64"@.len() == 5);
    assert("uint2"@[4] == '2' && "uint4"@[4] == '4' && "uint8"@[4] == '8');
    assert("uint2"@[0] == 'u' && "int16"@[0] == 'i' && "int32"@[0] == 'i' && "int64"@[0] == 'i');
    assert("int16"@[3] == '1' && "int32"@[3] == '3' && "int64"@[3] == '6');
    assert("uint16"@[4] == '1' && "uint32"@[4] == '3' && "uint64"@[4] == '6');
    assert(spec_type_of_name("bit"@) == Some(PrimitiveType::Bit));
    assert(spec_type_of_name("bool"@) == Some(PrimitiveType::Bit));
    assert(spec_type_of_name("uint2"@) == Some(PrimitiveType::UInt2));
    assert(spec_type_of_name("uint4"@) == Some(PrimitiveType::UInt4));
    assert(spec_type_of_name("uint8"@) == Some(PrimitiveType::UInt8));
    assert(spec_type_of_name("uint16"@) == Some(PrimitiveType::UInt16));
    assert(spec_type_of_name("uint32"@) == Some(PrimitiveType::UInt32));
    assert(spec_type_of_name("uint64"@) == Some(PrimitiveType::UInt64));
    assert(spec_type_of_name("int8"@) == Some(PrimitiveType::Int8));
    assert(spec_type_of_name("int16"@) == Some(PrimitiveType::Int16));
    assert(spec_type_of_name("int32"@) == Some(PrimitiveType::Int32));
    assert(spec_type_of_name("int64"@) == Some(PrimitiveType::Int64));
}

} // verus!
